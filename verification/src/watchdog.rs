//! Crash bookkeeping per worker role: how long to wait before the next start, and how healthy the
//! role looks.

use vstd::prelude::*;

use crate::control::{HealthState, RoleHealth};
use crate::handoff::UPGRADE_COMMIT_EXIT_CODE;
use crate::limits::since;
use crate::roles::{every_role, role_name, WorkerRole};
use crate::text_map::TextMap;
use crate::time::{duration_millis_u64, millis_of, Span};

verus! {

/// The first wait, in nanoseconds: 200 ms.
pub const WATCHDOG_INITIAL_BACKOFF: u128 = 200_000_000;

/// The longest wait, in nanoseconds: 30 s.
pub const WATCHDOG_MAX_BACKOFF: u128 = 30_000_000_000;

/// A worker that ran for this many nanoseconds did not exit fast: 5 s.
pub const WATCHDOG_HEALTHY_UPTIME: u128 = 5_000_000_000;

/// From this many fast exits in a row the role is flapping.
pub const WATCHDOG_FLAP_THRESHOLD: u32 = 4;

/// From this many fast exits in a row the role has failed. It is still restarted, at the longest
/// wait.
pub const WATCHDOG_FAIL_THRESHOLD: u32 = 5;

/// What is remembered of one role. Points in time are nanoseconds of a clock that never goes back.
#[derive(Clone, Copy, Debug, PartialEq, Eq, Structural)]
pub struct WatchdogState {
    pub consecutive_fast_exits: u32,
    pub next_backoff: Span,
    pub last_spawned_at: Option<u64>,
    pub total_restarts: u64,
    pub last_restart_at_unix_ms: Option<u64>,
}

/// A role that was never started.
pub open spec fn fresh_watchdog() -> WatchdogState {
    WatchdogState { next_backoff: Span { nanos: WATCHDOG_INITIAL_BACKOFF }, ..unknown_watchdog() }
}

/// A role that nothing was recorded of.
pub open spec fn unknown_watchdog() -> WatchdogState {
    WatchdogState {
        consecutive_fast_exits: 0,
        next_backoff: Span { nanos: 0 },
        last_spawned_at: None,
        total_restarts: 0,
        last_restart_at_unix_ms: None,
    }
}

/// How long the worker has been up at `now`; zero where it was never seen to start.
pub open spec fn uptime_at(w: WatchdogState, now: u64) -> nat {
    match w.last_spawned_at {
        Some(t) => since(now, t),
        None => 0,
    }
}

/// The exit was a planned handover to a successor.
pub open spec fn is_commit(code: Option<i32>) -> bool {
    code == Some(UPGRADE_COMMIT_EXIT_CODE)
}

/// The state after an exit with `code` after `uptime`. A handover and an exit after a healthy
/// uptime start the count and the wait over; any other exit counts as fast and doubles the wait,
/// up to the longest.
pub open spec fn after_exit(w: WatchdogState, code: Option<i32>, uptime: nat) -> WatchdogState {
    if is_commit(code) || uptime >= WATCHDOG_HEALTHY_UPTIME {
        WatchdogState {
            consecutive_fast_exits: 0,
            next_backoff: Span { nanos: WATCHDOG_INITIAL_BACKOFF },
            ..w
        }
    } else {
        WatchdogState {
            consecutive_fast_exits: (w.consecutive_fast_exits + 1) as u32,
            next_backoff: Span { nanos: doubled(w.next_backoff.nanos as nat) as u128 },
            ..w
        }
    }
}

/// Twice the wait, but no more than the longest.
pub open spec fn doubled(nanos: nat) -> nat {
    if nanos * 2 <= WATCHDOG_MAX_BACKOFF {
        nanos * 2
    } else {
        WATCHDOG_MAX_BACKOFF as nat
    }
}

/// The record that is kept after an exit with `code` after `uptime`: a role that has failed waits
/// the longest, so that a broken worker is not started over and over.
pub open spec fn recorded_exit(w: WatchdogState, code: Option<i32>, uptime: nat) -> WatchdogState {
    let after = after_exit(w, code, uptime);
    if after.consecutive_fast_exits >= WATCHDOG_FAIL_THRESHOLD {
        WatchdogState { next_backoff: Span { nanos: WATCHDOG_MAX_BACKOFF }, ..after }
    } else {
        after
    }
}

/// How the role looks at `now`. Too many fast exits are a failure; otherwise a worker that has
/// been up long enough is healthy whatever came before.
pub open spec fn health_at(w: WatchdogState, now: u64) -> HealthState {
    if w.consecutive_fast_exits >= WATCHDOG_FAIL_THRESHOLD {
        HealthState::Failed
    } else if w.consecutive_fast_exits == 0 || uptime_at(w, now) >= WATCHDOG_HEALTHY_UPTIME {
        HealthState::Healthy
    } else if w.consecutive_fast_exits >= WATCHDOG_FLAP_THRESHOLD {
        HealthState::Flapping
    } else {
        HealthState::Backoff
    }
}

/// `h` reports `w` under the name `role`.
pub open spec fn reports(h: RoleHealth, role: Seq<char>, w: WatchdogState, now: u64) -> bool {
    &&& h.role@ == role
    &&& h.state == health_at(w, now)
    &&& h.consecutive_fast_exits == w.consecutive_fast_exits
    &&& h.next_backoff_ms == millis_of(w.next_backoff.nanos as nat)
    &&& h.total_restarts == w.total_restarts
    &&& h.last_restart_at_unix_ms == w.last_restart_at_unix_ms
}

impl WatchdogState {
    /// The wait never exceeds the longest.
    pub open spec fn well_formed(self) -> bool {
        self.next_backoff.nanos <= WATCHDOG_MAX_BACKOFF
    }

    pub fn new() -> (w: Self)
        ensures
            w == fresh_watchdog(),
            w.well_formed(),
    {
        WatchdogState {
            consecutive_fast_exits: 0,
            next_backoff: Span { nanos: WATCHDOG_INITIAL_BACKOFF },
            last_spawned_at: None,
            total_restarts: 0,
            last_restart_at_unix_ms: None,
        }
    }

    /// A worker was started at `now`.
    pub fn record_spawn(&mut self, now: u64, unix_ms: u64)
        requires
            old(self).total_restarts < u64::MAX,
        ensures
            *final(self) == (WatchdogState {
                last_spawned_at: Some(now),
                total_restarts: (old(self).total_restarts + 1) as u64,
                last_restart_at_unix_ms: Some(unix_ms),
                ..*old(self)
            }),
    {
        self.last_spawned_at = Some(now);
        self.total_restarts = self.total_restarts + 1;
        self.last_restart_at_unix_ms = Some(unix_ms);
    }

    /// A worker that was already running was taken over at `now`: its uptime starts, but this is
    /// no restart.
    pub fn record_adoption(&mut self, now: u64)
        ensures
            *final(self) == (WatchdogState { last_spawned_at: Some(now), ..*old(self) }),
    {
        self.last_spawned_at = Some(now);
    }

    /// The worker exited at `now`; the result is the wait after it, by the doubling alone.
    pub fn record_exit(&mut self, code: Option<i32>, now: u64) -> (backoff: Span)
        requires
            old(self).well_formed(),
            old(self).consecutive_fast_exits < u32::MAX,
        ensures
            *final(self) == after_exit(*old(self), code, uptime_at(*old(self), now)),
            final(self).well_formed(),
            backoff == final(self).next_backoff,
    {
        let uptime = Span { nanos: self.uptime(now) as u128 };
        self.apply_exit(code, uptime)
    }

    fn uptime(&self, now: u64) -> (nanos: u64)
        ensures
            nanos == uptime_at(*self, now),
    {
        match self.last_spawned_at {
            Some(t) => now.saturating_sub(t),
            None => 0,
        }
    }

    /// The worker exited after `uptime`; the result is the wait after it, by the doubling alone.
    pub fn apply_exit(&mut self, code: Option<i32>, uptime: Span) -> (backoff: Span)
        requires
            old(self).well_formed(),
            old(self).consecutive_fast_exits < u32::MAX,
        ensures
            *final(self) == after_exit(*old(self), code, uptime.nanos as nat),
            final(self).well_formed(),
            backoff == final(self).next_backoff,
    {
        let commit = match code {
            Some(c) => c == UPGRADE_COMMIT_EXIT_CODE,
            None => false,
        };
        if commit {
            self.consecutive_fast_exits = 0;
            self.next_backoff = Span { nanos: WATCHDOG_INITIAL_BACKOFF };
            return self.next_backoff;
        }
        if uptime.nanos < WATCHDOG_HEALTHY_UPTIME {
            self.consecutive_fast_exits = self.consecutive_fast_exits + 1;
            let twice: u128 = self.next_backoff.nanos * 2;
            self.next_backoff = Span {
                nanos: if twice <= WATCHDOG_MAX_BACKOFF {
                    twice
                } else {
                    WATCHDOG_MAX_BACKOFF
                },
            };
        } else {
            self.consecutive_fast_exits = 0;
            self.next_backoff = Span { nanos: WATCHDOG_INITIAL_BACKOFF };
        }
        self.next_backoff
    }

    pub fn health_state(&self, now: u64) -> (h: HealthState)
        ensures
            h == health_at(*self, now),
    {
        if self.consecutive_fast_exits >= WATCHDOG_FAIL_THRESHOLD {
            return HealthState::Failed;
        }
        if (self.uptime(now) as u128) >= WATCHDOG_HEALTHY_UPTIME {
            return HealthState::Healthy;
        }
        if self.consecutive_fast_exits == 0 {
            HealthState::Healthy
        } else if self.consecutive_fast_exits >= WATCHDOG_FLAP_THRESHOLD {
            HealthState::Flapping
        } else {
            HealthState::Backoff
        }
    }

    pub fn is_failed(&self) -> (r: bool)
        ensures
            r == (self.consecutive_fast_exits >= WATCHDOG_FAIL_THRESHOLD),
    {
        self.consecutive_fast_exits >= WATCHDOG_FAIL_THRESHOLD
    }

    pub fn snapshot(&self, role: &str, now: u64) -> (h: RoleHealth)
        ensures
            reports(h, role@, *self, now),
    {
        RoleHealth {
            role: role.to_owned(),
            state: self.health_state(now),
            consecutive_fast_exits: self.consecutive_fast_exits,
            next_backoff_ms: duration_millis_u64(self.next_backoff),
            total_restarts: self.total_restarts,
            last_restart_at_unix_ms: self.last_restart_at_unix_ms,
        }
    }
}

impl Default for WatchdogState {
    fn default() -> (w: Self)
        ensures
            w == unknown_watchdog(),
    {
        WatchdogState {
            consecutive_fast_exits: 0,
            next_backoff: Span { nanos: 0 },
            last_spawned_at: None,
            total_restarts: 0,
            last_restart_at_unix_ms: None,
        }
    }
}

#[derive(Clone, Copy, Debug, PartialEq, Eq, Structural)]
pub enum WatchdogEvent {
    Spawn,
    Adoption,
}

/// A fast exit that is worth a line in the log.
#[derive(Clone, Copy, Debug, PartialEq, Eq, Structural)]
pub struct FastExit {
    pub failed: bool,
    pub consecutive_fast_exits: u32,
    pub state: HealthState,
}

/// What there is to log of an exit that left the role in state `after`.
pub open spec fn fast_exit_note(after: WatchdogState, now: u64) -> Option<FastExit> {
    if after.consecutive_fast_exits > 0 {
        Some(
            FastExit {
                failed: after.consecutive_fast_exits >= WATCHDOG_FAIL_THRESHOLD,
                consecutive_fast_exits: after.consecutive_fast_exits,
                state: health_at(after, now),
            },
        )
    } else {
        None
    }
}

/// The watchdogs of all roles.
pub struct Watchdogs {
    roles: TextMap<WatchdogState>,
}

/// What is remembered of a role; of one that is not known, nothing.
pub open spec fn watchdog_of(m: Map<Seq<char>, WatchdogState>, role: Seq<char>) -> WatchdogState {
    if m.dom().contains(role) {
        m[role]
    } else {
        unknown_watchdog()
    }
}

/// Every role that is known is well-formed.
pub open spec fn all_well_formed(m: Map<Seq<char>, WatchdogState>) -> bool {
    forall|role: Seq<char>| #[trigger] m.dom().contains(role) ==> m[role].well_formed()
}

impl View for Watchdogs {
    type V = Map<Seq<char>, WatchdogState>;

    closed spec fn view(&self) -> Map<Seq<char>, WatchdogState> {
        self.roles@
    }
}

/// Fresh watchdogs for the first `n` roles.
pub open spec fn seeded(n: nat) -> Map<Seq<char>, WatchdogState>
    decreases n,
{
    if n == 0 {
        Map::empty()
    } else {
        seeded((n - 1) as nat).insert(role_name(every_role()[n - 1]), fresh_watchdog())
    }
}

/// Watchdogs for every role that is run.
pub fn watchdogs_init() -> (w: Watchdogs)
    ensures
        w@ == seeded(4),
        all_well_formed(w@),
        forall|r: WorkerRole| w@.dom().contains(#[trigger] role_name(r)),
        forall|r: WorkerRole| w@[#[trigger] role_name(r)] == fresh_watchdog(),
{
    let mut m: TextMap<WatchdogState> = TextMap::new();
    let roles = WorkerRole::all();
    let mut i: usize = 0;
    while i < roles.len()
        invariant
            roles@ == every_role(),
            i <= 4,
            m@ == seeded(i as nat),
            all_well_formed(m@),
            forall|j: int| 0 <= j < i ==> m@.dom().contains(role_name(#[trigger] every_role()[j])),
            forall|role: Seq<char>| #[trigger]
                m@.dom().contains(role) ==> m@[role] == fresh_watchdog(),
        decreases 4 - i,
    {
        m.insert(roles[i].name().to_owned(), WatchdogState::new());
        i = i + 1;
    }
    proof {
        assert forall|r: WorkerRole| m@.dom().contains(#[trigger] role_name(r)) by {
            let j: int = match r {
                WorkerRole::Processor => 0,
                WorkerRole::Plain => 1,
                WorkerRole::Tls => 2,
                WorkerRole::Scanner => 3,
            };
            assert(every_role()[j] == r);
        }
    }
    Watchdogs { roles: m }
}

/// Records a start or a takeover at `now`.
pub fn watchdog_record(
    wd: &mut Watchdogs,
    role: &str,
    event: WatchdogEvent,
    now: u64,
    unix_ms: u64,
)
    requires
        all_well_formed(old(wd)@),
        event is Spawn ==> watchdog_of(old(wd)@, role@).total_restarts < u64::MAX,
    ensures
        all_well_formed(final(wd)@),
        ({
            let w = watchdog_of(old(wd)@, role@);
            final(wd)@ == old(wd)@.insert(
                role@,
                match event {
                    WatchdogEvent::Spawn => WatchdogState {
                        last_spawned_at: Some(now),
                        total_restarts: (w.total_restarts + 1) as u64,
                        last_restart_at_unix_ms: Some(unix_ms),
                        ..w
                    },
                    WatchdogEvent::Adoption => WatchdogState { last_spawned_at: Some(now), ..w },
                },
            )
        }),
{
    let mut state = wd.state_of(role);
    match event {
        WatchdogEvent::Spawn => state.record_spawn(now, unix_ms),
        WatchdogEvent::Adoption => state.record_adoption(now),
    }
    wd.roles.insert(role.to_owned(), state);
}

/// Records an exit at `now`; the result is how long the next start waits, and what there is to
/// log where the exit was fast. A role that has failed waits the longest.
pub fn watchdog_record_exit(wd: &mut Watchdogs, role: &str, code: Option<i32>, now: u64) -> (r: (
    Span,
    Option<FastExit>,
))
    requires
        all_well_formed(old(wd)@),
        watchdog_of(old(wd)@, role@).consecutive_fast_exits < u32::MAX,
    ensures
        all_well_formed(final(wd)@),
        ({
            let before = watchdog_of(old(wd)@, role@);
            let after = recorded_exit(before, code, uptime_at(before, now));
            &&& final(wd)@ == old(wd)@.insert(role@, after)
            &&& r.0 == after.next_backoff
            &&& after.consecutive_fast_exits >= WATCHDOG_FAIL_THRESHOLD ==> r.0.nanos
                == WATCHDOG_MAX_BACKOFF
            &&& r.1 == fast_exit_note(after, now)
        }),
{
    let mut state = wd.state_of(role);
    let _ = state.record_exit(code, now);
    if state.is_failed() {
        state.next_backoff = Span { nanos: WATCHDOG_MAX_BACKOFF };
    }
    let note = if state.consecutive_fast_exits > 0 {
        Some(
            FastExit {
                failed: state.is_failed(),
                consecutive_fast_exits: state.consecutive_fast_exits,
                state: state.health_state(now),
            },
        )
    } else {
        None
    };
    wd.roles.insert(role.to_owned(), state);
    (state.next_backoff, note)
}

/// The report on every role that is run.
pub fn watchdogs_snapshot(wd: &Watchdogs, now: u64) -> (v: Vec<RoleHealth>)
    ensures
        v@.len() == 4,
        forall|i: int|
            0 <= i < 4 ==> reports(
                #[trigger] v@[i],
                role_name(every_role()[i]),
                (if wd@.dom().contains(role_name(every_role()[i])) {
                    wd@[role_name(every_role()[i])]
                } else {
                    fresh_watchdog()
                }),
                now,
            ),
{
    let roles = WorkerRole::all();
    let mut v: Vec<RoleHealth> = Vec::new();
    let mut i: usize = 0;
    while i < roles.len()
        invariant
            roles@ == every_role(),
            i <= 4,
            v@.len() == i,
            forall|j: int|
                0 <= j < i ==> reports(
                    #[trigger] v@[j],
                    role_name(every_role()[j]),
                    (if wd@.dom().contains(role_name(every_role()[j])) {
                        wd@[role_name(every_role()[j])]
                    } else {
                        fresh_watchdog()
                    }),
                    now,
                ),
        decreases 4 - i,
    {
        let name = roles[i].name();
        let h = match wd.roles.get(name) {
            Some(w) => w.snapshot(name, now),
            None => WatchdogState::new().snapshot(name, now),
        };
        v.push(h);
        i = i + 1;
    }
    v
}

/// How a role looks at `now`; one that is not known looks healthy.
pub fn watchdog_health_state(wd: &Watchdogs, role: &str, now: u64) -> (h: HealthState)
    ensures
        h == health_at(watchdog_of(wd@, role@), now),
{
    match wd.roles.get(role) {
        Some(w) => w.health_state(now),
        None => HealthState::Healthy,
    }
}

impl Watchdogs {
    /// What is remembered of a role.
    pub fn state_of(&self, role: &str) -> (w: WatchdogState)
        ensures
            w == watchdog_of(self@, role@),
    {
        match self.roles.get(role) {
            Some(w) => *w,
            None => WatchdogState::default(),
        }
    }
}

// Laws
/// The record after `n` fast exits in a row.
pub open spec fn crashed(w: WatchdogState, n: nat) -> WatchdogState
    decreases n,
{
    if n == 0 {
        w
    } else {
        recorded_exit(crashed(w, (n - 1) as nat), None, 0)
    }
}

/// The wait after `n` fast exits in a row: it doubles with each, and is the longest once the role
/// has failed.
pub open spec fn wait_after(n: nat) -> nat
    decreases n,
{
    if n == 0 {
        WATCHDOG_INITIAL_BACKOFF as nat
    } else if n >= WATCHDOG_FAIL_THRESHOLD {
        WATCHDOG_MAX_BACKOFF as nat
    } else {
        doubled(wait_after((n - 1) as nat))
    }
}

/// A role that keeps crashing goes from backoff to flapping to failed, its wait doubles each time
/// until it has failed and waits the longest, and its restarts are not counted by its crashes.
pub proof fn crash_loop_escalates(n: nat, now: u64)
    requires
        n <= u32::MAX,
    ensures
        crashed(fresh_watchdog(), n).consecutive_fast_exits == n,
        crashed(fresh_watchdog(), n).next_backoff.nanos == wait_after(n),
        n >= WATCHDOG_FAIL_THRESHOLD ==> crashed(fresh_watchdog(), n).next_backoff.nanos
            == WATCHDOG_MAX_BACKOFF,
        crashed(fresh_watchdog(), n).well_formed(),
        crashed(fresh_watchdog(), n).total_restarts == 0,
        health_at(crashed(fresh_watchdog(), n), now) == (if n == 0 {
            HealthState::Healthy
        } else if n < WATCHDOG_FLAP_THRESHOLD {
            HealthState::Backoff
        } else if n < WATCHDOG_FAIL_THRESHOLD {
            HealthState::Flapping
        } else {
            HealthState::Failed
        }),
    decreases n,
{
    if n > 0 {
        crash_loop_escalates((n - 1) as nat, now);
    }
    assert(crashed(fresh_watchdog(), n).last_spawned_at is None) by {
        lemma_crashed_never_spawned(n);
    }
}

proof fn lemma_crashed_never_spawned(n: nat)
    ensures
        crashed(fresh_watchdog(), n).last_spawned_at is None,
    decreases n,
{
    if n > 0 {
        lemma_crashed_never_spawned((n - 1) as nat);
    }
}

/// An exit that leaves a role failed, whatever came before, makes it wait the longest: from the
/// number of fast exits on at which a role has failed, every wait is the longest.
pub proof fn failed_role_waits_the_longest(
    w: WatchdogState,
    code: Option<i32>,
    uptime: nat,
    now: u64,
)
    ensures
        recorded_exit(w, code, uptime).consecutive_fast_exits >= WATCHDOG_FAIL_THRESHOLD <==>
            health_at(recorded_exit(w, code, uptime), now) == HealthState::Failed,
        health_at(recorded_exit(w, code, uptime), now) == HealthState::Failed ==> recorded_exit(
            w,
            code,
            uptime,
        ).next_backoff.nanos == WATCHDOG_MAX_BACKOFF,
{
}

/// A planned handover never counts against a role, whatever came before: it looks healthy, and
/// the next start waits no longer than the first one does.
pub proof fn handover_clears_the_record(w: WatchdogState, uptime: nat, now: u64)
    ensures
        health_at(recorded_exit(w, Some(UPGRADE_COMMIT_EXIT_CODE), uptime), now)
            == HealthState::Healthy,
        recorded_exit(w, Some(UPGRADE_COMMIT_EXIT_CODE), uptime).next_backoff.nanos
            == WATCHDOG_INITIAL_BACKOFF,
{
}

/// A role that was last started at `t`: as long as it has not been up for five seconds since, it
/// shows its fast exits, as backoff or, from the fourth in a row on, as flapping; from then on it
/// is healthy. One that never exited fast is healthy at any time, and from the fifth fast exit in
/// a row on a role has failed however long it is up.
pub proof fn health_follows_exits_and_uptime(w: WatchdogState, t: u64, now: u64)
    requires
        w.last_spawned_at == Some(t),
        t <= now,
    ensures
        health_at(w, now) == (if w.consecutive_fast_exits >= 5 {
            HealthState::Failed
        } else if w.consecutive_fast_exits == 0 || now - t >= 5_000_000_000 {
            HealthState::Healthy
        } else if w.consecutive_fast_exits == 4 {
            HealthState::Flapping
        } else {
            HealthState::Backoff
        }),
{
}

/// A role whose worker is not up, or was never seen to start, shows its fast exits.
pub proof fn health_without_a_worker(w: WatchdogState, now: u64)
    requires
        w.last_spawned_at is None,
    ensures
        health_at(w, now) is Failed <==> w.consecutive_fast_exits >= 5,
        health_at(w, now) is Flapping <==> w.consecutive_fast_exits == 4,
        health_at(w, now) is Backoff <==> 1 <= w.consecutive_fast_exits <= 3,
        health_at(w, now) is Healthy <==> w.consecutive_fast_exits == 0,
{
}

/// How long a worker has been up is the time since its start; a clock that shows an earlier time
/// makes it no time at all.
pub proof fn uptime_counts_from_the_start(w: WatchdogState, t: u64, now: u64)
    requires
        w.last_spawned_at == Some(t),
    ensures
        t <= now ==> uptime_at(w, now) == now - t,
        now < t ==> uptime_at(w, now) == 0,
{
}

/// One exit: a planned handover, and an exit after at least five seconds, clear the record; any
/// other exit adds one to the row and doubles the wait, to thirty seconds at most and to thirty
/// seconds at once where the role has then failed. Starts and their times are not touched.
pub proof fn one_exit_changes_the_record(w: WatchdogState, code: Option<i32>, uptime: nat)
    requires
        w.well_formed(),
        w.consecutive_fast_exits < u32::MAX,
    ensures
        ({
            let after = recorded_exit(w, code, uptime);
            let n = w.consecutive_fast_exits + 1;
            &&& after.last_spawned_at == w.last_spawned_at
            &&& after.total_restarts == w.total_restarts
            &&& after.last_restart_at_unix_ms == w.last_restart_at_unix_ms
            &&& code == Some(23i32) || uptime >= 5_000_000_000 ==> after.consecutive_fast_exits == 0
                && after.next_backoff.nanos == 200_000_000
            &&& code != Some(23i32) && uptime < 5_000_000_000 ==> after.consecutive_fast_exits == n
                && (n >= 5 ==> after.next_backoff.nanos == 30_000_000_000) && (n < 5
                && w.next_backoff.nanos <= 15_000_000_000 ==> after.next_backoff.nanos == 2
                * w.next_backoff.nanos) && (n < 5 && w.next_backoff.nanos > 15_000_000_000
                ==> after.next_backoff.nanos == 30_000_000_000)
        }),
{
}

/// A fresh role waits 0.4, 0.8, 1.6 and 3.2 seconds after its first four fast exits, and thirty
/// seconds after every further one.
pub proof fn waits_of_a_crash_loop(n: nat)
    requires
        n >= 5,
    ensures
        wait_after(0) == 200_000_000,
        wait_after(1) == 400_000_000,
        wait_after(2) == 800_000_000,
        wait_after(3) == 1_600_000_000,
        wait_after(4) == 3_200_000_000,
        wait_after(n) == 30_000_000_000,
{
    reveal_with_fuel(wait_after, 6);
}

/// A fast exit is worth a line, and an exit that clears the record is not; the line says how many
/// there were, and whether the role has failed.
pub proof fn fast_exits_are_noted(w: WatchdogState, code: Option<i32>, uptime: nat, now: u64)
    requires
        w.consecutive_fast_exits < u32::MAX,
    ensures
        ({
            let after = recorded_exit(w, code, uptime);
            let note = fast_exit_note(after, now);
            &&& note is Some <==> code != Some(23i32) && uptime < 5_000_000_000
            &&& note is Some ==> note->0.consecutive_fast_exits == w.consecutive_fast_exits + 1
                && (note->0.failed <==> w.consecutive_fast_exits >= 4) && note->0.state
                == health_at(after, now)
        }),
{
}

/// A role that is known shows its own record, and one that is not looks as if nothing had been.
pub proof fn unknown_role_looks_healthy(
    m: Map<Seq<char>, WatchdogState>,
    role: Seq<char>,
    now: u64,
)
    ensures
        m.dom().contains(role) ==> watchdog_of(m, role) == m[role],
        !m.dom().contains(role) ==> health_at(watchdog_of(m, role), now) == HealthState::Healthy
            && watchdog_of(m, role).next_backoff.nanos == 0 && watchdog_of(m, role).total_restarts
            == 0,
{
}

/// A report holds the figures of the role that it names, with the wait in whole milliseconds.
pub proof fn report_holds_the_figures(h: RoleHealth, role: Seq<char>, w: WatchdogState, now: u64)
    requires
        reports(h, role, w, now),
    ensures
        h.role@ == role,
        h.consecutive_fast_exits == w.consecutive_fast_exits,
        h.total_restarts == w.total_restarts,
        h.last_restart_at_unix_ms == w.last_restart_at_unix_ms,
        w.next_backoff.nanos <= WATCHDOG_MAX_BACKOFF ==> h.next_backoff_ms * 1_000_000
            <= w.next_backoff.nanos < (h.next_backoff_ms + 1) * 1_000_000,
        h.state == HealthState::Failed <==> w.consecutive_fast_exits >= 5,
{
}

/// At first there is a watchdog for each of the four roles, and for nothing else; none has seen a
/// start, and so none has an uptime.
pub proof fn every_role_has_a_watchdog(name: Seq<char>, now: u64)
    ensures
        seeded(4).dom().contains(name) <==> name == "processor"@ || name == "plain"@ || name
            == "tls"@ || name == "scanner"@,
        seeded(4).dom().contains(name) ==> seeded(4)[name] == fresh_watchdog(),
        fresh_watchdog().last_spawned_at is None,
        fresh_watchdog().total_restarts == 0,
        fresh_watchdog().consecutive_fast_exits == 0,
        uptime_at(fresh_watchdog(), now) == 0,
{
    reveal_with_fuel(seeded, 5);
    assert(every_role()[0] is Processor && every_role()[1] is Plain && every_role()[2] is Tls
        && every_role()[3] is Scanner);
}

} // verus!

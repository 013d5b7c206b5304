//! Keeping one worker role running: adoption, restart, and standing aside for the successor of a
//! worker that upgraded itself.

use vstd::prelude::*;

use crate::limits::since;
use crate::time::Span;
use crate::watchdog::{
    all_well_formed, fast_exit_note, is_commit, recorded_exit, uptime_at, watchdog_of,
    watchdog_record, watchdog_record_exit, FastExit, WatchdogEvent, WatchdogState, Watchdogs,
};

verus! {

/// How long a successor may take to report in after a handover, in nanoseconds: 5 s.
pub const SUCCESSOR_WAIT_TIMEOUT: u64 = 5_000_000_000;

/// How long an adopted worker's connection may be gone before the worker counts as lost, in
/// nanoseconds: 3 s.
pub const SUCCESSOR_LOSS_GRACE: u64 = 3_000_000_000;

/// Milliseconds between two looks for a successor.
pub const SUCCESSOR_POLL_MS: u64 = 50;

/// Milliseconds between two looks at an adopted successor.
pub const MONITOR_POLL_MS: u64 = 100;

/// Milliseconds between two looks at an adopted process.
pub const ADOPTED_POLL_MS: u64 = 250;

/// Milliseconds until a start that failed is tried again.
pub const SPAWN_RETRY_MS: u64 = 500;

/// `nix::sys::signal::kill` with no signal: whether the probe says that there is no process with
/// this id. What the machine answers is left unsaid.
#[verifier::external_body]
fn process_is_gone(pid: i32) -> (gone: bool) {
    matches!(
        nix::sys::signal::kill(nix::unistd::Pid::from_raw(pid), None),
        Err(nix::errno::Errno::ESRCH)
    )
}

/// Whether a process counts as alive after a probe that found it gone, or did not.
pub fn alive_after_probe(pid: u32, gone: bool) -> (alive: bool)
    ensures
        alive == (pid <= i32::MAX && !gone),
{
    pid <= i32::MAX as u32 && !gone
}

/// Whether a process with this id exists. A number that no process can have is not alive; one
/// that exists and belongs to someone else is.
pub fn is_process_alive(pid: u32) -> (alive: bool)
    ensures
        alive ==> pid <= i32::MAX,
{
    if pid > i32::MAX as u32 {
        return false;
    }
    alive_after_probe(pid, process_is_gone(pid as i32))
}

/// What a look at an adopted process shows.
#[derive(Clone, Copy, Debug, PartialEq, Eq, Structural)]
pub enum WaitPoll {
    StillAlive,
    Terminated,
    /// Not a child of ours, or no longer: all there is to see is whether it exists.
    NotOurs { gone: bool },
    Failed { errno: i32 },
}

/// The wait status that a look amounts to, where the process is gone.
pub open spec fn adopted_wait_status(poll: WaitPoll) -> Option<i32> {
    match poll {
        WaitPoll::StillAlive => None,
        WaitPoll::Terminated => Some(0),
        WaitPoll::NotOurs { gone } => if gone {
            Some(0)
        } else {
            None
        },
        WaitPoll::Failed { errno } => Some(errno),
    }
}

/// Decides after a look at an adopted process whether it has ended, and with what raw status.
pub fn wait_adopted(poll: WaitPoll) -> (status: Option<i32>)
    ensures
        status == adopted_wait_status(poll),
{
    match poll {
        WaitPoll::StillAlive => None,
        WaitPoll::Terminated => Some(0),
        WaitPoll::NotOurs { gone } => if gone {
            Some(0)
        } else {
            None
        },
        WaitPoll::Failed { errno } => Some(errno),
    }
}

/// How the wait for a successor ended.
#[derive(Clone, Copy, Debug, PartialEq, Eq, Structural)]
pub enum SuccessorOutcome {
    /// A worker of this generation reported in.
    Adopted(u64),
    /// None did.
    Timeout,
}

/// What a look for a successor of generation `old_gen` decides: only a newer generation is one.
pub open spec fn successor_verdict(
    last_generation: Option<u64>,
    old_gen: u64,
    now: u64,
    deadline: u64,
) -> Option<SuccessorOutcome> {
    match last_generation {
        Some(seen) if seen > old_gen => Some(SuccessorOutcome::Adopted(seen)),
        _ => if now >= deadline {
            Some(SuccessorOutcome::Timeout)
        } else {
            None
        },
    }
}

/// One look for a successor. Nothing decided means: look again a little later.
pub fn wait_for_successor(
    last_generation: Option<u64>,
    old_gen: u64,
    now: u64,
    deadline: u64,
) -> (r: Option<SuccessorOutcome>)
    ensures
        r == successor_verdict(last_generation, old_gen, now, deadline),
{
    if let Some(seen) = last_generation {
        if seen > old_gen {
            return Some(SuccessorOutcome::Adopted(seen));
        }
    }
    if now >= deadline {
        Some(SuccessorOutcome::Timeout)
    } else {
        None
    }
}

/// How the watch over an adopted worker ended.
#[derive(Clone, Copy, Debug, PartialEq, Eq, Structural)]
pub enum MonitorOutcome {
    /// It upgraded itself; its successor has this generation.
    Readopted(u64),
    /// Its connection was gone for too long.
    Lost,
}

/// What the control link shows at one moment.
#[derive(Clone, Copy, Debug, PartialEq, Eq, Structural)]
pub struct LinkLook {
    pub now: u64,
    pub connected: bool,
    pub last_pid: Option<u32>,
    pub last_generation: Option<u64>,
}

/// The watch over an adopted worker of one generation.
#[derive(Clone, Copy, Debug, PartialEq, Eq, Structural)]
pub struct SuccessorMonitor {
    pub generation: u64,
    /// Since when the connection has been seen gone, without a break.
    pub absent_since: Option<u64>,
}

/// Since when the connection has been gone, after one more look.
pub open spec fn absence_after(absent_since: Option<u64>, look: LinkLook) -> Option<u64> {
    if look.connected {
        None
    } else {
        match absent_since {
            Some(t) => Some(t),
            None => Some(look.now),
        }
    }
}

/// What a look at an adopted worker decides.
pub open spec fn monitor_verdict(
    m: SuccessorMonitor,
    look: LinkLook,
    loss_grace: u64,
) -> Option<MonitorOutcome> {
    match look.last_generation {
        Some(g) if g > m.generation => Some(MonitorOutcome::Readopted(g)),
        _ => match m.absent_since {
            Some(t) if !look.connected && since(look.now, t) >= loss_grace => Some(
                MonitorOutcome::Lost,
            ),
            _ => None,
        },
    }
}

impl SuccessorMonitor {
    pub fn new(generation: u64) -> (m: Self)
        ensures
            m == (SuccessorMonitor { generation, absent_since: None }),
    {
        SuccessorMonitor { generation, absent_since: None }
    }

    /// One look at an adopted worker. While it is connected, `current_pid` follows what it
    /// reports. Nothing decided means: look again a little later.
    pub fn observe(
        &mut self,
        look: LinkLook,
        loss_grace: u64,
        current_pid: &mut Option<u32>,
    ) -> (r: Option<MonitorOutcome>)
        ensures
            r == monitor_verdict(*old(self), look, loss_grace),
            final(self).generation == old(self).generation,
            r is Some ==> *final(self) == *old(self) && *final(current_pid) == *old(current_pid),
            r is None ==> final(self).absent_since == absence_after(old(self).absent_since, look),
            r is None ==> *final(current_pid) == (if look.connected && look.last_pid is Some {
                look.last_pid
            } else {
                *old(current_pid)
            }),
    {
        if let Some(g) = look.last_generation {
            if g > self.generation {
                return Some(MonitorOutcome::Readopted(g));
            }
        }
        if look.connected {
            self.absent_since = None;
            if look.last_pid.is_some() {
                *current_pid = look.last_pid;
            }
        } else {
            match self.absent_since {
                None => {
                    self.absent_since = Some(look.now);
                },
                Some(t) => {
                    if look.now.saturating_sub(t) >= loss_grace {
                        return Some(MonitorOutcome::Lost);
                    }
                },
            }
        }
        None
    }
}

/// The exit of a worker, as far as it could be learned.
#[derive(Clone, Copy, Debug, PartialEq, Eq, Structural)]
pub enum ExitSeen {
    Code(i32),
    Signal,
    /// Waiting for it failed: it counts as an ordinary exit.
    Unknown,
}

/// The exit code that the watchdog is told.
pub open spec fn exit_code_of(seen: ExitSeen) -> Option<i32> {
    match seen {
        ExitSeen::Code(c) => Some(c),
        ExitSeen::Signal => None,
        ExitSeen::Unknown => Some(0),
    }
}

/// What to do next for the role.
#[derive(Clone, Copy, Debug, PartialEq, Eq, Structural)]
pub enum RoleStep {
    /// The daemon shuts down.
    Stop,
    /// Wait for this process, which was running before us.
    Adopt(u32),
    /// Start a worker.
    Spawn,
    /// Look for a successor newer than this generation.
    AwaitSuccessor(u64),
    /// Watch the successor of this generation.
    Supervise(u64),
    /// Wait, then go on with the next start.
    Pause(Span),
    /// Go on with the next start at once.
    Again,
}

/// One role as the supervisor sees it.
#[derive(Clone, Copy, Debug, PartialEq, Eq, Structural)]
pub struct RoleRun {
    /// Generation of the worker that runs as our child: zero for one that we started.
    pub generation: u64,
    pub current_pid: Option<u32>,
    /// Generation that a successor has to exceed.
    pub baseline: u64,
    /// Wait that the latest exit calls for.
    pub backoff: Span,
    /// Worker to take over in place of the first start.
    pub adopted: Option<u32>,
}

/// The watchdogs after a takeover.
pub open spec fn with_adoption(
    m: Map<Seq<char>, WatchdogState>,
    role: Seq<char>,
    now: u64,
) -> Map<Seq<char>, WatchdogState> {
    m.insert(role, WatchdogState { last_spawned_at: Some(now), ..watchdog_of(m, role) })
}

/// The watchdogs after a start.
pub open spec fn with_spawn(
    m: Map<Seq<char>, WatchdogState>,
    role: Seq<char>,
    now: u64,
    unix_ms: u64,
) -> Map<Seq<char>, WatchdogState> {
    m.insert(
        role,
        WatchdogState {
            last_spawned_at: Some(now),
            total_restarts: (watchdog_of(m, role).total_restarts + 1) as u64,
            last_restart_at_unix_ms: Some(unix_ms),
            ..watchdog_of(m, role)
        },
    )
}

/// The record of a role after an exit at `now`.
pub open spec fn record_after_exit(
    m: Map<Seq<char>, WatchdogState>,
    role: Seq<char>,
    seen: ExitSeen,
    now: u64,
) -> WatchdogState {
    recorded_exit(watchdog_of(m, role), exit_code_of(seen), uptime_at(watchdog_of(m, role), now))
}

/// There is a worker to take over: it was handed to us, and it is still there.
pub open spec fn takes_over(adopted_pid: Option<u32>, alive: bool) -> bool {
    adopted_pid is Some && alive && adopted_pid->0 <= i32::MAX
}

impl RoleRun {
    /// Begins with the worker that was handed over, if it is still alive.
    pub fn begin(
        adopted_pid: Option<u32>,
        adopted_gen: u64,
        alive: bool,
        wd: &mut Watchdogs,
        role: &str,
        now: u64,
    ) -> (r: Self)
        requires
            all_well_formed(old(wd)@),
        ensures
            all_well_formed(final(wd)@),
            r == (RoleRun {
                generation: adopted_gen,
                current_pid: None,
                baseline: adopted_gen,
                backoff: Span { nanos: 0 },
                adopted: (if takes_over(adopted_pid, alive) {
                    adopted_pid
                } else {
                    None
                }),
            }),
            final(wd)@ == (if takes_over(adopted_pid, alive) {
                with_adoption(old(wd)@, role@, now)
            } else {
                old(wd)@
            }),
    {
        let mut adopted: Option<u32> = None;
        if let Some(pid) = adopted_pid {
            if alive && pid <= i32::MAX as u32 {
                watchdog_record(wd, role, WatchdogEvent::Adoption, now, 0);
                adopted = Some(pid);
            }
        }
        RoleRun {
            generation: adopted_gen,
            current_pid: None,
            baseline: adopted_gen,
            backoff: Span { nanos: 0 },
            adopted,
        }
    }

    /// Decides on the next start. A worker that we start ourselves has generation zero.
    pub fn next_start(
        &mut self,
        shutdown: bool,
        wd: &mut Watchdogs,
        role: &str,
        now: u64,
        unix_ms: u64,
    ) -> (step: RoleStep)
        requires
            all_well_formed(old(wd)@),
            watchdog_of(old(wd)@, role@).total_restarts < u64::MAX,
        ensures
            all_well_formed(final(wd)@),
            shutdown ==> step == RoleStep::Stop && *final(self) == *old(self) && final(wd)@ == old(
                wd,
            )@,
            !shutdown && old(self).adopted is Some ==> step == RoleStep::Adopt(
                old(self).adopted->0,
            ) && *final(self) == (RoleRun { adopted: None, ..*old(self) }) && final(wd)@ == old(
                wd,
            )@,
            !shutdown && old(self).adopted is None ==> step == RoleStep::Spawn && *final(self) == (
            RoleRun { generation: 0, ..*old(self) }) && final(wd)@ == with_spawn(
                old(wd)@,
                role@,
                now,
                unix_ms,
            ),
    {
        if shutdown {
            return RoleStep::Stop;
        }
        if let Some(pid) = self.adopted {
            self.adopted = None;
            return RoleStep::Adopt(pid);
        }
        self.generation = 0;
        watchdog_record(wd, role, WatchdogEvent::Spawn, now, unix_ms);
        RoleStep::Spawn
    }

    /// The worker runs. A successor has to be newer than what the link last heard, or than the
    /// worker itself where the link has heard nothing yet.
    pub fn started(&mut self, pid: Option<u32>, last_generation: Option<u64>)
        ensures
            *final(self) == (RoleRun {
                current_pid: (if pid is Some {
                    pid
                } else {
                    old(self).current_pid
                }),
                baseline: (match last_generation {
                    Some(g) => g,
                    None => old(self).generation,
                }),
                ..*old(self)
            }),
    {
        if pid.is_some() {
            self.current_pid = pid;
        }
        self.baseline = match last_generation {
            Some(g) => g,
            None => self.generation,
        };
    }

    /// The worker exited at `now`. After a planned handover the successor is given time to report
    /// in before anything is started; otherwise the next start waits, the longest where the role
    /// has failed.
    pub fn exited(
        &mut self,
        seen: ExitSeen,
        shutdown: bool,
        wd: &mut Watchdogs,
        role: &str,
        now: u64,
    ) -> (r: (RoleStep, Option<FastExit>))
        requires
            all_well_formed(old(wd)@),
            watchdog_of(old(wd)@, role@).consecutive_fast_exits < u32::MAX,
        ensures
            all_well_formed(final(wd)@),
            ({
                let after = record_after_exit(old(wd)@, role@, seen, now);
                &&& final(wd)@ == old(wd)@.insert(role@, after)
                &&& *final(self) == (RoleRun {
                    current_pid: None,
                    backoff: after.next_backoff,
                    ..*old(self)
                })
                &&& r.0 == (if shutdown {
                    RoleStep::Stop
                } else if is_commit(exit_code_of(seen)) {
                    RoleStep::AwaitSuccessor(old(self).baseline)
                } else {
                    RoleStep::Pause(after.next_backoff)
                })
                &&& r.0 == step_after_exit(*old(self), seen, shutdown, after)
                &&& r.1 == fast_exit_note(after, now)
            }),
    {
        let code = match seen {
            ExitSeen::Code(c) => Some(c),
            ExitSeen::Signal => None,
            ExitSeen::Unknown => Some(0),
        };
        self.current_pid = None;
        let (backoff, note) = watchdog_record_exit(wd, role, code, now);
        self.backoff = backoff;
        if shutdown {
            return (RoleStep::Stop, note);
        }
        let commit = match code {
            Some(c) => c == crate::handoff::UPGRADE_COMMIT_EXIT_CODE,
            None => false,
        };
        if commit {
            (RoleStep::AwaitSuccessor(self.baseline), note)
        } else {
            (RoleStep::Pause(backoff), note)
        }
    }

    /// The wait for a successor ended at `now`.
    pub fn successor_awaited(
        &mut self,
        outcome: SuccessorOutcome,
        last_pid: Option<u32>,
        wd: &mut Watchdogs,
        role: &str,
        now: u64,
    ) -> (step: RoleStep)
        requires
            all_well_formed(old(wd)@),
        ensures
            all_well_formed(final(wd)@),
            match outcome {
                SuccessorOutcome::Adopted(g) => {
                    &&& step == RoleStep::Supervise(g)
                    &&& *final(self) == (RoleRun { current_pid: last_pid, ..*old(self) })
                    &&& final(wd)@ == with_adoption(old(wd)@, role@, now)
                },
                SuccessorOutcome::Timeout => {
                    &&& step == RoleStep::Pause(old(self).backoff)
                    &&& *final(self) == *old(self)
                    &&& final(wd)@ == old(wd)@
                },
            },
    {
        match outcome {
            SuccessorOutcome::Adopted(g) => {
                watchdog_record(wd, role, WatchdogEvent::Adoption, now, 0);
                self.current_pid = last_pid;
                RoleStep::Supervise(g)
            },
            SuccessorOutcome::Timeout => RoleStep::Pause(self.backoff),
        }
    }

    /// The watch over a successor ended at `now`. One that upgraded itself is followed by its own
    /// successor; one that was lost is replaced without a wait.
    pub fn successor_monitored(
        &mut self,
        outcome: MonitorOutcome,
        last_pid: Option<u32>,
        wd: &mut Watchdogs,
        role: &str,
        now: u64,
    ) -> (step: RoleStep)
        requires
            all_well_formed(old(wd)@),
        ensures
            all_well_formed(final(wd)@),
            match outcome {
                MonitorOutcome::Readopted(g) => {
                    &&& step == RoleStep::Supervise(g)
                    &&& *final(self) == (RoleRun { current_pid: last_pid, ..*old(self) })
                    &&& final(wd)@ == with_adoption(old(wd)@, role@, now)
                },
                MonitorOutcome::Lost => {
                    &&& step == RoleStep::Again
                    &&& *final(self) == (RoleRun { current_pid: None, ..*old(self) })
                    &&& final(wd)@ == old(wd)@
                },
            },
    {
        match outcome {
            MonitorOutcome::Readopted(g) => {
                watchdog_record(wd, role, WatchdogEvent::Adoption, now, 0);
                self.current_pid = last_pid;
                RoleStep::Supervise(g)
            },
            MonitorOutcome::Lost => {
                self.current_pid = None;
                RoleStep::Again
            },
        }
    }
}

/// A worker that takes connections from outside.
#[derive(Clone, Copy, Debug, PartialEq, Eq, Structural)]
pub enum AcceptorRole {
    Plain,
    Tls,
}

impl AcceptorRole {
    /// The subcommand that runs it.
    pub fn arg(self) -> (s: &'static str)
        ensures
            s@ == (match self {
                AcceptorRole::Plain => "plain"@,
                AcceptorRole::Tls => "tls"@,
            }),
    {
        match self {
            AcceptorRole::Plain => "plain",
            AcceptorRole::Tls => "tls",
        }
    }
}

// Laws
/// Since when the connection has been gone after a series of looks.
pub open spec fn absence(looks: Seq<LinkLook>) -> Option<u64>
    decreases looks.len(),
{
    if looks.len() == 0 {
        None
    } else {
        absence_after(absence(looks.drop_last()), looks.last())
    }
}

/// What an outgoing worker left on the link never passes for its successor: only a generation
/// above the baseline is adopted, and only such a one is adopted again.
pub proof fn stale_generation_is_never_adopted(
    last_generation: Option<u64>,
    baseline: u64,
    now: u64,
    deadline: u64,
    m: SuccessorMonitor,
    look: LinkLook,
    grace: u64,
)
    ensures
        successor_verdict(last_generation, baseline, now, deadline) matches Some(
            SuccessorOutcome::Adopted(g),
        ) ==> g > baseline,
        monitor_verdict(m, look, grace) matches Some(MonitorOutcome::Readopted(g)) ==> g
            > m.generation,
{
}

/// The looks that began an absence, and every one after it, found no connection.
pub proof fn absence_is_unbroken(looks: Seq<LinkLook>) -> (first: int)
    requires
        absence(looks) is Some,
    ensures
        0 <= first < looks.len(),
        looks[first].now == absence(looks)->0,
        forall|j: int| first <= j < looks.len() ==> !(#[trigger] looks[j]).connected,
    decreases looks.len(),
{
    let d = looks.drop_last();
    if absence(d) is Some {
        let first = absence_is_unbroken(d);
        assert(looks[first] == d[first]);
        assert forall|j: int| first <= j < looks.len() implies !(
        #[trigger] looks[j]).connected by {
            if j < d.len() {
                assert(looks[j] == d[j]);
            }
        }
        first
    } else {
        looks.len() - 1
    }
}

/// A worker counts as lost only after every look over a full grace period found its connection
/// gone: a short break does not count, however often it comes.
pub proof fn loss_takes_a_full_grace(
    looks: Seq<LinkLook>,
    generation: u64,
    look: LinkLook,
    grace: u64,
) -> (first: int)
    requires
        monitor_verdict(
            SuccessorMonitor { generation, absent_since: absence(looks) },
            look,
            grace,
        ) == Some(MonitorOutcome::Lost),
    ensures
        0 <= first < looks.len(),
        since(look.now, looks[first].now) >= grace,
        !look.connected,
        forall|j: int| first <= j < looks.len() ==> !(#[trigger] looks[j]).connected,
{
    absence_is_unbroken(looks)
}

/// A worker that reports a newer generation is always taken for the successor, at whatever time;
/// without one the wait goes on until its end and is over then.
pub proof fn newer_generation_is_always_adopted(
    last_generation: Option<u64>,
    baseline: u64,
    now: u64,
    deadline: u64,
)
    ensures
        ({
            let newer = last_generation is Some && last_generation->0 > baseline;
            let verdict = successor_verdict(last_generation, baseline, now, deadline);
            &&& newer ==> verdict == Some(SuccessorOutcome::Adopted(last_generation->0))
            &&& !newer && now < deadline ==> verdict is None
            &&& !newer && now >= deadline ==> verdict == Some(SuccessorOutcome::Timeout)
        }),
{
}

/// A watched worker that reports a newer generation has upgraded itself; one whose connection has
/// been gone for the whole grace is lost; any other is watched on. A connection that is back ends
/// the absence, and an absence counts from the first look that found it gone.
pub proof fn watched_worker_is_judged(m: SuccessorMonitor, look: LinkLook, grace: u64)
    ensures
        ({
            let newer = look.last_generation is Some && look.last_generation->0 > m.generation;
            let verdict = monitor_verdict(m, look, grace);
            &&& newer ==> verdict == Some(MonitorOutcome::Readopted(look.last_generation->0))
            &&& !newer && look.connected ==> verdict is None
            &&& !newer && m.absent_since is None ==> verdict is None
            &&& !newer && !look.connected && m.absent_since is Some && m.absent_since->0 + grace
                <= look.now ==> verdict == Some(MonitorOutcome::Lost)
            &&& !newer && !look.connected && m.absent_since is Some && look.now
                < m.absent_since->0 + grace && grace > 0 ==> verdict is None
        }),
        look.connected ==> absence_after(m.absent_since, look) is None,
        !look.connected && m.absent_since is None ==> absence_after(m.absent_since, look) == Some(
            look.now,
        ),
        !look.connected && m.absent_since is Some ==> absence_after(m.absent_since, look)
            == m.absent_since,
{
}

/// An exit with a code is what it is; a signal is no code, and an exit that could not be learned
/// counts as an ordinary one. Only the code of a handover is one.
pub proof fn exits_are_told_apart(c: i32)
    ensures
        exit_code_of(ExitSeen::Code(c)) == Some(c),
        exit_code_of(ExitSeen::Signal) is None,
        exit_code_of(ExitSeen::Unknown) == Some(0i32),
        is_commit(exit_code_of(ExitSeen::Code(c))) <==> c == 23,
        !is_commit(exit_code_of(ExitSeen::Signal)),
        !is_commit(exit_code_of(ExitSeen::Unknown)),
{
}

/// A process that was handed over is taken over exactly where it is still there and can be one.
pub proof fn living_worker_is_taken_over(pid: u32, alive: bool)
    ensures
        takes_over(Some(pid), alive) <==> alive && pid <= 0x7fff_ffff,
        !takes_over(None, alive),
{
}

/// A process that is looked at is over when it terminated, when it is not ours and gone, or when
/// looking failed; until then nothing is said.
pub proof fn adopted_process_is_waited_for(gone: bool, errno: i32)
    ensures
        adopted_wait_status(WaitPoll::StillAlive) is None,
        adopted_wait_status(WaitPoll::Terminated) == Some(0i32),
        adopted_wait_status(WaitPoll::NotOurs { gone }) == (if gone {
            Some(0i32)
        } else {
            None
        }),
        adopted_wait_status(WaitPoll::Failed { errno }) == Some(errno),
{
}

/// A role that keeps crashing within five seconds of each start is started again each time, after
/// the wait that its row of exits calls for; the watchdog counts every start and every exit.
pub proof fn crashed_worker_is_started_again(
    m: Map<Seq<char>, WatchdogState>,
    role: Seq<char>,
    seen: ExitSeen,
    start: u64,
    unix_ms: u64,
    now: u64,
)
    requires
        watchdog_of(m, role).total_restarts < u64::MAX,
        watchdog_of(m, role).consecutive_fast_exits < u32::MAX,
        start <= now < start + 5_000_000_000,
        seen != ExitSeen::Code(23),
    ensures
        ({
            let started = with_spawn(m, role, start, unix_ms);
            let after = record_after_exit(started, role, seen, now);
            &&& after.consecutive_fast_exits == watchdog_of(m, role).consecutive_fast_exits + 1
            &&& after.total_restarts == watchdog_of(m, role).total_restarts + 1
            &&& after.last_restart_at_unix_ms == Some(unix_ms)
            &&& after.next_backoff.nanos >= watchdog_of(m, role).next_backoff.nanos
                || after.next_backoff.nanos == 30_000_000_000
            &&& forall|other: Seq<char>|
                other != role ==> #[trigger] watchdog_of(started, other) == watchdog_of(m, other)
        }),
{
}

/// What a role does after its worker exited: `after` is its record then.
pub open spec fn step_after_exit(
    run: RoleRun,
    seen: ExitSeen,
    shutdown: bool,
    after: WatchdogState,
) -> RoleStep {
    if shutdown {
        RoleStep::Stop
    } else if is_commit(exit_code_of(seen)) {
        RoleStep::AwaitSuccessor(run.baseline)
    } else {
        RoleStep::Pause(after.next_backoff)
    }
}

/// A worker that handed over is followed by its successor, which has to be newer than what was
/// last heard. One that ended in any other way is started again after its wait, unless everything
/// is being shut down.
pub proof fn only_a_handover_awaits_a_successor(
    run: RoleRun,
    code: i32,
    seen: ExitSeen,
    after: WatchdogState,
)
    ensures
        step_after_exit(run, ExitSeen::Code(23), false, after) == RoleStep::AwaitSuccessor(
            run.baseline,
        ),
        code != 23 ==> step_after_exit(run, ExitSeen::Code(code), false, after) == RoleStep::Pause(
            after.next_backoff,
        ),
        step_after_exit(run, ExitSeen::Signal, false, after) == RoleStep::Pause(
            after.next_backoff,
        ),
        step_after_exit(run, seen, true, after) == RoleStep::Stop,
{
}

} // verus!

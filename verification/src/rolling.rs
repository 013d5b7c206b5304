//! Rolling upgrades and the other requests of the admin socket.

use vstd::prelude::*;

use crate::auth::{admitted, PeerAllowlist};
use crate::control::{AdminResp, ControlMsg, HealthState, RoleHealth, UpgradePhase, WorkerStatus};
use crate::fault_inject::Failure;
use crate::link::{after_send, is_last, WorkerLink};
use crate::metrics::{health_code, UpgradeCounters};
use crate::roles::{role_name, role_named, role_names_are_unambiguous, WorkerRole};
use crate::text::opt_view;
use crate::time::NANOS_PER_SEC;

verus! {

/// What an upgrade request asks for.
#[derive(Debug)]
pub struct RollingUpgradeRequest {
    pub binary_path: Option<String>,
    pub include_tls: bool,
    pub canary_secs: Option<u64>,
    /// This worker alone, in place of the walk over the roles.
    pub only_role: Option<String>,
}

/// The roles to upgrade, in order; nothing where the request names a role that there is not.
pub open spec fn walk_targets(include_tls: bool, only_role: Option<Seq<char>>) -> Option<
    Seq<WorkerRole>,
> {
    match only_role {
        Some(name) => match role_named(name) {
            Some(role) => Some(seq![role]),
            None => None,
        },
        None => if include_tls {
            Some(
                seq![
                    WorkerRole::Processor,
                    WorkerRole::Plain,
                    WorkerRole::Scanner,
                    WorkerRole::Tls,
                ],
            )
        } else {
            Some(seq![WorkerRole::Processor, WorkerRole::Plain, WorkerRole::Scanner])
        },
    }
}

impl RollingUpgradeRequest {
    pub fn targets(&self) -> (t: Option<Vec<WorkerRole>>)
        ensures
            match t {
                Some(v) => walk_targets(self.include_tls, opt_view(self.only_role)) == Some(v@),
                None => walk_targets(self.include_tls, opt_view(self.only_role)) is None,
            },
    {
        match &self.only_role {
            Some(name) => match WorkerRole::named(name.as_str()) {
                Some(role) => Some(vec![role]),
                None => None,
            },
            None => {
                let mut v: Vec<WorkerRole> =
                    vec![WorkerRole::Processor, WorkerRole::Plain, WorkerRole::Scanner];
                if self.include_tls {
                    v.push(WorkerRole::Tls);
                    proof {
                        assert(v@ =~= seq![
                            WorkerRole::Processor,
                            WorkerRole::Plain,
                            WorkerRole::Scanner,
                            WorkerRole::Tls,
                        ]);
                    }
                }
                Some(v)
            },
        }
    }
}

/// Milliseconds between two looks at a worker that is upgrading.
pub const UPGRADE_POLL_MS: u64 = 100;

/// Milliseconds between two looks at a role that is being watched.
pub const CANARY_POLL_MS: u64 = 200;

/// Seconds that an upgrade of the role may take. The TLS acceptor drains its sessions first.
pub open spec fn poll_secs(role: WorkerRole) -> nat {
    if role == WorkerRole::Tls {
        10
    } else {
        5
    }
}

/// How bad a health state is.
pub fn health_state_rank(state: HealthState) -> (rank: u8)
    ensures
        rank == health_code(state),
{
    match state {
        HealthState::Healthy => 0,
        HealthState::Backoff => 1,
        HealthState::Flapping => 2,
        HealthState::Failed => 3,
    }
}

/// Where the walk stands with the role that is its turn. Points in time are nanoseconds.
#[allow(inconsistent_fields)]
#[derive(Clone, Copy, Debug, PartialEq, Eq, Structural)]
pub enum Stage {
    /// Its health before the upgrade is not known yet.
    Baseline,
    /// Its generation before the upgrade is not known yet.
    Opening,
    /// The order to upgrade is on its way.
    Ordered { pre_gen: u64 },
    /// The time is to be checked against the deadline.
    PollClock { pre_gen: u64, deadline: u128 },
    /// The worker is to be asked for its generation.
    PollStatus { pre_gen: u64, deadline: u128 },
    /// It has upgraded, and is going to be watched for this long.
    Upgraded { canary_secs: u64 },
    /// It is being watched, and the time is to be checked against the end of the watch.
    WatchClock { deadline: u128 },
    /// It is being watched, and its health is to be looked at.
    WatchHealth { deadline: u128 },
    /// The walk is over.
    Over { all_ok: bool },
}

/// What the walk is told.
#[derive(Clone, Copy, Debug, PartialEq, Eq, Structural)]
pub enum WalkEvent {
    /// How the role looks now.
    Health(HealthState),
    /// The generation that the worker reports, or nothing where it does not answer.
    Status(Option<u64>),
    /// What time it is, in nanoseconds.
    Clock(u64),
}

/// What the walk asks for, about the role that is its turn.
#[derive(Clone, Copy, Debug, PartialEq, Eq, Structural)]
pub enum WalkAction {
    /// Look at its health.
    ReadHealth,
    /// Ask it for its generation.
    Query,
    /// Send it the order to upgrade, then read the clock.
    SendUpgrade,
    ReadClock,
    /// Wait this many milliseconds, then read the clock.
    PauseThenClock(u64),
    /// Wait this many milliseconds, then look at its health.
    PauseThenHealth(u64),
    /// Report the outcome and stop.
    Finish { all_ok: bool },
}

/// Progress to report.
#[allow(inconsistent_fields)]
pub enum Progress {
    Nothing,
    Skipped { role: WorkerRole },
    Starting { role: WorkerRole, pre_gen: u64 },
    Timeout { role: WorkerRole, pre_gen: u64 },
    Done { role: WorkerRole, pre_gen: u64, new_gen: u64 },
    CanaryAborted { role: WorkerRole, state: HealthState },
}

/// A walk over the roles.
#[derive(Debug)]
pub struct Walk {
    pub targets: Vec<WorkerRole>,
    pub at: usize,
    pub canary_secs: Option<u64>,
    /// Health of the role before its upgrade.
    pub baseline: HealthState,
    pub stage: Stage,
}

/// What decides about a walk.
pub struct WalkState {
    pub targets: Seq<WorkerRole>,
    pub at: int,
    pub canary_secs: Option<u64>,
    pub baseline: HealthState,
    pub stage: Stage,
}

/// What the walk waits for in a stage.
pub open spec fn due(stage: Stage) -> WalkAction {
    match stage {
        Stage::Baseline => WalkAction::ReadHealth,
        Stage::Opening => WalkAction::Query,
        Stage::Ordered { .. } => WalkAction::SendUpgrade,
        Stage::PollClock { .. } => WalkAction::ReadClock,
        Stage::PollStatus { .. } => WalkAction::Query,
        Stage::Upgraded { .. } => WalkAction::ReadClock,
        Stage::WatchClock { .. } => WalkAction::ReadClock,
        Stage::WatchHealth { .. } => WalkAction::PauseThenHealth(CANARY_POLL_MS),
        Stage::Over { all_ok } => WalkAction::Finish { all_ok },
    }
}

/// The walk after the role that is its turn is done with: on to the next, or over.
pub open spec fn advanced(w: WalkState) -> WalkState {
    if w.at + 1 < w.targets.len() {
        WalkState { at: w.at + 1, stage: Stage::Baseline, ..w }
    } else {
        WalkState { stage: Stage::Over { all_ok: true }, ..w }
    }
}

/// The walk after the role that is its turn failed.
pub open spec fn given_up(w: WalkState) -> WalkState {
    WalkState { stage: Stage::Over { all_ok: false }, ..w }
}

/// The watch goes on while its end is not reached.
pub open spec fn watched(w: WalkState, now: u64, deadline: u128) -> WalkState {
    if now < deadline {
        WalkState { stage: Stage::WatchHealth { deadline }, ..w }
    } else {
        advanced(w)
    }
}

/// One move of the walk: where it stands next, what it reports, and what it asks for. An event
/// that it does not wait for changes nothing.
pub open spec fn walk_move(w: WalkState, e: WalkEvent) -> (WalkState, Progress, WalkAction) {
    let role = w.targets[w.at];
    let (next, progress) = match (w.stage, e) {
        (Stage::Baseline, WalkEvent::Health(h)) => (
            WalkState { baseline: h, stage: Stage::Opening, ..w },
            Progress::Nothing,
        ),
        (Stage::Opening, WalkEvent::Status(None)) => (given_up(w), Progress::Skipped { role }),
        (Stage::Opening, WalkEvent::Status(Some(g))) => (
            WalkState { stage: Stage::Ordered { pre_gen: g }, ..w },
            Progress::Starting { role, pre_gen: g },
        ),
        (Stage::Ordered { pre_gen }, WalkEvent::Clock(now)) => (
            WalkState {
                stage: Stage::PollClock {
                    pre_gen,
                    deadline: (now + poll_secs(role) * NANOS_PER_SEC) as u128,
                },
                ..w
            },
            Progress::Nothing,
        ),
        (Stage::PollClock { pre_gen, deadline }, WalkEvent::Clock(now)) => if now > deadline {
            (given_up(w), Progress::Timeout { role, pre_gen })
        } else {
            (
                WalkState { stage: Stage::PollStatus { pre_gen, deadline }, ..w },
                Progress::Nothing,
            )
        },
        (Stage::PollStatus { pre_gen, deadline }, WalkEvent::Status(seen)) => match seen {
            Some(g) if g > pre_gen => (
                match w.canary_secs {
                    Some(canary_secs) => WalkState {
                        stage: Stage::Upgraded { canary_secs },
                        ..w
                    },
                    None => advanced(w),
                },
                Progress::Done { role, pre_gen, new_gen: g },
            ),
            _ => (
                WalkState { stage: Stage::PollClock { pre_gen, deadline }, ..w },
                Progress::Nothing,
            ),
        },
        (Stage::Upgraded { canary_secs }, WalkEvent::Clock(now)) => (
            watched(w, now, (now + canary_secs * NANOS_PER_SEC) as u128),
            Progress::Nothing,
        ),
        (Stage::WatchClock { deadline }, WalkEvent::Clock(now)) => (
            watched(w, now, deadline),
            Progress::Nothing,
        ),
        (Stage::WatchHealth { deadline }, WalkEvent::Health(h)) => if health_code(h) > health_code(
            w.baseline,
        ) {
            (given_up(w), Progress::CanaryAborted { role, state: h })
        } else {
            (WalkState { stage: Stage::WatchClock { deadline }, ..w }, Progress::Nothing)
        },
        _ => (w, Progress::Nothing),
    };
    let action = match (w.stage, e) {
        (Stage::PollStatus { .. }, WalkEvent::Status(_)) => if next.stage is PollClock {
            WalkAction::PauseThenClock(UPGRADE_POLL_MS)
        } else {
            due(next.stage)
        },
        _ => due(next.stage),
    };
    (next, progress, action)
}

/// The counts after some progress.
pub open spec fn counted(c: UpgradeCounters, p: Progress) -> UpgradeCounters {
    match p {
        Progress::Skipped { role } => UpgradeCounters {
            skipped: c.skipped.bumped(role_name(role)),
            ..c
        },
        Progress::Timeout { role, .. } => UpgradeCounters {
            timed_out: c.timed_out.bumped(role_name(role)),
            ..c
        },
        Progress::Done { role, .. } => UpgradeCounters {
            committed: c.committed.bumped(role_name(role)),
            ..c
        },
        Progress::CanaryAborted { role, .. } => UpgradeCounters {
            canary_aborted: c.canary_aborted.bumped(role_name(role)),
            ..c
        },
        _ => c,
    }
}

/// The name of a health state in messages.
pub open spec fn health_label(state: HealthState) -> Seq<char> {
    match state {
        HealthState::Healthy => "Healthy"@,
        HealthState::Backoff => "Backoff"@,
        HealthState::Flapping => "Flapping"@,
        HealthState::Failed => "Failed"@,
    }
}

/// `frame` is what is sent to report `p`.
pub open spec fn frame_reports(frame: Option<AdminResp>, p: Progress) -> bool {
    match p {
        Progress::Nothing => frame is None,
        Progress::Skipped { role } => step_frame(
            frame,
            role,
            UpgradePhase::Skipped,
            None,
            None,
            false,
            Some("no control connection"@),
        ),
        Progress::Starting { role, pre_gen } => step_frame(
            frame,
            role,
            UpgradePhase::Starting,
            Some(pre_gen),
            None,
            true,
            None,
        ),
        Progress::Timeout { role, pre_gen } => step_frame(
            frame,
            role,
            UpgradePhase::Timeout,
            Some(pre_gen),
            None,
            false,
            Some("worker did not reconnect with a new generation"@),
        ),
        Progress::Done { role, pre_gen, new_gen } => step_frame(
            frame,
            role,
            UpgradePhase::Done,
            Some(pre_gen),
            Some(new_gen),
            true,
            None,
        ),
        Progress::CanaryAborted { role, state } => step_frame(
            frame,
            role,
            UpgradePhase::CanaryAborted,
            None,
            None,
            false,
            Some("watchdog state "@ + health_label(state)),
        ),
    }
}

/// `frame` is an upgrade step with these contents.
pub open spec fn step_frame(
    frame: Option<AdminResp>,
    role: WorkerRole,
    phase: UpgradePhase,
    before: Option<u64>,
    after: Option<u64>,
    ok: bool,
    message: Option<Seq<char>>,
) -> bool {
    match frame {
        Some(
            AdminResp::UpgradeStep {
                worker,
                phase: p,
                generation_before,
                generation_after,
                ok: o,
                message: m,
            },
        ) => worker@ == role_name(role) && p == phase && generation_before == before
            && generation_after == after && o == ok && opt_view(m) == message,
        _ => false,
    }
}

fn upgrade_step(
    role: WorkerRole,
    phase: UpgradePhase,
    before: Option<u64>,
    after: Option<u64>,
    ok: bool,
    message: Option<String>,
) -> (frame: Option<AdminResp>)
    ensures
        step_frame(frame, role, phase, before, after, ok, opt_view(message)),
{
    Some(
        AdminResp::UpgradeStep {
            worker: role.name().to_owned(),
            phase,
            generation_before: before,
            generation_after: after,
            ok,
            message,
        },
    )
}

fn canary_message(state: HealthState) -> (s: String)
    ensures
        s@ == "watchdog state "@ + health_label(state),
{
    let mut s = "watchdog state ".to_owned();
    s.append(
        match state {
            HealthState::Healthy => "Healthy",
            HealthState::Backoff => "Backoff",
            HealthState::Flapping => "Flapping",
            HealthState::Failed => "Failed",
        },
    );
    s
}

impl Walk {
    pub open spec fn state(&self) -> WalkState {
        WalkState {
            targets: self.targets@,
            at: self.at as int,
            canary_secs: self.canary_secs,
            baseline: self.baseline,
            stage: self.stage,
        }
    }

    /// The walk points at one of its roles, unless it is over.
    pub open spec fn well_formed(&self) -> bool {
        self.stage is Over || self.at < self.targets@.len()
    }

    /// Starts a walk, unless another one is under way or the request names no known role.
    pub fn begin(req: &RollingUpgradeRequest, busy: bool) -> (w: Self)
        ensures
            w.well_formed(),
            ({
                let targets = walk_targets(req.include_tls, opt_view(req.only_role));
                if busy || targets is None {
                    w.stage == Stage::Over { all_ok: false } && w.targets@.len() == 0
                } else {
                    w.state() == (WalkState {
                        targets: targets->0,
                        at: 0,
                        canary_secs: req.canary_secs,
                        baseline: HealthState::Healthy,
                        stage: Stage::Baseline,
                    })
                }
            }),
    {
        if !busy {
            if let Some(targets) = req.targets() {
                return Walk {
                    targets,
                    at: 0,
                    canary_secs: req.canary_secs,
                    baseline: HealthState::Healthy,
                    stage: Stage::Baseline,
                };
            }
        }
        Walk {
            targets: Vec::new(),
            at: 0,
            canary_secs: req.canary_secs,
            baseline: HealthState::Healthy,
            stage: Stage::Over { all_ok: false },
        }
    }

    /// What the walk waits for.
    pub fn due(&self) -> (a: WalkAction)
        ensures
            a == due(self.stage),
    {
        match self.stage {
            Stage::Baseline => WalkAction::ReadHealth,
            Stage::Opening => WalkAction::Query,
            Stage::Ordered { .. } => WalkAction::SendUpgrade,
            Stage::PollClock { .. } => WalkAction::ReadClock,
            Stage::PollStatus { .. } => WalkAction::Query,
            Stage::Upgraded { .. } => WalkAction::ReadClock,
            Stage::WatchClock { .. } => WalkAction::ReadClock,
            Stage::WatchHealth { .. } => WalkAction::PauseThenHealth(CANARY_POLL_MS),
            Stage::Over { all_ok } => WalkAction::Finish { all_ok },
        }
    }

    /// The role that is its turn.
    pub fn role(&self) -> (r: Option<WorkerRole>)
        ensures
            r == (if self.at < self.targets@.len() {
                Some(self.targets@[self.at as int])
            } else {
                None
            }),
    {
        if self.at < self.targets.len() {
            Some(self.targets[self.at])
        } else {
            None
        }
    }

    fn advance(&mut self)
        requires
            old(self).at < old(self).targets@.len(),
        ensures
            final(self).state() == advanced(old(self).state()),
            final(self).well_formed(),
    {
        if self.targets.len() - self.at > 1 {
            self.at = self.at + 1;
            self.stage = Stage::Baseline;
        } else {
            self.stage = Stage::Over { all_ok: true };
        }
    }

    fn watch(&mut self, now: u64, deadline: u128)
        requires
            old(self).at < old(self).targets@.len(),
        ensures
            final(self).state() == watched(old(self).state(), now, deadline),
            final(self).well_formed(),
    {
        if (now as u128) < deadline {
            self.stage = Stage::WatchHealth { deadline };
        } else {
            self.advance();
        }
    }

    /// Takes one move; the result is the progress to report and what to do next.
    pub fn step(&mut self, event: WalkEvent, counters: &mut UpgradeCounters) -> (r: (
        Option<AdminResp>,
        WalkAction,
    ))
        requires
            old(self).well_formed(),
        ensures
            final(self).well_formed(),
            ({
                let (next, progress, action) = walk_move(old(self).state(), event);
                &&& final(self).state() == next
                &&& frame_reports(r.0, progress)
                &&& r.1 == action
                &&& *final(counters) == counted(*old(counters), progress)
            }),
    {
        let mut frame: Option<AdminResp> = None;
        match (self.stage, event) {
            (Stage::Baseline, WalkEvent::Health(h)) => {
                self.baseline = h;
                self.stage = Stage::Opening;
            },
            (Stage::Opening, WalkEvent::Status(None)) => {
                let role = self.targets[self.at];
                counters.incr_skipped(role.name());
                frame = upgrade_step(
                    role,
                    UpgradePhase::Skipped,
                    None,
                    None,
                    false,
                    Some("no control connection".to_owned()),
                );
                self.stage = Stage::Over { all_ok: false };
            },
            (Stage::Opening, WalkEvent::Status(Some(g))) => {
                let role = self.targets[self.at];
                frame = upgrade_step(role, UpgradePhase::Starting, Some(g), None, true, None);
                self.stage = Stage::Ordered { pre_gen: g };
            },
            (Stage::Ordered { pre_gen }, WalkEvent::Clock(now)) => {
                let secs: u128 = if self.targets[self.at] == WorkerRole::Tls {
                    10
                } else {
                    5
                };
                let deadline: u128 = now as u128 + secs * NANOS_PER_SEC;
                self.stage = Stage::PollClock { pre_gen, deadline };
            },
            (Stage::PollClock { pre_gen, deadline }, WalkEvent::Clock(now)) => {
                if (now as u128) > deadline {
                    let role = self.targets[self.at];
                    counters.incr_timed_out(role.name());
                    frame = upgrade_step(
                        role,
                        UpgradePhase::Timeout,
                        Some(pre_gen),
                        None,
                        false,
                        Some("worker did not reconnect with a new generation".to_owned()),
                    );
                    self.stage = Stage::Over { all_ok: false };
                } else {
                    self.stage = Stage::PollStatus { pre_gen, deadline };
                }
            },
            (Stage::PollStatus { pre_gen, deadline }, WalkEvent::Status(seen)) => {
                let newer = match seen {
                    Some(g) => g > pre_gen,
                    None => false,
                };
                if !newer {
                    self.stage = Stage::PollClock { pre_gen, deadline };
                    return (None, WalkAction::PauseThenClock(UPGRADE_POLL_MS));
                }
                let role = self.targets[self.at];
                counters.incr_committed(role.name());
                frame = upgrade_step(role, UpgradePhase::Done, Some(pre_gen), seen, true, None);
                match self.canary_secs {
                    Some(canary_secs) => {
                        self.stage = Stage::Upgraded { canary_secs };
                    },
                    None => {
                        self.advance();
                    },
                }
            },
            (Stage::Upgraded { canary_secs }, WalkEvent::Clock(now)) => {
                let deadline: u128 = now as u128 + canary_secs as u128 * NANOS_PER_SEC;
                self.watch(now, deadline);
            },
            (Stage::WatchClock { deadline }, WalkEvent::Clock(now)) => {
                self.watch(now, deadline);
            },
            (Stage::WatchHealth { deadline }, WalkEvent::Health(h)) => {
                if health_state_rank(h) > health_state_rank(self.baseline) {
                    let role = self.targets[self.at];
                    counters.incr_canary_aborted(role.name());
                    frame = upgrade_step(
                        role,
                        UpgradePhase::CanaryAborted,
                        None,
                        None,
                        false,
                        Some(canary_message(h)),
                    );
                    self.stage = Stage::Over { all_ok: false };
                } else {
                    self.stage = Stage::WatchClock { deadline };
                }
            },
            _ => {},
        }
        let action = self.due();
        (frame, action)
    }
}

/// What one worker is told.
#[derive(Clone, Copy, Debug, PartialEq, Eq, Structural)]
pub enum WorkerOrder {
    Shutdown { grace_ms: u64 },
    Drain,
    Reload,
}

/// The message that carries an order.
pub open spec fn order_msg(order: WorkerOrder) -> ControlMsg {
    match order {
        WorkerOrder::Shutdown { grace_ms } => ControlMsg::Shutdown { grace_ms },
        WorkerOrder::Drain => ControlMsg::Drain,
        WorkerOrder::Reload => ControlMsg::Reload,
    }
}

impl WorkerOrder {
    /// The message that carries the order.
    pub fn message(self) -> (msg: ControlMsg)
        ensures
            msg == order_msg(self),
    {
        match self {
            WorkerOrder::Shutdown { grace_ms } => ControlMsg::Shutdown { grace_ms },
            WorkerOrder::Drain => ControlMsg::Drain,
            WorkerOrder::Reload => ControlMsg::Reload,
        }
    }
}

/// The frame that closes the report on a walk.
pub fn closing_frame(all_ok: bool) -> (frame: AdminResp)
    ensures
        frame == (AdminResp::UpgradeComplete { all_ok }),
{
    AdminResp::UpgradeComplete { all_ok }
}

/// The smaller of the two.
pub open spec fn at_most(n: u64, cap: u64) -> u64 {
    if n <= cap {
        n
    } else {
        cap
    }
}

/// The orders that shut every worker down: the acceptors first, with the whole grace period; the
/// others with at most half a second.
pub open spec fn shutdown_plan(grace_ms: u64) -> Seq<(WorkerRole, WorkerOrder)> {
    seq![
        (WorkerRole::Plain, WorkerOrder::Shutdown { grace_ms }),
        (WorkerRole::Tls, WorkerOrder::Shutdown { grace_ms }),
        (WorkerRole::Scanner, WorkerOrder::Shutdown { grace_ms: at_most(grace_ms, 500) }),
        (WorkerRole::Processor, WorkerOrder::Shutdown { grace_ms: at_most(grace_ms, 500) }),
    ]
}

/// The orders that shut every worker down.
pub fn shutdown_orders(grace_ms: u64) -> (v: Vec<(WorkerRole, WorkerOrder)>)
    ensures
        v@ == shutdown_plan(grace_ms),
{
    let short: u64 = if grace_ms <= 500 {
        grace_ms
    } else {
        500
    };
    vec![
        (WorkerRole::Plain, WorkerOrder::Shutdown { grace_ms }),
        (WorkerRole::Tls, WorkerOrder::Shutdown { grace_ms }),
        (WorkerRole::Scanner, WorkerOrder::Shutdown { grace_ms: short }),
        (WorkerRole::Processor, WorkerOrder::Shutdown { grace_ms: short }),
    ]
}

/// The grace period of the supervisor's own shutdown, in milliseconds.
pub const SUPERVISOR_GRACE_MS: u64 = 1000;

/// What an admin request sets off.
#[derive(Debug)]
pub enum AdminPlan {
    Upgrade(RollingUpgradeRequest),
    /// Ask every worker for its status, and answer with what comes back.
    Status,
    /// Send these orders, in order, and answer with `answer`. Before that, read the allowlist again
    /// where `reload` says so.
    Send { orders: Vec<(WorkerRole, WorkerOrder)>, reload: bool, answer: AdminResp },
}

/// What a request sets off: a drain concerns the acceptors alone, a reload everyone.
pub open spec fn plan_answers(msg: ControlMsg, plan: AdminPlan) -> bool {
    match msg {
        ControlMsg::Upgrade { binary_path, include_tls, canary_secs, only_role } => plan
            == AdminPlan::Upgrade(
            RollingUpgradeRequest { binary_path, include_tls, canary_secs, only_role },
        ),
        ControlMsg::Status => plan is Status,
        ControlMsg::Shutdown { grace_ms } => match plan {
            AdminPlan::Send { orders, reload, answer } => orders@ == shutdown_plan(grace_ms) && !reload && answer == AdminResp::Okay,
            _ => false,
        },
        ControlMsg::Drain => match plan {
            AdminPlan::Send { orders, reload, answer } => orders@ == seq![
                (WorkerRole::Plain, WorkerOrder::Drain),
                (WorkerRole::Tls, WorkerOrder::Drain),
            ] && !reload && answer == AdminResp::Okay,
            _ => false,
        },
        ControlMsg::Reload => match plan {
            AdminPlan::Send { orders, reload, answer } => orders@ == seq![
                (WorkerRole::Processor, WorkerOrder::Reload),
                (WorkerRole::Plain, WorkerOrder::Reload),
                (WorkerRole::Tls, WorkerOrder::Reload),
                (WorkerRole::Scanner, WorkerOrder::Reload),
            ] && reload && answer == AdminResp::Okay,
            _ => false,
        },
    }
}

/// Decides what an admin request sets off.
pub fn handle_admin_request(msg: ControlMsg) -> (plan: AdminPlan)
    ensures
        plan_answers(msg, plan),
{
    match msg {
        ControlMsg::Upgrade { binary_path, include_tls, canary_secs, only_role } => {
            AdminPlan::Upgrade(
                RollingUpgradeRequest { binary_path, include_tls, canary_secs, only_role },
            )
        },
        ControlMsg::Status => AdminPlan::Status,
        ControlMsg::Shutdown { grace_ms } => AdminPlan::Send {
            orders: shutdown_orders(grace_ms),
            reload: false,
            answer: AdminResp::Okay,
        },
        ControlMsg::Drain => AdminPlan::Send {
            orders: vec![
                (WorkerRole::Plain, WorkerOrder::Drain),
                (WorkerRole::Tls, WorkerOrder::Drain),
            ],
            reload: false,
            answer: AdminResp::Okay,
        },
        ControlMsg::Reload => AdminPlan::Send {
            orders: vec![
                (WorkerRole::Processor, WorkerOrder::Reload),
                (WorkerRole::Plain, WorkerOrder::Reload),
                (WorkerRole::Tls, WorkerOrder::Reload),
                (WorkerRole::Scanner, WorkerOrder::Reload),
            ],
            reload: true,
            answer: AdminResp::Okay,
        },
    }
}

/// The reports that came back, in order.
pub open spec fn answered(replies: Seq<Option<WorkerStatus>>) -> Seq<WorkerStatus>
    decreases replies.len(),
{
    if replies.len() == 0 {
        seq![]
    } else {
        match replies.last() {
            Some(s) => answered(replies.drop_last()).push(s),
            None => answered(replies.drop_last()),
        }
    }
}

/// The answer to a status request: the reports that came back, in the order in which the workers
/// were asked, and the health of every role.
pub fn status_reply(replies: Vec<Option<WorkerStatus>>, health: Vec<RoleHealth>) -> (r: AdminResp)
    ensures
        match r {
            AdminResp::Status { workers, health: h } => workers@ == answered(replies@) && h
                == health,
            _ => false,
        },
{
    let mut workers: Vec<WorkerStatus> = Vec::new();
    proof {
        assert(replies@.take(0) =~= seq![]);
    }
    for reply in it: replies
        invariant
            it.seq() == replies@,
            workers@ == answered(replies@.take(it.index() as int)),
    {
        proof {
            let next = replies@.take(it.index() as int + 1);
            assert(next.drop_last() =~= replies@.take(it.index() as int));
            assert(next.last() == reply);
        }
        if let Some(s) = reply {
            workers.push(s);
        }
    }
    proof {
        assert(replies@.take(replies@.len() as int) =~= replies@);
    }
    AdminResp::Status { workers, health }
}

/// Puts a configuration that was read again into force: the new list of users replaces the old
/// one, and a configuration that could not be read changes nothing.
pub fn reload_supervisor_allowlist(
    allow: &mut PeerAllowlist,
    loaded: Result<Vec<u32>, Failure>,
) -> (r: Result<Vec<u32>, Failure>)
    ensures
        r == loaded,
        loaded is Err ==> *final(allow) == *old(allow),
        loaded is Ok ==> exists|effective: u32|
            final(allow)@ == #[trigger] admitted(loaded->Ok_0@, effective),
{
    match loaded {
        Ok(configured) => {
            *allow = PeerAllowlist::from_config(&configured);
            Ok(configured)
        },
        Err(e) => Err(e),
    }
}

// Laws
/// The walk after a series of events.
pub open spec fn walked(w: WalkState, events: Seq<WalkEvent>) -> WalkState
    decreases events.len(),
{
    if events.len() == 0 {
        w
    } else {
        walk_move(walked(w, events.drop_last()), events.last()).0
    }
}

/// How many roles were reported as upgraded on the way.
pub open spec fn roles_done(w: WalkState, events: Seq<WalkEvent>) -> nat
    decreases events.len(),
{
    if events.len() == 0 {
        0
    } else {
        let before = walked(w, events.drop_last());
        roles_done(w, events.drop_last()) + (if walk_move(before, events.last()).1 is Done {
            1nat
        } else {
            0
        })
    }
}

/// A walk that is about to start.
pub open spec fn about_to_start(w: WalkState) -> bool {
    w.stage == Stage::Baseline && w.at == 0 && w.targets.len() > 0
}

/// The walk reports success only when every role was upgraded, and a role gets its order only
/// when all the roles before it were upgraded: it stops at the first failure.
pub proof fn walk_stops_at_the_first_failure(w: WalkState, events: Seq<WalkEvent>)
    requires
        about_to_start(w),
    ensures
        walked(w, events).targets == w.targets,
        0 <= walked(w, events).at < w.targets.len(),
        walked(w, events).stage == (Stage::Over { all_ok: true }) ==> roles_done(w, events)
            == w.targets.len(),
        !(walked(w, events).stage is Over) && !(walked(w, events).stage is Upgraded) && !(walked(
            w,
            events,
        ).stage is WatchClock) && !(walked(w, events).stage is WatchHealth) ==> roles_done(
            w,
            events,
        ) == walked(w, events).at,
        walked(w, events).stage is Upgraded || walked(w, events).stage is WatchClock || walked(
            w,
            events,
        ).stage is WatchHealth ==> roles_done(w, events) == walked(w, events).at + 1,
    decreases events.len(),
{
    if events.len() > 0 {
        walk_stops_at_the_first_failure(w, events.drop_last());
    }
}

/// Once a walk is over, nothing more happens.
pub proof fn finished_walk_stays_finished(w: WalkState, e: WalkEvent)
    requires
        w.stage is Over,
    ensures
        walk_move(w, e).0 == w,
        walk_move(w, e).1 is Nothing,
{
}

/// A watched role stops the walk only when it looks worse than before its upgrade.
pub proof fn canary_needs_a_regression(w: WalkState, e: WalkEvent)
    ensures
        walk_move(w, e).1 matches Progress::CanaryAborted { role, state } ==> health_code(state)
            > health_code(w.baseline) && !walk_move(w, e).0.stage->all_ok,
{
}

/// A role counts as upgraded only when it reports a newer generation than before.
pub proof fn done_means_newer(w: WalkState, e: WalkEvent)
    ensures
        walk_move(w, e).1 matches Progress::Done { role, pre_gen, new_gen } ==> new_gen > pre_gen
            && e == WalkEvent::Status(Some(new_gen)),
{
}

/// The control links after a series of orders was sent.
pub open spec fn after_orders<W, Q>(
    links: Map<WorkerRole, WorkerLink<W, Q>>,
    orders: Seq<(WorkerRole, WorkerOrder)>,
) -> Map<WorkerRole, WorkerLink<W, Q>>
    decreases orders.len(),
{
    if orders.len() == 0 {
        links
    } else {
        let before = after_orders(links, orders.drop_last());
        let (role, order) = orders.last();
        before.insert(role, after_send(before[role], order_msg(order)))
    }
}

/// The messages that a series of orders brings to one role.
pub open spec fn messages_to(orders: Seq<(WorkerRole, WorkerOrder)>, role: WorkerRole) -> Seq<
    ControlMsg,
>
    decreases orders.len(),
{
    if orders.len() == 0 {
        seq![]
    } else if orders.last().0 == role {
        messages_to(orders.drop_last(), role).push(order_msg(orders.last().1))
    } else {
        messages_to(orders.drop_last(), role)
    }
}

/// Orders that are no last message leave every link as it is.
proof fn lemma_orders_keep_links<W, Q>(
    links: Map<WorkerRole, WorkerLink<W, Q>>,
    orders: Seq<(WorkerRole, WorkerOrder)>,
)
    requires
        forall|role: WorkerRole| #[trigger] links.dom().contains(role),
        forall|i: int| 0 <= i < orders.len() ==> !is_last(order_msg((#[trigger] orders[i]).1)),
    ensures
        after_orders(links, orders) == links,
    decreases orders.len(),
{
    if orders.len() > 0 {
        let d = orders.drop_last();
        assert forall|i: int| 0 <= i < d.len() implies !is_last(
            order_msg((#[trigger] d[i]).1),
        ) by {
            assert(d[i] == orders[i]);
        }
        lemma_orders_keep_links(links, d);
        assert(orders[orders.len() - 1] == orders.last());
        assert(links.dom().contains(orders.last().0));
        assert(after_orders(links, orders) =~= links);
    }
}

/// A drain brings one message to each acceptor and none to the others, leaves every connection
/// open, and is answered that it is done.
pub proof fn drain_keeps_every_connection<W, Q>(
    plan: AdminPlan,
    links: Map<WorkerRole, WorkerLink<W, Q>>,
)
    requires
        plan_answers(ControlMsg::Drain, plan),
        forall|role: WorkerRole| #[trigger] links.dom().contains(role),
    ensures
        plan is Send,
        plan->answer == AdminResp::Okay,
        after_orders(links, plan->orders@) == links,
        messages_to(plan->orders@, WorkerRole::Plain) == seq![ControlMsg::Drain],
        messages_to(plan->orders@, WorkerRole::Tls) == seq![ControlMsg::Drain],
        messages_to(plan->orders@, WorkerRole::Processor) == Seq::<ControlMsg>::empty(),
        messages_to(plan->orders@, WorkerRole::Scanner) == Seq::<ControlMsg>::empty(),
{
    let orders = plan->orders@;
    lemma_orders_keep_links(links, orders);
    reveal_with_fuel(messages_to, 3);
    assert(orders.drop_last() =~= seq![(WorkerRole::Plain, WorkerOrder::Drain)]);
    assert(orders.drop_last().drop_last() =~= seq![]);
    assert(messages_to(orders, WorkerRole::Plain) =~= seq![ControlMsg::Drain]);
    assert(messages_to(orders, WorkerRole::Tls) =~= seq![ControlMsg::Drain]);
}

/// A reload brings one message to every worker, leaves every connection open, and is answered
/// that it is done.
pub proof fn reload_keeps_every_connection<W, Q>(
    plan: AdminPlan,
    links: Map<WorkerRole, WorkerLink<W, Q>>,
    role: WorkerRole,
)
    requires
        plan_answers(ControlMsg::Reload, plan),
        forall|role: WorkerRole| #[trigger] links.dom().contains(role),
    ensures
        plan is Send,
        plan->answer == AdminResp::Okay,
        after_orders(links, plan->orders@) == links,
        messages_to(plan->orders@, role) == seq![ControlMsg::Reload],
{
    let orders = plan->orders@;
    lemma_orders_keep_links(links, orders);
    reveal_with_fuel(messages_to, 5);
    let o3 = orders.drop_last();
    let o2 = o3.drop_last();
    let o1 = o2.drop_last();
    assert(o1.drop_last() =~= seq![]);
    assert(messages_to(orders, role) =~= seq![ControlMsg::Reload]);
}

/// A shutdown brings one last message to every worker: afterwards no link has a connection or
/// waits for a report.
pub proof fn shutdown_ends_every_connection<W, Q>(
    grace_ms: u64,
    links: Map<WorkerRole, WorkerLink<W, Q>>,
    role: WorkerRole,
)
    requires
        forall|role: WorkerRole| #[trigger] links.dom().contains(role),
    ensures
        after_orders(links, shutdown_plan(grace_ms))[role] == (WorkerLink {
            writer: None,
            pending_status: None,
            ..links[role]
        }),
        messages_to(shutdown_plan(grace_ms), role).len() == 1,
{
    let orders = shutdown_plan(grace_ms);
    reveal_with_fuel(after_orders, 5);
    reveal_with_fuel(messages_to, 5);
    let o3 = orders.drop_last();
    let o2 = o3.drop_last();
    let o1 = o2.drop_last();
    assert(o1.drop_last() =~= seq![]);
}

/// `h` is a worse state than `before`: from healthy over backoff and flapping to failed.
pub open spec fn is_worse(h: HealthState, before: HealthState) -> bool {
    match before {
        HealthState::Healthy => h != HealthState::Healthy,
        HealthState::Backoff => h == HealthState::Flapping || h == HealthState::Failed,
        HealthState::Flapping => h == HealthState::Failed,
        HealthState::Failed => false,
    }
}

/// The numbers of two health states compare as the states do.
pub proof fn health_is_ranked(a: HealthState, b: HealthState)
    ensures
        health_code(a) > health_code(b) <==> is_worse(a, b),
        health_code(a) == health_code(b) <==> a == b,
{
}

/// A watched role that looks worse than before its upgrade always ends the walk, without success,
/// and is reported with what it looks like; one that does not is watched on.
pub proof fn regression_ends_the_walk(w: WalkState, h: HealthState)
    requires
        w.stage is WatchHealth,
    ensures
        ({
            let (next, progress, action) = walk_move(w, WalkEvent::Health(h));
            &&& is_worse(h, w.baseline) ==> next == (WalkState {
                stage: Stage::Over { all_ok: false },
                ..w
            }) && progress == (Progress::CanaryAborted { role: w.targets[w.at], state: h })
                && action == (WalkAction::Finish { all_ok: false })
            &&& !is_worse(h, w.baseline) ==> next == (WalkState {
                stage: Stage::WatchClock { deadline: w.stage->WatchHealth_deadline },
                ..w
            }) && progress is Nothing && action == WalkAction::ReadClock
        }),
{
}

/// What a role is compared with is what it looked like before its upgrade.
pub proof fn baseline_is_taken_before_the_upgrade(w: WalkState, e: WalkEvent)
    ensures
        w.stage is Baseline ==> (e matches WalkEvent::Health(h) ==> walk_move(w, e).0 == (
        WalkState { baseline: h, stage: Stage::Opening, ..w })),
        !(w.stage is Baseline) ==> walk_move(w, e).0.baseline == w.baseline,
{
}

/// A watched role is watched for the whole time that was asked for, and no longer: the walk goes
/// on exactly when the clock shows the end of it.
pub proof fn watch_lasts_as_long_as_asked(w: WalkState, now: u64, later: u64)
    requires
        w.stage is Upgraded,
        now <= later,
        0 <= w.at < w.targets.len(),
    ensures
        ({
            let secs = w.stage->canary_secs;
            let end = now + secs * 1_000_000_000;
            let begun = walk_move(w, WalkEvent::Clock(now));
            &&& secs > 0 ==> begun.0.stage is WatchHealth && begun.1 is Nothing && begun.2
                == WalkAction::PauseThenHealth(200) && begun.0.at == w.at
            &&& secs > 0 ==> forall|h: HealthState|
                !is_worse(h, w.baseline) ==> ({
                    let looked = #[trigger] walk_move(begun.0, WalkEvent::Health(h));
                    let timed = walk_move(looked.0, WalkEvent::Clock(later));
                    &&& later < end ==> timed.0 == begun.0
                    &&& later >= end ==> moves_on(w, timed.0)
                })
            &&& secs == 0 ==> moves_on(w, begun.0)
        }),
{
    assert(w.stage->canary_secs * 1_000_000_000 <= u64::MAX * 1_000_000_000) by (nonlinear_arith)
        requires
            w.stage->canary_secs <= u64::MAX,
    ;
}

/// `after` is the walk `w` once the role that is its turn is done with: the next role is up, or
/// every role had its turn and the walk has succeeded.
pub open spec fn moves_on(w: WalkState, after: WalkState) -> bool {
    &&& after.targets == w.targets
    &&& after.canary_secs == w.canary_secs
    &&& w.at + 1 < w.targets.len() ==> after.at == w.at + 1 && after.stage is Baseline
    &&& w.at + 1 >= w.targets.len() ==> after.at == w.at && after.stage == (Stage::Over {
        all_ok: true,
    })
}

/// A role that reports a newer generation has upgraded, whenever it does so: it is reported, and
/// then watched where that was asked for. One that does not is asked again until its time is up.
pub proof fn newer_generation_completes_a_role(w: WalkState, seen: Option<u64>, now: u64)
    requires
        w.stage is PollStatus,
        0 <= w.at < w.targets.len(),
    ensures
        ({
            let pre_gen = w.stage->PollStatus_pre_gen;
            let deadline = w.stage->PollStatus_deadline;
            let (next, progress, action) = walk_move(w, WalkEvent::Status(seen));
            let newer = seen is Some && seen->0 > pre_gen;
            &&& newer ==> progress == (Progress::Done {
                role: w.targets[w.at],
                pre_gen,
                new_gen: seen->0,
            })
            &&& newer && w.canary_secs is None ==> moves_on(w, next)
            &&& newer && w.canary_secs is Some ==> next == (WalkState {
                stage: Stage::Upgraded { canary_secs: w.canary_secs->0 },
                ..w
            }) && action == WalkAction::ReadClock
            &&& !newer ==> progress is Nothing && action == WalkAction::PauseThenClock(100)
                && next.at == w.at && next.stage == (Stage::PollClock { pre_gen, deadline })
            &&& !newer && now <= deadline ==> walk_move(next, WalkEvent::Clock(now)) == (
                w,
                Progress::Nothing,
                WalkAction::Query,
            )
            &&& !newer && now > deadline ==> walk_move(next, WalkEvent::Clock(now)) == (
                WalkState { stage: Stage::Over { all_ok: false }, ..w },
                Progress::Timeout { role: w.targets[w.at], pre_gen },
                WalkAction::Finish { all_ok: false },
            )
        }),
{
}

/// A role that does not answer ends the walk before it was told to upgrade; one that answers is
/// told so, and has five seconds from then on, or ten where it drains TLS sessions.
pub proof fn role_is_told_and_timed(w: WalkState, seen: Option<u64>, now: u64)
    requires
        w.stage is Opening,
    ensures
        ({
            let role = w.targets[w.at];
            let (next, progress, action) = walk_move(w, WalkEvent::Status(seen));
            &&& seen is None ==> next == (WalkState { stage: Stage::Over { all_ok: false }, ..w })
                && progress == (Progress::Skipped { role }) && action == (WalkAction::Finish {
                all_ok: false,
            })
            &&& seen is Some ==> progress == (Progress::Starting { role, pre_gen: seen->0 })
                && action == WalkAction::SendUpgrade
            &&& seen is Some ==> walk_move(next, WalkEvent::Clock(now)).0 == (WalkState {
                stage: Stage::PollClock {
                    pre_gen: seen->0,
                    deadline: (now + (if role == WorkerRole::Tls {
                        10_000_000_000int
                    } else {
                        5_000_000_000
                    })) as u128,
                },
                ..w
            })
        }),
{
}

/// The walk visits the processor, the plain acceptor and the scanner, in this order, and after them
/// the TLS acceptor where that was asked for; or the one role that was named, and nothing where
/// there is no such role.
pub proof fn walk_visits_what_was_asked_for(include_tls: bool, name: Seq<char>, role: WorkerRole)
    ensures
        ({
            let t = walk_targets(include_tls, None);
            &&& t is Some
            &&& t->0.len() == (if include_tls {
                4int
            } else {
                3
            })
            &&& t->0[0] == WorkerRole::Processor
            &&& t->0[1] == WorkerRole::Plain
            &&& t->0[2] == WorkerRole::Scanner
            &&& include_tls ==> t->0[3] == WorkerRole::Tls
        }),
        name == role_name(role) ==> walk_targets(include_tls, Some(name)) == Some(seq![role]),
        (forall|r: WorkerRole| name != #[trigger] role_name(r)) ==> walk_targets(
            include_tls,
            Some(name),
        ) is None,
{
    role_names_are_unambiguous(role);
    assert(name != role_name(WorkerRole::Processor) || name == role_name(WorkerRole::Processor));
    assert(name != role_name(WorkerRole::Plain) || name == role_name(WorkerRole::Plain));
    assert(name != role_name(WorkerRole::Tls) || name == role_name(WorkerRole::Tls));
    assert(name != role_name(WorkerRole::Scanner) || name == role_name(WorkerRole::Scanner));
}

/// A walk that succeeds saw no watched role get worse: at no point of it did a look at a watched
/// role find it worse than before its upgrade.
pub proof fn successful_walk_saw_no_regression(w: WalkState, events: Seq<WalkEvent>, i: int)
    requires
        about_to_start(w),
        walked(w, events).stage == (Stage::Over { all_ok: true }),
        0 <= i < events.len(),
        events[i] is Health,
        walked(w, events.take(i)).stage is WatchHealth,
    ensures
        !is_worse(events[i]->Health_0, walked(w, events.take(i)).baseline),
{
    let before = walked(w, events.take(i));
    let upto = events.take(i + 1);
    assert(upto.drop_last() =~= events.take(i));
    assert(upto.last() == events[i]);
    if is_worse(events[i]->Health_0, before.baseline) {
        regression_ends_the_walk(before, events[i]->Health_0);
        assert(walked(w, upto).stage == (Stage::Over { all_ok: false }));
        lemma_over_stays(w, events, i + 1);
        assert(events.take(events.len() as int) =~= events);
    }
}

proof fn lemma_over_stays(w: WalkState, events: Seq<WalkEvent>, i: int)
    requires
        0 <= i <= events.len(),
        walked(w, events.take(i)).stage is Over,
    ensures
        walked(w, events).stage == walked(w, events.take(i)).stage,
    decreases events.len() - i,
{
    if i == events.len() {
        assert(events.take(i) =~= events);
    } else {
        let upto = events.take(i + 1);
        assert(upto.drop_last() =~= events.take(i));
        lemma_over_stays(w, events, i + 1);
    }
}

/// Every outcome is counted once, under its role and its kind, and nothing else is.
pub proof fn outcomes_are_counted_once(
    c: UpgradeCounters,
    role: WorkerRole,
    other: WorkerRole,
    pre_gen: u64,
    new_gen: u64,
    state: HealthState,
)
    ensures
        ({
            let done = counted(c, Progress::Done { role, pre_gen, new_gen });
            let late = counted(c, Progress::Timeout { role, pre_gen });
            let absent = counted(c, Progress::Skipped { role });
            let worse = counted(c, Progress::CanaryAborted { role, state });
            let one = |before: u64|
                if other == role {
                    before.wrapping_add(1)
                } else {
                    before
                };
            &&& done == (UpgradeCounters { committed: done.committed, ..c })
            &&& done.committed.count(other) == one(c.committed.count(other))
            &&& late == (UpgradeCounters { timed_out: late.timed_out, ..c })
            &&& late.timed_out.count(other) == one(c.timed_out.count(other))
            &&& absent == (UpgradeCounters { skipped: absent.skipped, ..c })
            &&& absent.skipped.count(other) == one(c.skipped.count(other))
            &&& worse == (UpgradeCounters { canary_aborted: worse.canary_aborted, ..c })
            &&& worse.canary_aborted.count(other) == one(c.canary_aborted.count(other))
            &&& counted(c, Progress::Starting { role, pre_gen }) == c
            &&& counted(c, Progress::Nothing) == c
        }),
{
    role_names_are_unambiguous(role);
}

/// A step is reported under its role's name; it is reported as good exactly where the role begins
/// or is done, and with the generations as far as they are known.
pub proof fn reports_tell_good_from_bad(frame: Option<AdminResp>, p: Progress)
    requires
        frame_reports(frame, p),
    ensures
        p is Nothing <==> frame is None,
        frame matches Some(f) ==> f is UpgradeStep && (f->ok <==> p is Starting || p is Done),
        p matches Progress::Done { role, pre_gen, new_gen } ==> frame->0->worker@ == role_name(role)
            && frame->0->phase == UpgradePhase::Done && frame->0->generation_before == Some(pre_gen)
            && frame->0->generation_after == Some(new_gen),
        p matches Progress::Starting { role, pre_gen } ==> frame->0->worker@ == role_name(role)
            && frame->0->phase == UpgradePhase::Starting && frame->0->generation_before == Some(
            pre_gen,
        ),
        p matches Progress::Timeout { role, pre_gen } ==> frame->0->worker@ == role_name(role)
            && frame->0->phase == UpgradePhase::Timeout && frame->0->generation_before == Some(
            pre_gen,
        ) && frame->0->generation_after is None,
        p matches Progress::Skipped { role } ==> frame->0->worker@ == role_name(role)
            && frame->0->phase == UpgradePhase::Skipped,
        p matches Progress::CanaryAborted { role, state } ==> frame->0->worker@ == role_name(role)
            && frame->0->phase == UpgradePhase::CanaryAborted,
{
}

/// A shutdown gives the acceptors, which go first, the whole grace period, and the others at most
/// half a second of it.
pub proof fn shutdown_grace_is_shared_out(grace_ms: u64)
    ensures
        ({
            let orders = shutdown_plan(grace_ms);
            let short = if grace_ms < 500 {
                grace_ms
            } else {
                500
            };
            &&& orders.len() == 4
            &&& orders[0] == (WorkerRole::Plain, WorkerOrder::Shutdown { grace_ms })
            &&& orders[1] == (WorkerRole::Tls, WorkerOrder::Shutdown { grace_ms })
            &&& orders[2] == (WorkerRole::Scanner, WorkerOrder::Shutdown { grace_ms: short })
            &&& orders[3] == (WorkerRole::Processor, WorkerOrder::Shutdown { grace_ms: short })
        }),
{
}

/// The status answer lists every report that came back, in order, and nothing else.
pub proof fn every_report_is_answered(replies: Seq<Option<WorkerStatus>>)
    ensures
        answered(replies) == replies.filter_map(|r: Option<WorkerStatus>| r),
    decreases replies.len(),
{
    if replies.len() > 0 {
        every_report_is_answered(replies.drop_last());
        assert(answered(replies) =~= replies.filter_map(|r: Option<WorkerStatus>| r));
    }
}

/// An upgrade that is asked for is carried out as it was asked for, and a question for the status
/// is answered. A shutdown goes to every worker, once each, and is answered with a yes.
pub proof fn requests_are_carried_out(
    binary_path: Option<String>,
    include_tls: bool,
    canary_secs: Option<u64>,
    only_role: Option<String>,
    grace_ms: u64,
    plan: AdminPlan,
    role: WorkerRole,
)
    ensures
        plan_answers(
            ControlMsg::Upgrade { binary_path, include_tls, canary_secs, only_role },
            plan,
        ) ==> plan == AdminPlan::Upgrade(
            RollingUpgradeRequest { binary_path, include_tls, canary_secs, only_role },
        ),
        plan_answers(ControlMsg::Status, plan) ==> plan is Status,
        plan_answers(ControlMsg::Shutdown { grace_ms }, plan) ==> {
            &&& plan is Send
            &&& !plan->reload
            &&& plan->answer == AdminResp::Okay
            &&& plan->orders@.len() == 4
            &&& exists|i: int|
                0 <= i < 4 && (#[trigger] plan->orders@[i]).0 == role && plan->orders@[i].1
                    is Shutdown
        },
{
    if plan_answers(ControlMsg::Shutdown { grace_ms }, plan) {
        let k: int = match role {
            WorkerRole::Plain => 0,
            WorkerRole::Tls => 1,
            WorkerRole::Scanner => 2,
            WorkerRole::Processor => 3,
        };
        assert(plan->orders@[k].0 == role);
    }
}

} // verus!

//! A worker's end of the control connection, and the events that its main loop waits for.

use vstd::prelude::*;

use crate::control::{ControlMsg, RateLimiterStats, WorkerStatus};

verus! {

/// An upgrade that was asked for.
#[derive(Debug)]
pub struct UpgradeReq {
    pub binary_path: Option<String>,
}

/// What a worker says of itself in every report.
#[derive(Debug)]
pub struct StatusCtx {
    pub role: String,
    pub generation: u64,
    pub started_at_unix_ms: u64,
    pub listener_addr: String,
}

/// The limiter's figures as they are reported: not at all while all of them are zero.
pub open spec fn reported_stats(figures: Option<(usize, u64, u64, u64)>) -> Option<
    RateLimiterStats,
> {
    match figures {
        Some((tracked_ips, idle_evictions, lru_evictions, cap_refused)) => if tracked_ips > 0
            || idle_evictions > 0 || lru_evictions > 0 || cap_refused > 0 {
            Some(RateLimiterStats { tracked_ips, idle_evictions, lru_evictions, cap_refused })
        } else {
            None
        },
        None => None,
    }
}

impl StatusCtx {
    /// The report at this moment. `figures` are those of the rate limiter, where there is one.
    pub fn snapshot(
        &self,
        pid: u32,
        in_flight: u64,
        figures: Option<(usize, u64, u64, u64)>,
    ) -> (s: WorkerStatus)
        ensures
            s.role@ == self.role@,
            s.pid == pid,
            s.generation == self.generation,
            s.started_at_unix_ms == self.started_at_unix_ms,
            s.in_flight == in_flight,
            s.listener_addr is Some && s.listener_addr->0@ == self.listener_addr@,
            s.rate_limiter_stats == reported_stats(figures),
    {
        let rate_limiter_stats = match figures {
            Some((tracked_ips, idle_evictions, lru_evictions, cap_refused)) => {
                if tracked_ips > 0 || idle_evictions > 0 || lru_evictions > 0 || cap_refused > 0 {
                    Some(
                        RateLimiterStats {
                            tracked_ips,
                            idle_evictions,
                            lru_evictions,
                            cap_refused,
                        },
                    )
                } else {
                    None
                }
            },
            None => None,
        };
        WorkerStatus {
            role: self.role.clone(),
            pid,
            generation: self.generation,
            started_at_unix_ms: self.started_at_unix_ms,
            in_flight,
            listener_addr: Some(self.listener_addr.clone()),
            rate_limiter_stats,
        }
    }
}

/// What a worker does.
#[derive(Clone, Copy, Debug, PartialEq, Eq, Structural)]
pub enum WorkerKind {
    /// Takes connections from outside.
    Acceptor,
    /// Serves the other workers.
    Inner,
}

/// What a control message sets off in a worker.
#[derive(Debug)]
pub enum ControlStep {
    /// Shut down with this many milliseconds of grace. Nothing more is read.
    Shutdown { grace_ms: u64 },
    /// Upgrade. Nothing more is read.
    Upgrade(UpgradeReq),
    /// Send a status report.
    Report,
    /// Take no more connections.
    Drain,
    /// Load the certificate again.
    ReloadCert,
    /// Read the list of admitted users again.
    ReloadAllowlist,
    Nothing,
}

/// `step` is what `msg` sets off in a worker. A message that cannot be understood sets off
/// nothing, and only acceptors have anything to drain.
pub open spec fn step_answers(kind: WorkerKind, msg: Option<ControlMsg>, step: ControlStep) -> bool {
    match msg {
        None => step is Nothing,
        Some(ControlMsg::Shutdown { grace_ms }) => step == ControlStep::Shutdown { grace_ms },
        Some(ControlMsg::Upgrade { binary_path, .. }) => step == ControlStep::Upgrade(
            UpgradeReq { binary_path },
        ),
        Some(ControlMsg::Status) => step is Report,
        Some(ControlMsg::Drain) => match kind {
            WorkerKind::Acceptor => step is Drain,
            WorkerKind::Inner => step is Nothing,
        },
        Some(ControlMsg::Reload) => match kind {
            WorkerKind::Acceptor => step is ReloadCert,
            WorkerKind::Inner => step is ReloadAllowlist,
        },
    }
}

/// Decides what a control message sets off.
pub fn run_control_client(kind: WorkerKind, msg: Option<ControlMsg>) -> (step: ControlStep)
    ensures
        step_answers(kind, msg, step),
{
    match msg {
        None => ControlStep::Nothing,
        Some(ControlMsg::Shutdown { grace_ms }) => ControlStep::Shutdown { grace_ms },
        Some(
            ControlMsg::Upgrade { binary_path, include_tls: _, canary_secs: _, only_role: _ },
        ) => ControlStep::Upgrade(UpgradeReq { binary_path }),
        Some(ControlMsg::Status) => ControlStep::Report,
        Some(ControlMsg::Drain) => match kind {
            WorkerKind::Acceptor => ControlStep::Drain,
            WorkerKind::Inner => ControlStep::Nothing,
        },
        Some(ControlMsg::Reload) => match kind {
            WorkerKind::Acceptor => ControlStep::ReloadCert,
            WorkerKind::Inner => ControlStep::ReloadAllowlist,
        },
    }
}

/// Whether the control connection is given up after this step: otherwise a worker that loses it
/// connects again.
pub fn is_terminal(step: &ControlStep) -> (r: bool)
    ensures
        r == (*step is Shutdown || *step is Upgrade),
{
    match step {
        ControlStep::Shutdown { .. } => true,
        ControlStep::Upgrade(_) => true,
        _ => false,
    }
}

/// Milliseconds until a worker that lost its control connection connects again.
pub const RECONNECT_MS: u64 = 200;

/// What reaches the main loop of a worker that serves the others, besides connections.
#[derive(Debug)]
pub enum WorkerEvent {
    /// A signal to end.
    Signal,
    /// The shutdown flag changed.
    Shutdown(bool),
    /// The upgrade request changed.
    Upgrade(Option<UpgradeReq>),
}

/// What the main loop does about it.
#[derive(Debug)]
pub enum WorkerStep {
    Go,
    Stop,
    Upgrade(UpgradeReq),
}

/// Decides about an event of the main loop.
pub fn worker_loop_step(event: WorkerEvent) -> (step: WorkerStep)
    ensures
        step == (match event {
            WorkerEvent::Signal => WorkerStep::Stop,
            WorkerEvent::Shutdown(on) => if on {
                WorkerStep::Stop
            } else {
                WorkerStep::Go
            },
            WorkerEvent::Upgrade(req) => match req {
                Some(r) => WorkerStep::Upgrade(r),
                None => WorkerStep::Go,
            },
        }),
{
    match event {
        WorkerEvent::Signal => WorkerStep::Stop,
        WorkerEvent::Shutdown(on) => {
            if on {
                WorkerStep::Stop
            } else {
                WorkerStep::Go
            }
        },
        WorkerEvent::Upgrade(req) => match req {
            Some(r) => WorkerStep::Upgrade(r),
            None => WorkerStep::Go,
        },
    }
}

// Laws
/// Figures are reported as they stand as soon as one of them is not zero; before that, and without
/// a limiter, nothing is reported.
pub proof fn figures_are_reported_as_they_stand(t: usize, i: u64, l: u64, c: u64)
    ensures
        t + i + l + c > 0 ==> reported_stats(Some((t, i, l, c))) == Some(
            RateLimiterStats {
                tracked_ips: t,
                idle_evictions: i,
                lru_evictions: l,
                cap_refused: c,
            },
        ),
        reported_stats(Some((0, 0, 0, 0))) is None,
        reported_stats(None) is None,
{
}

/// Every order is carried out by the worker that gets it: the grace and the binary are those of
/// the order. Only an acceptor drains, and each kind of worker reloads what it has.
pub proof fn orders_are_carried_out(
    kind: WorkerKind,
    step: ControlStep,
    grace: u64,
    path: Option<String>,
    include_tls: bool,
    canary_secs: Option<u64>,
    only_role: Option<String>,
)
    ensures
        step_answers(kind, Some(ControlMsg::Shutdown { grace_ms: grace }), step) ==> step
            == (ControlStep::Shutdown { grace_ms: grace }),
        step_answers(
            kind,
            Some(
                ControlMsg::Upgrade { binary_path: path, include_tls, canary_secs, only_role },
            ),
            step,
        ) ==> step == ControlStep::Upgrade(UpgradeReq { binary_path: path }),
        step_answers(kind, Some(ControlMsg::Status), step) ==> step is Report,
        step_answers(WorkerKind::Acceptor, Some(ControlMsg::Drain), step) ==> step is Drain,
        step_answers(WorkerKind::Inner, Some(ControlMsg::Drain), step) ==> step is Nothing,
        step_answers(WorkerKind::Acceptor, Some(ControlMsg::Reload), step) ==> step is ReloadCert,
        step_answers(WorkerKind::Inner, Some(ControlMsg::Reload), step) ==> step
            is ReloadAllowlist,
        step_answers(kind, None, step) ==> step is Nothing,
{
}

} // verus!

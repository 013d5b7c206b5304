//! Keeping the supervisor running where no service manager does.

use vstd::prelude::*;

use crate::time::Span;

verus! {

/// The shortest wait before a restart, in nanoseconds: 500 ms.
pub const MIN_BACKOFF: u128 = 500_000_000;

/// The longest wait before a restart, in nanoseconds: 30 s.
pub const MAX_BACKOFF: u128 = 30_000_000_000;

/// A supervisor that ran for longer than this many nanoseconds starts the waits over: 60 s.
pub const HEALTHY_UPTIME: u128 = 60_000_000_000;

/// How a run of the supervisor ended.
#[derive(Clone, Copy, Debug, PartialEq, Eq, Structural)]
pub enum Outcome {
    Exited { success: bool, uptime: Span },
    /// We were told to end.
    Signaled,
}

/// What follows.
#[derive(Clone, Copy, Debug, PartialEq, Eq, Structural)]
pub enum NextStep {
    /// Pass the signal on, wait for the supervisor, and end.
    ForwardAndStop,
    Stop,
    /// Kill what is left of its workers, wait this long, and start it again.
    RespawnAfter(Span),
}

/// Twice the wait, but no more than the longest.
pub open spec fn longer(nanos: nat) -> nat {
    if nanos * 2 <= MAX_BACKOFF {
        nanos * 2
    } else {
        MAX_BACKOFF as nat
    }
}

/// The wait that follows `backoff`.
pub fn next_backoff(backoff: Span) -> (b: Span)
    requires
        backoff.nanos <= MAX_BACKOFF,
    ensures
        b.nanos == longer(backoff.nanos as nat),
        b.nanos <= MAX_BACKOFF,
{
    let twice: u128 = backoff.nanos * 2;
    if twice <= MAX_BACKOFF {
        Span { nanos: twice }
    } else {
        Span { nanos: MAX_BACKOFF }
    }
}

/// The wait before a restart, after a run of `uptime`: a healthy run starts over.
pub open spec fn wait_before(backoff: nat, uptime: nat) -> nat {
    if uptime > HEALTHY_UPTIME {
        MIN_BACKOFF as nat
    } else {
        backoff
    }
}

/// The wait before a restart, after a run of `uptime`.
pub fn restart_wait(backoff: Span, uptime: Span) -> (b: Span)
    ensures
        b.nanos == wait_before(backoff.nanos as nat, uptime.nanos as nat),
{
    if uptime.nanos > HEALTHY_UPTIME {
        Span { nanos: MIN_BACKOFF }
    } else {
        backoff
    }
}

/// Watches over the supervisor.
#[derive(Clone, Copy, Debug, PartialEq, Eq, Structural)]
pub struct Grandparent {
    pub backoff: Span,
}

impl Grandparent {
    /// The wait is within its bounds.
    pub open spec fn well_formed(self) -> bool {
        MIN_BACKOFF <= self.backoff.nanos <= MAX_BACKOFF
    }

    pub fn new() -> (g: Self)
        ensures
            g.backoff.nanos == MIN_BACKOFF,
            g.well_formed(),
    {
        Grandparent { backoff: Span { nanos: MIN_BACKOFF } }
    }

    /// Decides after a run. Only a crash leads to a restart, and each makes the next wait longer.
    pub fn run_ended(&mut self, outcome: Outcome) -> (step: NextStep)
        requires
            old(self).well_formed(),
        ensures
            final(self).well_formed(),
            step == step_after_run(old(self).backoff.nanos as nat, outcome),
            match outcome {
                Outcome::Signaled => step == NextStep::ForwardAndStop && *final(self) == *old(self),
                Outcome::Exited { success, uptime } => if success {
                    step == NextStep::Stop && *final(self) == *old(self)
                } else {
                    let wait = wait_before(old(self).backoff.nanos as nat, uptime.nanos as nat);
                    &&& step == NextStep::RespawnAfter(Span { nanos: wait as u128 })
                    &&& final(self).backoff.nanos == longer(wait)
                },
            },
    {
        match outcome {
            Outcome::Signaled => NextStep::ForwardAndStop,
            Outcome::Exited { success, uptime } => {
                if success {
                    return NextStep::Stop;
                }
                let wait = restart_wait(self.backoff, uptime);
                self.backoff = next_backoff(wait);
                NextStep::RespawnAfter(wait)
            },
        }
    }
}

/// The wait after `n` crashes in a row.
pub open spec fn wait_at(n: nat) -> nat
    decreases n,
{
    if n == 0 {
        MIN_BACKOFF as nat
    } else {
        longer(wait_at((n - 1) as nat))
    }
}

/// The waits of a supervisor that keeps crashing never get shorter, stay within their bounds, and
/// reach the longest.
pub proof fn waits_grow_to_the_longest(n: nat)
    ensures
        MIN_BACKOFF <= wait_at(n) <= wait_at(n + 1) <= MAX_BACKOFF,
        n >= 6 ==> wait_at(n) == MAX_BACKOFF,
    decreases n,
{
    if n > 0 {
        waits_grow_to_the_longest((n - 1) as nat);
    }
    reveal_with_fuel(wait_at, 7);
}

/// The waits of a supervisor that keeps crashing: half a second, then twice as long each time,
/// and thirty seconds once that is reached.
pub proof fn waits_double_from_half_a_second(n: nat)
    ensures
        wait_at(n) == (if n < 6 {
            500_000_000 * vstd::arithmetic::power2::pow2(n)
        } else {
            30_000_000_000
        }),
{
    vstd::arithmetic::power2::lemma2_to64();
    waits_grow_to_the_longest(n);
    reveal_with_fuel(wait_at, 7);
}

/// A run of up to a minute leaves the wait as it had grown; a longer one starts over. No wait goes
/// beyond thirty seconds, and a shorter one doubles.
pub proof fn only_a_long_run_starts_the_waits_over(backoff: nat, uptime: nat)
    ensures
        uptime <= 60_000_000_000 ==> wait_before(backoff, uptime) == backoff,
        uptime > 60_000_000_000 ==> wait_before(backoff, uptime) == 500_000_000,
        backoff <= 15_000_000_000 ==> longer(backoff) == backoff + backoff,
        backoff > 15_000_000_000 ==> longer(backoff) == 30_000_000_000,
{
}

/// What follows a run, where the wait stands at `backoff`.
pub open spec fn step_after_run(backoff: nat, outcome: Outcome) -> NextStep {
    match outcome {
        Outcome::Signaled => NextStep::ForwardAndStop,
        Outcome::Exited { success, uptime } => if success {
            NextStep::Stop
        } else {
            NextStep::RespawnAfter(
                Span { nanos: wait_before(backoff, uptime.nanos as nat) as u128 },
            )
        },
    }
}

/// Only a crash leads to a restart. After a short run it waits as long as the wait has grown, after
/// a run of more than a minute half a second.
pub proof fn only_a_crash_leads_to_a_restart(backoff: u128, outcome: Outcome, uptime: Span)
    ensures
        step_after_run(backoff as nat, outcome) is RespawnAfter <==> outcome is Exited
            && !outcome->success,
        step_after_run(backoff as nat, Outcome::Signaled) == NextStep::ForwardAndStop,
        step_after_run(backoff as nat, Outcome::Exited { success: true, uptime })
            == NextStep::Stop,
        uptime.nanos <= 60_000_000_000 ==> step_after_run(
            backoff as nat,
            Outcome::Exited { success: false, uptime },
        ) == NextStep::RespawnAfter(Span { nanos: backoff }),
        uptime.nanos > 60_000_000_000 ==> step_after_run(
            backoff as nat,
            Outcome::Exited { success: false, uptime },
        ) == NextStep::RespawnAfter(Span { nanos: 500_000_000 }),
{
}

} // verus!

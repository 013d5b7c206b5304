//! The metrics text that the supervisor leaves for a textfile collector.

use vstd::prelude::*;

use crate::control::{HealthState, RateLimiterStats, RoleHealth, WorkerStatus};
use crate::roles::{every_role, role_name, role_named, role_names_are_unambiguous, WorkerRole};
use crate::text::{
    decimal, decimal_text, push_decimal, push_zero_padded, same_text, zero_padded,
};

verus! {

/// Seconds with three decimals.
pub open spec fn seconds_text(ms: u64) -> Seq<char> {
    decimal((ms / 1000) as nat) + "."@ + zero_padded((ms % 1000) as nat, 3)
}

/// Milliseconds, shown as seconds.
pub fn unix_ms_as_seconds(ms: u64) -> (s: String)
    ensures
        s@ == seconds_text(ms),
{
    let mut s = decimal_text(ms / 1000);
    s.append(".");
    push_zero_padded(&mut s, ms % 1000, 3);
    s
}

/// One count per role. A count starts over after 2^64.
#[derive(Clone, Copy, Debug, PartialEq, Eq, Structural)]
pub struct RoleCounts {
    pub processor: u64,
    pub plain: u64,
    pub tls: u64,
    pub scanner: u64,
}

impl RoleCounts {
    pub open spec fn count(self, role: WorkerRole) -> u64 {
        match role {
            WorkerRole::Processor => self.processor,
            WorkerRole::Plain => self.plain,
            WorkerRole::Tls => self.tls,
            WorkerRole::Scanner => self.scanner,
        }
    }

    /// These counts with one more for the role of that name; the same where no role has it.
    pub open spec fn bumped(self, name: Seq<char>) -> RoleCounts {
        match role_named(name) {
            Some(WorkerRole::Processor) => RoleCounts {
                processor: self.processor.wrapping_add(1),
                ..self
            },
            Some(WorkerRole::Plain) => RoleCounts { plain: self.plain.wrapping_add(1), ..self },
            Some(WorkerRole::Tls) => RoleCounts { tls: self.tls.wrapping_add(1), ..self },
            Some(WorkerRole::Scanner) => RoleCounts {
                scanner: self.scanner.wrapping_add(1),
                ..self
            },
            None => self,
        }
    }

    fn zero() -> (c: RoleCounts)
        ensures
            forall|r: WorkerRole| c.count(r) == 0,
    {
        RoleCounts { processor: 0, plain: 0, tls: 0, scanner: 0 }
    }

    fn bump(self, name: &str) -> (c: RoleCounts)
        ensures
            c == self.bumped(name@),
    {
        match WorkerRole::named(name) {
            Some(WorkerRole::Processor) => RoleCounts {
                processor: self.processor.wrapping_add(1),
                plain: self.plain,
                tls: self.tls,
                scanner: self.scanner,
            },
            Some(WorkerRole::Plain) => RoleCounts {
                processor: self.processor,
                plain: self.plain.wrapping_add(1),
                tls: self.tls,
                scanner: self.scanner,
            },
            Some(WorkerRole::Tls) => RoleCounts {
                processor: self.processor,
                plain: self.plain,
                tls: self.tls.wrapping_add(1),
                scanner: self.scanner,
            },
            Some(WorkerRole::Scanner) => RoleCounts {
                processor: self.processor,
                plain: self.plain,
                tls: self.tls,
                scanner: self.scanner.wrapping_add(1),
            },
            None => self,
        }
    }

    fn of(&self, role: WorkerRole) -> (n: u64)
        ensures
            n == self.count(role),
    {
        match role {
            WorkerRole::Processor => self.processor,
            WorkerRole::Plain => self.plain,
            WorkerRole::Tls => self.tls,
            WorkerRole::Scanner => self.scanner,
        }
    }
}

/// How the upgrades of each role ended. A role counts as committed when its generation was seen
/// to move on; a worker that rolled back counts as timed out.
#[derive(Clone, Copy, Debug, PartialEq, Eq, Structural)]
pub struct UpgradeCounters {
    pub committed: RoleCounts,
    pub timed_out: RoleCounts,
    pub canary_aborted: RoleCounts,
    pub skipped: RoleCounts,
}

impl UpgradeCounters {
    pub fn new() -> (c: Self)
        ensures
            forall|r: WorkerRole|
                c.committed.count(r) == 0 && c.timed_out.count(r) == 0 && c.canary_aborted.count(r)
                    == 0 && c.skipped.count(r) == 0,
    {
        UpgradeCounters {
            committed: RoleCounts::zero(),
            timed_out: RoleCounts::zero(),
            canary_aborted: RoleCounts::zero(),
            skipped: RoleCounts::zero(),
        }
    }

    pub fn incr_committed(&mut self, role: &str)
        ensures
            *final(self) == (UpgradeCounters {
                committed: old(self).committed.bumped(role@),
                ..*old(self)
            }),
    {
        self.committed = self.committed.bump(role);
    }

    pub fn incr_timed_out(&mut self, role: &str)
        ensures
            *final(self) == (UpgradeCounters {
                timed_out: old(self).timed_out.bumped(role@),
                ..*old(self)
            }),
    {
        self.timed_out = self.timed_out.bump(role);
    }

    pub fn incr_canary_aborted(&mut self, role: &str)
        ensures
            *final(self) == (UpgradeCounters {
                canary_aborted: old(self).canary_aborted.bumped(role@),
                ..*old(self)
            }),
    {
        self.canary_aborted = self.canary_aborted.bump(role);
    }

    pub fn incr_skipped(&mut self, role: &str)
        ensures
            *final(self) == (UpgradeCounters {
                skipped: old(self).skipped.bumped(role@),
                ..*old(self)
            }),
    {
        self.skipped = self.skipped.bump(role);
    }

    /// The rows of one outcome, one for each role.
    fn push_rows(out: &mut Vec<UpgradeMetric>, counts: &RoleCounts, outcome: &'static str)
        ensures
            metric_views(final(out)@) == metric_views(old(out)@) + outcome_rows(*counts, outcome@),
    {
        let ghost start = metric_views(out@);
        let roles = WorkerRole::all();
        let mut i: usize = 0;
        while i < roles.len()
            invariant
                roles@ == every_role(),
                i <= 4,
                start == metric_views(old(out)@),
                metric_views(out@) == start + outcome_rows(*counts, outcome@).take(i as int),
            decreases 4 - i,
        {
            let role = roles[i];
            let value: u64 = counts.of(role);
            let ghost before = out@;
            out.push(UpgradeMetric { role: role.name().to_owned(), outcome, value });
            proof {
                assert(metric_views(out@) =~= metric_views(before).push(
                    (role_name(role), outcome@, value),
                ));
                assert(outcome_rows(*counts, outcome@)[i as int] == (
                    role_name(role),
                    outcome@,
                    value,
                ));
            }
            i = i + 1;
        }
    }

    fn snapshot(&self) -> (out: Vec<UpgradeMetric>)
        ensures
            metric_views(out@) == upgrade_rows(*self),
    {
        let mut out: Vec<UpgradeMetric> = Vec::new();
        proof {
            assert(metric_views(out@) =~= seq![]);
        }
        Self::push_rows(&mut out, &self.committed, "committed");
        Self::push_rows(&mut out, &self.timed_out, "timed_out");
        Self::push_rows(&mut out, &self.canary_aborted, "canary_aborted");
        Self::push_rows(&mut out, &self.skipped, "skipped");
        proof {
            assert(metric_views(out@) =~= upgrade_rows(*self));
        }
        out
    }
}

#[derive(Debug)]
pub struct UpgradeMetric {
    pub role: String,
    pub outcome: &'static str,
    pub value: u64,
}

/// Role, outcome and count of each row.
pub open spec fn metric_views(v: Seq<UpgradeMetric>) -> Seq<(Seq<char>, Seq<char>, u64)> {
    Seq::new(v.len(), |i: int| (v[i].role@, v[i].outcome@, v[i].value))
}

/// The rows of one outcome.
pub open spec fn outcome_rows(c: RoleCounts, outcome: Seq<char>) -> Seq<
    (Seq<char>, Seq<char>, u64),
> {
    Seq::new(
        every_role().len(),
        |i: int| (role_name(every_role()[i]), outcome, c.count(every_role()[i])),
    )
}

/// Every outcome of every role.
pub open spec fn upgrade_rows(c: UpgradeCounters) -> Seq<(Seq<char>, Seq<char>, u64)> {
    outcome_rows(c.committed, "committed"@) + outcome_rows(c.timed_out, "timed_out"@)
        + outcome_rows(c.canary_aborted, "canary_aborted"@) + outcome_rows(c.skipped, "skipped"@)
}

/// Everything that the supervisor shows.
#[derive(Debug)]
pub struct MetricsSnapshot {
    pub supervisor_generation: u64,
    pub supervisor_started_at_unix_ms: u64,
    pub roles: Vec<RoleMetrics>,
    pub upgrades: Vec<UpgradeMetric>,
}

#[derive(Debug)]
pub struct RoleMetrics {
    pub role: String,
    pub generation: u64,
    pub in_flight: u64,
    pub pid: u32,
    pub health: HealthState,
    pub consecutive_fast_exits: u32,
    pub total_restarts: u64,
    pub last_restart_at_unix_ms: Option<u64>,
    pub rate_limiter_stats: Option<RateLimiterStats>,
}

/// The place of the first report on `role`, or the number of reports.
pub open spec fn report_on(statuses: Seq<WorkerStatus>, role: Seq<char>) -> int
    decreases statuses.len(),
{
    if statuses.len() == 0 || statuses[0].role@ == role {
        0
    } else {
        1 + report_on(statuses.skip(1), role)
    }
}

/// `r` shows health `h` together with the first report on its role: no report shows as zeros.
pub open spec fn shows(r: RoleMetrics, h: RoleHealth, statuses: Seq<WorkerStatus>) -> bool {
    let k = report_on(statuses, h.role@);
    &&& r.role@ == h.role@
    &&& r.health == h.state
    &&& r.consecutive_fast_exits == h.consecutive_fast_exits
    &&& r.total_restarts == h.total_restarts
    &&& r.last_restart_at_unix_ms == h.last_restart_at_unix_ms
    &&& if k < statuses.len() {
        &&& r.generation == statuses[k].generation
        &&& r.in_flight == statuses[k].in_flight
        &&& r.pid == statuses[k].pid
        &&& r.rate_limiter_stats == statuses[k].rate_limiter_stats
    } else {
        r.generation == 0 && r.in_flight == 0 && r.pid == 0 && r.rate_limiter_stats is None
    }
}

proof fn lemma_report_on(statuses: Seq<WorkerStatus>, role: Seq<char>, k: int)
    requires
        0 <= k <= statuses.len(),
        forall|j: int| 0 <= j < k ==> (#[trigger] statuses[j]).role@ != role,
        k < statuses.len() ==> statuses[k].role@ == role,
    ensures
        report_on(statuses, role) == k,
    decreases statuses.len(),
{
    if statuses.len() > 0 && k > 0 {
        assert(statuses[0].role@ != role);
        let rest = statuses.skip(1);
        assert forall|j: int| 0 <= j < k - 1 implies (#[trigger] rest[j]).role@ != role by {
            assert(rest[j] == statuses[j + 1]);
        }
        lemma_report_on(rest, role, k - 1);
    }
}

pub(crate) fn find_report(statuses: &Vec<WorkerStatus>, role: &str) -> (k: usize)
    ensures
        k == report_on(statuses@, role@),
        k <= statuses@.len(),
{
    let mut k: usize = 0;
    while k < statuses.len()
        invariant
            k <= statuses@.len(),
            forall|j: int| 0 <= j < k ==> (#[trigger] statuses@[j]).role@ != role@,
        decreases statuses.len() - k,
    {
        if same_text(statuses[k].role.as_str(), role) {
            proof {
                lemma_report_on(statuses@, role@, k as int);
            }
            return k;
        }
        k = k + 1;
    }
    proof {
        lemma_report_on(statuses@, role@, k as int);
    }
    k
}

/// `# HELP` and `# TYPE` of a metric.
pub open spec fn header_text(name: Seq<char>, help: Seq<char>, kind: Seq<char>) -> Seq<char> {
    "# HELP "@ + name + " "@ + help + "\n# TYPE "@ + name + " "@ + kind + "\n"@
}

/// One sample of a metric that has a role.
pub open spec fn sample_text(name: Seq<char>, role: Seq<char>, value: Seq<char>) -> Seq<char> {
    name + "{role=\""@ + role + "\"} "@ + value + "\n"@
}

/// One sample of a metric that has a role and a second label.
pub open spec fn labelled_text(
    name: Seq<char>,
    role: Seq<char>,
    label: Seq<char>,
    label_value: Seq<char>,
    value: Seq<char>,
) -> Seq<char> {
    name + "{role=\""@ + role + "\","@ + label + "=\""@ + label_value + "\"} "@ + value + "\n"@
}

fn write_metric_header(s: &mut String, name: &str, help: &str, kind: &str)
    ensures
        final(s)@ == old(s)@ + header_text(name@, help@, kind@),
{
    let mut t = "# HELP ".to_owned();
    t.append(name);
    t.append(" ");
    t.append(help);
    t.append("\n# TYPE ");
    t.append(name);
    t.append(" ");
    t.append(kind);
    t.append("\n");
    s.append(t.as_str());
}

fn write_sample(s: &mut String, name: &str, role: &str, value: &str)
    ensures
        final(s)@ == old(s)@ + sample_text(name@, role@, value@),
{
    let mut t = name.to_owned();
    t.append("{role=\"");
    t.append(role);
    t.append("\"} ");
    t.append(value);
    t.append("\n");
    s.append(t.as_str());
}

fn write_labelled(s: &mut String, name: &str, role: &str, label: &str, label_value: &str, value: u64)
    ensures
        final(s)@ == old(s)@ + labelled_text(
            name@,
            role@,
            label@,
            label_value@,
            decimal(value as nat),
        ),
{
    let mut t = name.to_owned();
    t.append("{role=\"");
    t.append(role);
    t.append("\",");
    t.append(label);
    t.append("=\"");
    t.append(label_value);
    t.append("\"} ");
    push_decimal(&mut t, value);
    t.append("\n");
    s.append(t.as_str());
}

/// What is shown of a role.
#[derive(Clone, Copy, Debug, PartialEq, Eq, Structural)]
pub enum RoleField {
    Generation,
    InFlight,
    Pid,
    Health,
    FastExits,
    Restarts,
    LastRestart,
}

/// Health as a number.
pub open spec fn health_code(h: HealthState) -> nat {
    match h {
        HealthState::Healthy => 0,
        HealthState::Backoff => 1,
        HealthState::Flapping => 2,
        HealthState::Failed => 3,
    }
}

/// The value of a field as it is shown.
pub open spec fn field_text(r: RoleMetrics, field: RoleField) -> Seq<char> {
    match field {
        RoleField::Generation => decimal(r.generation as nat),
        RoleField::InFlight => decimal(r.in_flight as nat),
        RoleField::Pid => decimal(r.pid as nat),
        RoleField::Health => decimal(health_code(r.health)),
        RoleField::FastExits => decimal(r.consecutive_fast_exits as nat),
        RoleField::Restarts => decimal(r.total_restarts as nat),
        RoleField::LastRestart => match r.last_restart_at_unix_ms {
            Some(ms) => seconds_text(ms),
            None => "0"@,
        },
    }
}

impl RoleMetrics {
    fn show(&self, field: RoleField) -> (s: String)
        ensures
            s@ == field_text(*self, field),
    {
        match field {
            RoleField::Generation => decimal_text(self.generation),
            RoleField::InFlight => decimal_text(self.in_flight),
            RoleField::Pid => decimal_text(self.pid as u64),
            RoleField::Health => {
                let code: u64 = match self.health {
                    HealthState::Healthy => 0,
                    HealthState::Backoff => 1,
                    HealthState::Flapping => 2,
                    HealthState::Failed => 3,
                };
                decimal_text(code)
            },
            RoleField::FastExits => decimal_text(self.consecutive_fast_exits as u64),
            RoleField::Restarts => decimal_text(self.total_restarts),
            RoleField::LastRestart => match self.last_restart_at_unix_ms {
                Some(ms) => unix_ms_as_seconds(ms),
                None => "0".to_owned(),
            },
        }
    }
}

/// One sample per role.
pub open spec fn role_samples(name: Seq<char>, roles: Seq<RoleMetrics>, field: RoleField) -> Seq<
    char,
>
    decreases roles.len(),
{
    if roles.len() == 0 {
        seq![]
    } else {
        role_samples(name, roles.drop_last(), field) + sample_text(
            name,
            roles.last().role@,
            field_text(roles.last(), field),
        )
    }
}

/// A whole family: header and one sample per role.
pub open spec fn role_family(
    name: Seq<char>,
    help: Seq<char>,
    kind: Seq<char>,
    roles: Seq<RoleMetrics>,
    field: RoleField,
) -> Seq<char> {
    header_text(name, help, kind) + role_samples(name, roles, field)
}

fn write_role_family(
    s: &mut String,
    name: &str,
    help: &str,
    kind: &str,
    roles: &Vec<RoleMetrics>,
    field: RoleField,
)
    ensures
        final(s)@ == old(s)@ + role_family(name@, help@, kind@, roles@, field),
{
    let ghost start = s@;
    write_metric_header(s, name, help, kind);
    let ghost head = header_text(name@, help@, kind@);
    let mut i: usize = 0;
    proof {
        assert(roles@.take(0) =~= seq![]);
        assert(s@ =~= start + (head + role_samples(name@, roles@.take(0), field)));
    }
    while i < roles.len()
        invariant
            i <= roles@.len(),
            s@ == start + (head + role_samples(name@, roles@.take(i as int), field)),
        decreases roles.len() - i,
    {
        let value = roles[i].show(field);
        write_sample(s, name, roles[i].role.as_str(), value.as_str());
        proof {
            let next = roles@.take(i + 1);
            assert(next.drop_last() =~= roles@.take(i as int));
            assert(next.last() == roles@[i as int]);
            let line = sample_text(name@, roles@[i as int].role@, value@);
            assert(start + (head + role_samples(name@, roles@.take(i as int), field)) + line
                =~= start + (head + (role_samples(name@, roles@.take(i as int), field) + line)));
        }
        i = i + 1;
    }
    proof {
        assert(roles@.take(roles@.len() as int) =~= roles@);
    }
}

/// One sample per upgrade row.
pub open spec fn upgrade_samples(rows: Seq<(Seq<char>, Seq<char>, u64)>) -> Seq<char>
    decreases rows.len(),
{
    if rows.len() == 0 {
        seq![]
    } else {
        upgrade_samples(rows.drop_last()) + labelled_text(
            "fdpass_upgrade_total"@,
            rows.last().0,
            "outcome"@,
            rows.last().1,
            decimal(rows.last().2 as nat),
        )
    }
}

/// How many addresses each role tracks, for the roles that report it.
pub open spec fn tracked_samples(roles: Seq<RoleMetrics>) -> Seq<char>
    decreases roles.len(),
{
    if roles.len() == 0 {
        seq![]
    } else {
        tracked_samples(roles.drop_last()) + match roles.last().rate_limiter_stats {
            Some(st) => sample_text(
                "fdpass_ratelimit_tracked_ips"@,
                roles.last().role@,
                decimal(st.tracked_ips as nat),
            ),
            None => seq![],
        }
    }
}

/// One sample of dropped buckets.
pub open spec fn eviction_text(role: Seq<char>, reason: Seq<char>, n: u64) -> Seq<char> {
    labelled_text(
        "fdpass_ratelimit_evictions_total"@,
        role,
        "reason"@,
        reason,
        decimal(n as nat),
    )
}

/// Dropped buckets of each role that reports them, by reason.
pub open spec fn eviction_samples(roles: Seq<RoleMetrics>) -> Seq<char>
    decreases roles.len(),
{
    if roles.len() == 0 {
        seq![]
    } else {
        eviction_samples(roles.drop_last()) + match roles.last().rate_limiter_stats {
            Some(st) => eviction_text(roles.last().role@, "idle"@, st.idle_evictions)
                + eviction_text(roles.last().role@, "lru"@, st.lru_evictions) + eviction_text(
                roles.last().role@,
                "cap_refused"@,
                st.cap_refused,
            ),
            None => seq![],
        }
    }
}

impl MetricsSnapshot {
    pub open spec fn supervisor_text(&self) -> Seq<char> {
        header_text(
            "fdpass_supervisor_generation"@,
            "Current supervisor generation."@,
            "gauge"@,
        ) + ("fdpass_supervisor_generation "@ + decimal(self.supervisor_generation as nat)
            + "\n"@) + header_text(
            "fdpass_supervisor_started_at_seconds"@,
            "Unix epoch when this supervisor started."@,
            "gauge"@,
        ) + ("fdpass_supervisor_started_at_seconds "@ + seconds_text(
            self.supervisor_started_at_unix_ms,
        ) + "\n"@)
    }

    pub open spec fn identity_text(&self) -> Seq<char> {
        role_family(
            "fdpass_worker_generation"@,
            "Current generation of the worker process."@,
            "gauge"@,
            self.roles@,
            RoleField::Generation,
        ) + role_family(
            "fdpass_worker_in_flight"@,
            "Currently-tracked sessions for the worker."@,
            "gauge"@,
            self.roles@,
            RoleField::InFlight,
        ) + role_family(
            "fdpass_worker_pid"@,
            "Current worker pid (0 if no live worker)."@,
            "gauge"@,
            self.roles@,
            RoleField::Pid,
        )
    }

    pub open spec fn health_text(&self) -> Seq<char> {
        role_family(
            "fdpass_worker_health"@,
            "Watchdog state (0=healthy 1=backoff 2=flapping 3=failed)."@,
            "gauge"@,
            self.roles@,
            RoleField::Health,
        ) + role_family(
            "fdpass_worker_consecutive_fast_exits"@,
            "Current fast-exit counter."@,
            "gauge"@,
            self.roles@,
            RoleField::FastExits,
        )
    }

    pub open spec fn restart_text(&self) -> Seq<char> {
        role_family(
            "fdpass_worker_restarts_total"@,
            "Total times the watchdog respawned the worker."@,
            "counter"@,
            self.roles@,
            RoleField::Restarts,
        ) + role_family(
            "fdpass_worker_last_restart_seconds"@,
            "Unix epoch of the most recent respawn (0 if never)."@,
            "gauge"@,
            self.roles@,
            RoleField::LastRestart,
        )
    }

    pub open spec fn upgrade_text(&self) -> Seq<char> {
        header_text(
            "fdpass_upgrade_total"@,
            "Per-role upgrade outcomes (committed/timed_out/canary_aborted/skipped)."@,
            "counter"@,
        ) + upgrade_samples(metric_views(self.upgrades@))
    }

    pub open spec fn rate_limiter_text(&self) -> Seq<char> {
        header_text(
            "fdpass_ratelimit_tracked_ips"@,
            "Current number of tracked IPs in per-IP rate limiter."@,
            "gauge"@,
        ) + tracked_samples(self.roles@) + (header_text(
            "fdpass_ratelimit_evictions_total"@,
            "Total rate limiter bucket evictions by reason."@,
            "counter"@,
        ) + eviction_samples(self.roles@))
    }

    /// The whole exposition.
    pub open spec fn text(&self) -> Seq<char> {
        self.supervisor_text() + self.identity_text() + self.health_text() + self.restart_text()
            + self.upgrade_text() + self.rate_limiter_text()
    }

    /// Joins each role's health with the first report on it.
    pub fn from_parts(
        supervisor_generation: u64,
        supervisor_started_at_unix_ms: u64,
        statuses: &Vec<WorkerStatus>,
        healths: &Vec<RoleHealth>,
        upgrades: &UpgradeCounters,
    ) -> (m: Self)
        ensures
            m.supervisor_generation == supervisor_generation,
            m.supervisor_started_at_unix_ms == supervisor_started_at_unix_ms,
            m.roles@.len() == healths@.len(),
            forall|i: int|
                0 <= i < healths@.len() ==> shows(#[trigger] m.roles@[i], healths@[i], statuses@),
            metric_views(m.upgrades@) == upgrade_rows(*upgrades),
    {
        let mut roles: Vec<RoleMetrics> = Vec::new();
        let mut i: usize = 0;
        while i < healths.len()
            invariant
                i <= healths@.len(),
                roles@.len() == i,
                forall|j: int|
                    0 <= j < i ==> shows(#[trigger] roles@[j], healths@[j], statuses@),
            decreases healths.len() - i,
        {
            let h = &healths[i];
            let k = find_report(statuses, h.role.as_str());
            let mut row = RoleMetrics {
                role: h.role.clone(),
                generation: 0,
                in_flight: 0,
                pid: 0,
                health: h.state,
                consecutive_fast_exits: h.consecutive_fast_exits,
                total_restarts: h.total_restarts,
                last_restart_at_unix_ms: h.last_restart_at_unix_ms,
                rate_limiter_stats: None,
            };
            if k < statuses.len() {
                row.generation = statuses[k].generation;
                row.in_flight = statuses[k].in_flight;
                row.pid = statuses[k].pid;
                row.rate_limiter_stats = statuses[k].rate_limiter_stats;
            }
            proof {
                assert(shows(row, healths@[i as int], statuses@));
            }
            roles.push(row);
            i = i + 1;
        }
        MetricsSnapshot {
            supervisor_generation,
            supervisor_started_at_unix_ms,
            roles,
            upgrades: upgrades.snapshot(),
        }
    }

    /// The text of the metrics file.
    pub fn render(&self) -> (s: String)
        ensures
            s@ == self.text(),
    {
        let mut s = String::new();
        self.write_supervisor_metrics(&mut s);
        self.write_worker_identity_metrics(&mut s);
        self.write_worker_health_metrics(&mut s);
        self.write_worker_restart_metrics(&mut s);
        self.write_upgrade_metrics(&mut s);
        self.write_rate_limiter_metrics(&mut s);
        proof {
            assert(Seq::<char>::empty() + self.supervisor_text() =~= self.supervisor_text());
        }
        s
    }

    fn write_supervisor_metrics(&self, s: &mut String)
        ensures
            final(s)@ == old(s)@ + self.supervisor_text(),
    {
        let ghost start = s@;
        write_metric_header(
            s,
            "fdpass_supervisor_generation",
            "Current supervisor generation.",
            "gauge",
        );
        let mut t = "fdpass_supervisor_generation ".to_owned();
        push_decimal(&mut t, self.supervisor_generation);
        t.append("\n");
        s.append(t.as_str());
        write_metric_header(
            s,
            "fdpass_supervisor_started_at_seconds",
            "Unix epoch when this supervisor started.",
            "gauge",
        );
        let mut u = "fdpass_supervisor_started_at_seconds ".to_owned();
        u.append(unix_ms_as_seconds(self.supervisor_started_at_unix_ms).as_str());
        u.append("\n");
        s.append(u.as_str());
        proof {
            assert(s@ =~= start + self.supervisor_text());
        }
    }

    fn write_worker_identity_metrics(&self, s: &mut String)
        ensures
            final(s)@ == old(s)@ + self.identity_text(),
    {
        let ghost start = s@;
        write_role_family(
            s,
            "fdpass_worker_generation",
            "Current generation of the worker process.",
            "gauge",
            &self.roles,
            RoleField::Generation,
        );
        write_role_family(
            s,
            "fdpass_worker_in_flight",
            "Currently-tracked sessions for the worker.",
            "gauge",
            &self.roles,
            RoleField::InFlight,
        );
        write_role_family(
            s,
            "fdpass_worker_pid",
            "Current worker pid (0 if no live worker).",
            "gauge",
            &self.roles,
            RoleField::Pid,
        );
        proof {
            assert(s@ =~= start + self.identity_text());
        }
    }

    fn write_worker_health_metrics(&self, s: &mut String)
        ensures
            final(s)@ == old(s)@ + self.health_text(),
    {
        let ghost start = s@;
        write_role_family(
            s,
            "fdpass_worker_health",
            "Watchdog state (0=healthy 1=backoff 2=flapping 3=failed).",
            "gauge",
            &self.roles,
            RoleField::Health,
        );
        write_role_family(
            s,
            "fdpass_worker_consecutive_fast_exits",
            "Current fast-exit counter.",
            "gauge",
            &self.roles,
            RoleField::FastExits,
        );
        proof {
            assert(s@ =~= start + self.health_text());
        }
    }

    fn write_worker_restart_metrics(&self, s: &mut String)
        ensures
            final(s)@ == old(s)@ + self.restart_text(),
    {
        let ghost start = s@;
        write_role_family(
            s,
            "fdpass_worker_restarts_total",
            "Total times the watchdog respawned the worker.",
            "counter",
            &self.roles,
            RoleField::Restarts,
        );
        write_role_family(
            s,
            "fdpass_worker_last_restart_seconds",
            "Unix epoch of the most recent respawn (0 if never).",
            "gauge",
            &self.roles,
            RoleField::LastRestart,
        );
        proof {
            assert(s@ =~= start + self.restart_text());
        }
    }

    fn write_upgrade_metrics(&self, s: &mut String)
        ensures
            final(s)@ == old(s)@ + self.upgrade_text(),
    {
        let ghost start = s@;
        write_metric_header(
            s,
            "fdpass_upgrade_total",
            "Per-role upgrade outcomes (committed/timed_out/canary_aborted/skipped).",
            "counter",
        );
        let ghost head = header_text(
            "fdpass_upgrade_total"@,
            "Per-role upgrade outcomes (committed/timed_out/canary_aborted/skipped)."@,
            "counter"@,
        );
        let ghost rows = metric_views(self.upgrades@);
        let mut i: usize = 0;
        proof {
            assert(rows.take(0) =~= seq![]);
            assert(s@ =~= start + (head + upgrade_samples(rows.take(0))));
        }
        while i < self.upgrades.len()
            invariant
                rows == metric_views(self.upgrades@),
                i <= self.upgrades@.len(),
                s@ == start + (head + upgrade_samples(rows.take(i as int))),
            decreases self.upgrades.len() - i,
        {
            let u = &self.upgrades[i];
            write_labelled(
                s,
                "fdpass_upgrade_total",
                u.role.as_str(),
                "outcome",
                u.outcome,
                u.value,
            );
            proof {
                let next = rows.take(i + 1);
                assert(next.drop_last() =~= rows.take(i as int));
                assert(next.last() == rows[i as int]);
                let line = labelled_text(
                    "fdpass_upgrade_total"@,
                    u.role@,
                    "outcome"@,
                    u.outcome@,
                    decimal(u.value as nat),
                );
                assert(start + (head + upgrade_samples(rows.take(i as int))) + line =~= start + (
                head + (upgrade_samples(rows.take(i as int)) + line)));
            }
            i = i + 1;
        }
        proof {
            assert(rows.take(rows.len() as int) =~= rows);
        }
    }

    fn write_rate_limiter_metrics(&self, s: &mut String)
        ensures
            final(s)@ == old(s)@ + self.rate_limiter_text(),
    {
        let ghost start = s@;
        write_metric_header(
            s,
            "fdpass_ratelimit_tracked_ips",
            "Current number of tracked IPs in per-IP rate limiter.",
            "gauge",
        );
        let ghost head = header_text(
            "fdpass_ratelimit_tracked_ips"@,
            "Current number of tracked IPs in per-IP rate limiter."@,
            "gauge"@,
        );
        let mut i: usize = 0;
        proof {
            assert(self.roles@.take(0) =~= seq![]);
            assert(s@ =~= start + (head + tracked_samples(self.roles@.take(0))));
        }
        while i < self.roles.len()
            invariant
                i <= self.roles@.len(),
                s@ == start + (head + tracked_samples(self.roles@.take(i as int))),
            decreases self.roles.len() - i,
        {
            let r = &self.roles[i];
            let ghost sofar = tracked_samples(self.roles@.take(i as int));
            proof {
                let next = self.roles@.take(i + 1);
                assert(next.drop_last() =~= self.roles@.take(i as int));
                assert(next.last() == self.roles@[i as int]);
                assert(sofar + seq![] =~= sofar);
            }
            if let Some(st) = &r.rate_limiter_stats {
                let value = decimal_text(st.tracked_ips as u64);
                write_sample(
                    s,
                    "fdpass_ratelimit_tracked_ips",
                    r.role.as_str(),
                    value.as_str(),
                );
                proof {
                    let line = sample_text("fdpass_ratelimit_tracked_ips"@, r.role@, value@);
                    assert(start + (head + sofar) + line =~= start + (head + (sofar + line)));
                }
            }
            i = i + 1;
        }
        proof {
            assert(self.roles@.take(self.roles@.len() as int) =~= self.roles@);
        }
        let ghost half = s@;
        write_metric_header(
            s,
            "fdpass_ratelimit_evictions_total",
            "Total rate limiter bucket evictions by reason.",
            "counter",
        );
        let ghost head2 = header_text(
            "fdpass_ratelimit_evictions_total"@,
            "Total rate limiter bucket evictions by reason."@,
            "counter"@,
        );
        let mut j: usize = 0;
        proof {
            assert(s@ =~= half + (head2 + eviction_samples(self.roles@.take(0))));
        }
        while j < self.roles.len()
            invariant
                j <= self.roles@.len(),
                s@ == half + (head2 + eviction_samples(self.roles@.take(j as int))),
            decreases self.roles.len() - j,
        {
            let r = &self.roles[j];
            let ghost sofar = eviction_samples(self.roles@.take(j as int));
            proof {
                let next = self.roles@.take(j + 1);
                assert(next.drop_last() =~= self.roles@.take(j as int));
                assert(next.last() == self.roles@[j as int]);
                assert(sofar + seq![] =~= sofar);
            }
            if let Some(st) = &r.rate_limiter_stats {
                Self::write_evictions(s, r.role.as_str(), st);
                proof {
                    let lines = eviction_text(r.role@, "idle"@, st.idle_evictions)
                        + eviction_text(r.role@, "lru"@, st.lru_evictions) + eviction_text(
                        r.role@,
                        "cap_refused"@,
                        st.cap_refused,
                    );
                    assert(half + (head2 + sofar) + lines =~= half + (head2 + (sofar + lines)));
                }
            }
            j = j + 1;
        }
        proof {
            assert(self.roles@.take(self.roles@.len() as int) =~= self.roles@);
            assert(s@ =~= start + self.rate_limiter_text());
        }
    }

    fn write_evictions(s: &mut String, role: &str, st: &RateLimiterStats)
        ensures
            final(s)@ == old(s)@ + (eviction_text(role@, "idle"@, st.idle_evictions)
                + eviction_text(role@, "lru"@, st.lru_evictions) + eviction_text(
                role@,
                "cap_refused"@,
                st.cap_refused,
            )),
    {
        let ghost start = s@;
        write_labelled(
            s,
            "fdpass_ratelimit_evictions_total",
            role,
            "reason",
            "idle",
            st.idle_evictions,
        );
        write_labelled(
            s,
            "fdpass_ratelimit_evictions_total",
            role,
            "reason",
            "lru",
            st.lru_evictions,
        );
        write_labelled(
            s,
            "fdpass_ratelimit_evictions_total",
            role,
            "reason",
            "cap_refused",
            st.cap_refused,
        );
        proof {
            let a = eviction_text(role@, "idle"@, st.idle_evictions);
            let b = eviction_text(role@, "lru"@, st.lru_evictions);
            let c = eviction_text(role@, "cap_refused"@, st.cap_refused);
            assert(start + a + b + c =~= start + (a + b + c));
        }
    }
}

// Laws
/// An outcome counts once, for the role that it befell and for no other; under a name that is no
/// role's nothing counts.
pub proof fn outcome_counts_for_its_role(c: RoleCounts, role: WorkerRole, other: WorkerRole)
    requires
        c.count(role) < u64::MAX,
        other != role,
    ensures
        c.bumped(role_name(role)).count(role) == c.count(role) + 1,
        c.bumped(role_name(role)).count(other) == c.count(other),
        forall|name: Seq<char>|
            role_named(name) is None ==> #[trigger] c.bumped(name) == c,
{
    role_names_are_unambiguous(role);
}

/// Each role has one row for each outcome, with its count.
pub proof fn every_outcome_of_every_role_is_shown(c: UpgradeCounters, role: WorkerRole)
    ensures
        upgrade_rows(c).len() == 16,
        upgrade_rows(c).contains((role_name(role), "committed"@, c.committed.count(role))),
        upgrade_rows(c).contains((role_name(role), "timed_out"@, c.timed_out.count(role))),
        upgrade_rows(c).contains((role_name(role), "canary_aborted"@, c.canary_aborted.count(role))),
        upgrade_rows(c).contains((role_name(role), "skipped"@, c.skipped.count(role))),
{
    let k: int = match role {
        WorkerRole::Processor => 0,
        WorkerRole::Plain => 1,
        WorkerRole::Tls => 2,
        WorkerRole::Scanner => 3,
    };
    assert(every_role()[k] == role);
    assert(upgrade_rows(c)[k] == (role_name(role), "committed"@, c.committed.count(role)));
    assert(upgrade_rows(c)[4 + k] == (role_name(role), "timed_out"@, c.timed_out.count(role)));
    assert(upgrade_rows(c)[8 + k] == (
        role_name(role),
        "canary_aborted"@,
        c.canary_aborted.count(role),
    ));
    assert(upgrade_rows(c)[12 + k] == (role_name(role), "skipped"@, c.skipped.count(role)));
}

/// Milliseconds show as the decimals of a second, all three of them.
pub proof fn seconds_have_three_decimals(s: u64, ms: u64)
    requires
        ms < 1000,
        1000 * s + ms <= u64::MAX,
    ensures
        seconds_text((1000 * s + ms) as u64) == decimal(s as nat) + "."@ + zero_padded(
            ms as nat,
            3,
        ),
{
}

/// What is shown of a role is its first report; without a report it shows as not running.
pub proof fn first_report_on_a_role_is_shown(
    r: RoleMetrics,
    h: RoleHealth,
    statuses: Seq<WorkerStatus>,
    i: int,
)
    requires
        shows(r, h, statuses),
        0 <= i <= statuses.len(),
        forall|j: int| 0 <= j < i ==> (#[trigger] statuses[j]).role@ != h.role@,
    ensures
        i < statuses.len() && statuses[i].role@ == h.role@ ==> r.generation
            == statuses[i].generation && r.in_flight == statuses[i].in_flight && r.pid
            == statuses[i].pid && r.rate_limiter_stats == statuses[i].rate_limiter_stats,
        i == statuses.len() ==> r.generation == 0 && r.in_flight == 0 && r.pid == 0
            && r.rate_limiter_stats is None,
        r.role@ == h.role@,
        r.health == h.state,
        r.consecutive_fast_exits == h.consecutive_fast_exits,
        r.total_restarts == h.total_restarts,
        r.last_restart_at_unix_ms == h.last_restart_at_unix_ms,
{
    if i == statuses.len() || statuses[i].role@ == h.role@ {
        lemma_report_on(statuses, h.role@, i);
    }
}

/// Worse health has a higher number, from zero for healthy to three for failed.
pub proof fn health_numbers_rise()
    ensures
        health_code(HealthState::Healthy) == 0,
        health_code(HealthState::Backoff) == health_code(HealthState::Healthy) + 1,
        health_code(HealthState::Flapping) == health_code(HealthState::Backoff) + 1,
        health_code(HealthState::Failed) == health_code(HealthState::Flapping) + 1,
{
}

/// Each field shows the figure of its name; a role that was never restarted shows zero.
pub proof fn fields_show_their_figures(r: RoleMetrics, ms: u64)
    ensures
        field_text(r, RoleField::Generation) == decimal(r.generation as nat),
        field_text(r, RoleField::InFlight) == decimal(r.in_flight as nat),
        field_text(r, RoleField::Pid) == decimal(r.pid as nat),
        field_text(r, RoleField::FastExits) == decimal(r.consecutive_fast_exits as nat),
        field_text(r, RoleField::Restarts) == decimal(r.total_restarts as nat),
        r.last_restart_at_unix_ms == Some(ms) ==> field_text(r, RoleField::LastRestart)
            == seconds_text(ms),
        r.last_restart_at_unix_ms is None ==> field_text(r, RoleField::LastRestart) == "0"@,
{
}

/// A family holds one line for each role, in order, and nothing else.
pub proof fn every_role_has_its_sample(
    name: Seq<char>,
    roles: Seq<RoleMetrics>,
    field: RoleField,
)
    ensures
        role_samples(name, roles, field) == Seq::new(
            roles.len(),
            |i: int| sample_text(name, roles[i].role@, field_text(roles[i], field)),
        ).flatten(),
    decreases roles.len(),
{
    let lines = Seq::new(
        roles.len(),
        |i: int| sample_text(name, roles[i].role@, field_text(roles[i], field)),
    );
    if roles.len() > 0 {
        let rest = roles.drop_last();
        every_role_has_its_sample(name, rest, field);
        let before = Seq::new(
            rest.len(),
            |i: int| sample_text(name, rest[i].role@, field_text(rest[i], field)),
        );
        assert(lines =~= before.push(lines.last()));
        before.lemma_flatten_push(lines.last());
    } else {
        assert(lines.flatten() =~= seq![]);
    }
}

/// Each row of the upgrades has its line, in order, and there is no other.
pub proof fn every_upgrade_row_has_its_sample(rows: Seq<(Seq<char>, Seq<char>, u64)>)
    ensures
        upgrade_samples(rows) == Seq::new(
            rows.len(),
            |i: int|
                labelled_text(
                    "fdpass_upgrade_total"@,
                    rows[i].0,
                    "outcome"@,
                    rows[i].1,
                    decimal(rows[i].2 as nat),
                ),
        ).flatten(),
    decreases rows.len(),
{
    let lines = Seq::new(
        rows.len(),
        |i: int|
            labelled_text(
                "fdpass_upgrade_total"@,
                rows[i].0,
                "outcome"@,
                rows[i].1,
                decimal(rows[i].2 as nat),
            ),
    );
    if rows.len() > 0 {
        let rest = rows.drop_last();
        every_upgrade_row_has_its_sample(rest);
        let before = Seq::new(
            rest.len(),
            |i: int|
                labelled_text(
                    "fdpass_upgrade_total"@,
                    rest[i].0,
                    "outcome"@,
                    rest[i].1,
                    decimal(rest[i].2 as nat),
                ),
        );
        assert(lines =~= before.push(lines.last()));
        before.lemma_flatten_push(lines.last());
    } else {
        assert(lines.flatten() =~= seq![]);
    }
}

/// A role that reports on its rate limiter has a line for the addresses that it tracks and one for
/// each reason to drop a bucket; a role that does not has none, wherever it stands.
pub proof fn limiters_that_report_are_shown(
    before: Seq<RoleMetrics>,
    r: RoleMetrics,
    st: RateLimiterStats,
)
    ensures
        r.rate_limiter_stats == Some(st) ==> tracked_samples(before.push(r)) == tracked_samples(
            before,
        ) + sample_text("fdpass_ratelimit_tracked_ips"@, r.role@, decimal(st.tracked_ips as nat)),
        r.rate_limiter_stats == Some(st) ==> eviction_samples(before.push(r)) == eviction_samples(
            before,
        ) + (eviction_text(r.role@, "idle"@, st.idle_evictions) + eviction_text(
            r.role@,
            "lru"@,
            st.lru_evictions,
        ) + eviction_text(r.role@, "cap_refused"@, st.cap_refused)),
        r.rate_limiter_stats is None ==> tracked_samples(before.push(r)) == tracked_samples(before),
        r.rate_limiter_stats is None ==> eviction_samples(before.push(r)) == eviction_samples(
            before,
        ),
        tracked_samples(Seq::<RoleMetrics>::empty()).len() == 0,
        eviction_samples(Seq::<RoleMetrics>::empty()).len() == 0,
{
    assert(before.push(r).drop_last() =~= before);
    assert(tracked_samples(before) + seq![] =~= tracked_samples(before));
    assert(eviction_samples(before) + seq![] =~= eviction_samples(before));
}

} // verus!

//! The admin commands: their arguments, and what they make of the supervisor's answers.

use vstd::prelude::*;

use crate::control::{
    AdminResp, HealthState, RoleHealth, UpgradePhase, WorkerStatus,
};
use crate::fault_inject::Failure;
use crate::metrics::report_on;
use crate::roles::{every_role, role_name, WorkerRole};
use crate::rolling::RollingUpgradeRequest;
use crate::text::{
    decimal, decimal_parses_back, decimal_text, opt_view, padded_right, parse_u64, parse_upto, push_decimal,
    push_padded_right, push_zero_padded, same_text, trim, trimmed_text, views, zero_padded,
};

verus! {

/// What `upgrade --help` prints.
pub const UPGRADE_HELP: &'static str = "echod upgrade [--target <path>] [--role <worker>] [--include-tls] [--canary <secs>]

Rolling upgrade: processor → plain → scanner (→ tls if --include-tls).
--role <processor|plain|scanner|tls> upgrades just that one worker.
  Upgrading 'processor' alone is the common zero-downtime path: its
  in-flight sessions survive via UDS handoff and the thin acceptor is
  left running, so no live connection is reset.
--canary N waits N seconds after each role's upgrade and aborts
the rest of the walk if that role's watchdog state regresses below
'healthy' (any of backoff / flapping / failed).
";

/// What `status --help` prints.
pub const STATUS_HELP: &'static str = "echod status

Asks the supervisor for a status report across all four workers.
";

/// What `drain --help` prints.
pub const DRAIN_HELP: &'static str = "echod drain

Tells the supervisor to stop accepting new connections on the plain
and TLS acceptors. Existing sessions continue. The daemon stays up;
processor/scanner are unaffected. Send `shutdown` (or kill the
supervisor) when in-flight sessions have drained.
";

/// What `reload --help` prints.
pub const RELOAD_HELP: &'static str = "echod reload

Tells each worker to re-read its config from disk. Hot-reloaded:
  - auth.allowed_uids
  - tls.cert_path / tls.key_path (TLS acceptor)
Other fields (ports, sockets_dir, security) need a restart.
";

/// What an upgrade was asked for, as plain values.
pub struct UpgradeOptions {
    pub target: Option<Seq<char>>,
    pub include_tls: bool,
    pub canary_secs: Option<u64>,
    pub role: Option<Seq<char>>,
}

/// What a list of arguments amounts to.
pub enum ArgsMeaning {
    Help,
    Run(UpgradeOptions),
    Wrong(Seq<char>),
}

/// What the arguments from place `i` on amount to, after `o` was read. A later flag overrides an
/// earlier one, and the first thing that is wrong decides.
pub open spec fn upgrade_meaning(args: Seq<Seq<char>>, i: int, o: UpgradeOptions) -> ArgsMeaning
    decreases args.len() - i,
{
    if i >= args.len() {
        ArgsMeaning::Run(o)
    } else if args[i] == "--target"@ || args[i] == "-t"@ {
        if i + 1 < args.len() {
            upgrade_meaning(args, i + 2, UpgradeOptions { target: Some(args[i + 1]), ..o })
        } else {
            ArgsMeaning::Wrong("--target requires a path argument"@)
        }
    } else if args[i] == "--include-tls"@ {
        upgrade_meaning(args, i + 1, UpgradeOptions { include_tls: true, ..o })
    } else if args[i] == "--canary"@ {
        if i + 1 < args.len() {
            match parse_upto(args[i + 1], u64::MAX as nat) {
                Some(n) => upgrade_meaning(
                    args,
                    i + 2,
                    UpgradeOptions { canary_secs: Some(n as u64), ..o },
                ),
                None => ArgsMeaning::Wrong("--canary must be a non-negative integer"@),
            }
        } else {
            ArgsMeaning::Wrong("--canary requires a seconds value"@)
        }
    } else if args[i] == "--role"@ || args[i] == "-r"@ {
        if i + 1 < args.len() {
            upgrade_meaning(args, i + 2, UpgradeOptions { role: Some(args[i + 1]), ..o })
        } else {
            ArgsMeaning::Wrong("--role requires a worker name"@)
        }
    } else if args[i] == "--help"@ || args[i] == "-h"@ {
        ArgsMeaning::Help
    } else {
        ArgsMeaning::Wrong("unknown argument: "@ + args[i])
    }
}

/// Nothing was asked for yet.
pub open spec fn no_options() -> UpgradeOptions {
    UpgradeOptions { target: None, include_tls: false, canary_secs: None, role: None }
}

/// The request as plain values.
pub open spec fn options_of(r: RollingUpgradeRequest) -> UpgradeOptions {
    UpgradeOptions {
        target: opt_view(r.binary_path),
        include_tls: r.include_tls,
        canary_secs: r.canary_secs,
        role: opt_view(r.only_role),
    }
}

/// An upgrade command that was understood.
#[derive(Debug)]
pub enum UpgradeCommand {
    Help,
    Run(RollingUpgradeRequest),
}

/// Reads the arguments of an upgrade.
pub fn parse_upgrade_args(args: &Vec<String>) -> (r: Result<UpgradeCommand, Failure>)
    ensures
        match upgrade_meaning(views(args@), 0, no_options()) {
            ArgsMeaning::Help => r == Ok::<UpgradeCommand, Failure>(UpgradeCommand::Help),
            ArgsMeaning::Run(o) => r is Ok && r->Ok_0 is Run && options_of(r->Ok_0->0) == o,
            ArgsMeaning::Wrong(text) => r is Err && r->Err_0.shown() == text,
        },
{
    let ghost all = views(args@);
    let mut binary_path: Option<String> = None;
    let mut include_tls = false;
    let mut canary_secs: Option<u64> = None;
    let mut only_role: Option<String> = None;
    let mut i: usize = 0;
    while i < args.len()
        invariant
            all == views(args@),
            i <= args@.len(),
            upgrade_meaning(all, 0, no_options()) == upgrade_meaning(
                all,
                i as int,
                UpgradeOptions {
                    target: opt_view(binary_path),
                    include_tls,
                    canary_secs,
                    role: opt_view(only_role),
                },
            ),
        decreases args.len() - i,
    {
        let a = args[i].as_str();
        let more = args.len() - i > 1;
        proof {
            assert(all[i as int] == a@);
            if more {
                assert(all[i + 1] == args@[i + 1]@);
            }
        }
        if same_text(a, "--target") || same_text(a, "-t") {
            if !more {
                return Err(Failure::new("--target requires a path argument"));
            }
            binary_path = Some(args[i + 1].clone());
            i = i + 2;
        } else if same_text(a, "--include-tls") {
            include_tls = true;
            i = i + 1;
        } else if same_text(a, "--canary") {
            if !more {
                return Err(Failure::new("--canary requires a seconds value"));
            }
            match parse_u64(args[i + 1].as_str()) {
                Some(n) => {
                    canary_secs = Some(n);
                },
                None => {
                    return Err(
                        Failure::new("invalid number").context(
                            "--canary must be a non-negative integer",
                        ),
                    );
                },
            }
            i = i + 2;
        } else if same_text(a, "--role") || same_text(a, "-r") {
            if !more {
                return Err(Failure::new("--role requires a worker name"));
            }
            only_role = Some(args[i + 1].clone());
            i = i + 2;
        } else if same_text(a, "--help") || same_text(a, "-h") {
            return Ok(UpgradeCommand::Help);
        } else {
            return Err(unknown_argument(a));
        }
    }
    Ok(
        UpgradeCommand::Run(
            RollingUpgradeRequest { binary_path, include_tls, canary_secs, only_role },
        ),
    )
}

fn unknown_argument(a: &str) -> (f: Failure)
    ensures
        f.shown() == "unknown argument: "@ + a@,
{
    let mut text = "unknown argument: ".to_owned();
    text.append(a);
    Failure::new(text.as_str())
}

/// What is printed before an upgrade begins.
pub open spec fn banner_text(o: UpgradeOptions) -> Seq<char> {
    "rolling upgrade "@ + (match o.role {
        Some(role) => "("@ + role + ")"@,
        None => if o.include_tls {
            "(processor, plain, scanner, tls)"@
        } else {
            "(processor, plain, scanner)"@
        },
    }) + " → "@ + (match o.target {
        Some(path) => path,
        None => "current_exe per worker"@,
    }) + (match o.canary_secs {
        Some(n) => ", canary "@ + decimal(n as nat) + "s"@,
        None => seq![],
    })
}

/// What is printed before an upgrade begins.
pub fn upgrade_banner(req: &RollingUpgradeRequest) -> (s: String)
    ensures
        s@ == banner_text(options_of(*req)),
{
    let label: String = match &req.only_role {
        Some(role) => {
            let mut l = "(".to_owned();
            l.append(role.as_str());
            l.append(")");
            l
        },
        None => if req.include_tls {
            "(processor, plain, scanner, tls)".to_owned()
        } else {
            "(processor, plain, scanner)".to_owned()
        },
    };
    let note: String = match req.canary_secs {
        Some(n) => {
            let mut t = ", canary ".to_owned();
            push_decimal(&mut t, n);
            t.append("s");
            t
        },
        None => String::new(),
    };
    let mut s = "rolling upgrade ".to_owned();
    s.append(label.as_str());
    s.append(" → ");
    match &req.binary_path {
        Some(p) => s.append(p.as_str()),
        None => s.append("current_exe per worker"),
    }
    s.append(note.as_str());
    proof {
        if req.canary_secs is None {
            assert(note@ =~= seq![]);
        }
    }
    s
}

/// The name of a phase.
pub open spec fn phase_text(phase: UpgradePhase) -> Seq<char> {
    match phase {
        UpgradePhase::Starting => "starting"@,
        UpgradePhase::Done => "done"@,
        UpgradePhase::Timeout => "timeout"@,
        UpgradePhase::Skipped => "skipped"@,
        UpgradePhase::CanaryAborted => "canary aborted"@,
    }
}

/// The generations of a step, as far as they are known.
pub open spec fn generations_text(before: Option<u64>, after: Option<u64>) -> Seq<char> {
    match (before, after) {
        (Some(a), Some(b)) => " (gen "@ + decimal(a as nat) + " → "@ + decimal(b as nat) + ")"@,
        (Some(a), None) => " (gen "@ + decimal(a as nat) + ")"@,
        _ => seq![],
    }
}

/// The line for one step.
pub open spec fn step_text(
    worker: Seq<char>,
    phase: UpgradePhase,
    before: Option<u64>,
    after: Option<u64>,
    ok: bool,
    message: Option<Seq<char>>,
) -> Seq<char> {
    (if ok {
        "✓"@
    } else {
        "✗"@
    }) + " "@ + padded_right(worker, 10) + " "@ + phase_text(phase) + generations_text(
        before,
        after,
    ) + (match message {
        Some(m) => " — "@ + m,
        None => seq![],
    })
}

fn generations(before: Option<u64>, after: Option<u64>) -> (s: String)
    ensures
        s@ == generations_text(before, after),
{
    match (before, after) {
        (Some(a), Some(b)) => {
            let mut s = " (gen ".to_owned();
            push_decimal(&mut s, a);
            s.append(" → ");
            push_decimal(&mut s, b);
            s.append(")");
            s
        },
        (Some(a), None) => {
            let mut s = " (gen ".to_owned();
            push_decimal(&mut s, a);
            s.append(")");
            s
        },
        _ => {
            let s = String::new();
            proof {
                assert(s@ =~= seq![]);
            }
            s
        },
    }
}

fn step_line(
    worker: &str,
    phase: UpgradePhase,
    before: Option<u64>,
    after: Option<u64>,
    ok: bool,
    message: &Option<String>,
) -> (s: String)
    ensures
        s@ == step_text(worker@, phase, before, after, ok, opt_view(*message)),
{
    let mut s: String = if ok {
        "✓".to_owned()
    } else {
        "✗".to_owned()
    };
    s.append(" ");
    push_padded_right(&mut s, worker, 10);
    s.append(" ");
    s.append(
        match phase {
            UpgradePhase::Starting => "starting",
            UpgradePhase::Done => "done",
            UpgradePhase::Timeout => "timeout",
            UpgradePhase::Skipped => "skipped",
            UpgradePhase::CanaryAborted => "canary aborted",
        },
    );
    s.append(generations(before, after).as_str());
    let ghost head = s@;
    match message {
        Some(m) => {
            let mut t = " — ".to_owned();
            t.append(m.as_str());
            s.append(t.as_str());
        },
        None => {
            proof {
                assert(head + seq![] =~= head);
            }
        },
    }
    s
}

/// The answers to an upgrade so far.
#[derive(Clone, Copy, Debug, PartialEq, Eq, Structural)]
pub struct UpgradeStream {
    /// No step has failed.
    pub overall_ok: bool,
}

/// What an answer amounts to.
#[derive(Debug)]
pub enum StreamStep {
    /// Print a line and read on.
    Line(String),
    /// The upgrade is complete.
    Complete,
}

/// What an error of the supervisor is reported as.
pub open spec fn admin_error_text(message: Seq<char>) -> Seq<char> {
    "admin error: "@ + message
}

fn admin_error(message: &str) -> (f: Failure)
    ensures
        f.shown() == admin_error_text(message@),
{
    let mut text = "admin error: ".to_owned();
    text.append(message);
    Failure::new(text.as_str())
}

impl UpgradeStream {
    pub fn new() -> (s: Self)
        ensures
            s.overall_ok,
    {
        UpgradeStream { overall_ok: true }
    }

    /// Takes the next answer; `raw` is how it was written. The upgrade has succeeded only if the
    /// supervisor says so and no step has failed.
    pub fn stream_upgrade(&mut self, resp: AdminResp, raw: &str) -> (r: Result<StreamStep, Failure>)
        ensures
            final(self).overall_ok == well_so_far(old(self).overall_ok, resp),
            match resp {
                AdminResp::UpgradeStep {
                    worker,
                    phase,
                    generation_before,
                    generation_after,
                    ok,
                    message,
                } => {
                    &&& final(self).overall_ok == (old(self).overall_ok && ok)
                    &&& r is Ok && r->Ok_0 is Line && r->Ok_0->0@ == step_text(
                        worker@,
                        phase,
                        generation_before,
                        generation_after,
                        ok,
                        opt_view(message),
                    )
                },
                AdminResp::UpgradeComplete { all_ok } => {
                    &&& *final(self) == *old(self)
                    &&& r is Ok <==> all_ok && old(self).overall_ok
                    &&& r is Ok ==> r->Ok_0 is Complete
                    &&& r is Err ==> r->Err_0.shown() == "upgrade failed"@
                },
                AdminResp::Error { message } => {
                    &&& *final(self) == *old(self)
                    &&& r is Err && r->Err_0.shown() == admin_error_text(message@)
                },
                _ => {
                    &&& *final(self) == *old(self)
                    &&& r is Err && r->Err_0.shown()
                        == "unexpected response during rolling upgrade: "@ + raw@
                },
            },
    {
        match resp {
            AdminResp::UpgradeStep {
                worker,
                phase,
                generation_before,
                generation_after,
                ok,
                message,
            } => {
                let line = step_line(
                    worker.as_str(),
                    phase,
                    generation_before,
                    generation_after,
                    ok,
                    &message,
                );
                if !ok {
                    self.overall_ok = false;
                }
                Ok(StreamStep::Line(line))
            },
            AdminResp::UpgradeComplete { all_ok } => {
                if all_ok && self.overall_ok {
                    Ok(StreamStep::Complete)
                } else {
                    Err(Failure::new("upgrade failed"))
                }
            },
            AdminResp::Error { message } => Err(admin_error(message.as_str())),
            _ => {
                let mut text = "unexpected response during rolling upgrade: ".to_owned();
                text.append(raw);
                Err(Failure::new(text.as_str()))
            },
        }
    }

    /// The supervisor closed the connection too early.
    pub fn closed_early() -> (f: Failure)
        ensures
            f.shown() == "supervisor closed connection without UpgradeComplete"@,
    {
        Failure::new("supervisor closed connection without UpgradeComplete")
    }
}

/// A command without options that was understood.
#[derive(Clone, Copy, Debug, PartialEq, Eq, Structural)]
pub enum PlainCommand {
    Help,
    Run,
}

/// Reads the arguments of a command that has no options: the first decides.
pub fn parse_plain_args(args: &Vec<String>) -> (r: Result<PlainCommand, Failure>)
    ensures
        args@.len() == 0 ==> r == Ok::<PlainCommand, Failure>(PlainCommand::Run),
        args@.len() > 0 && (args@[0]@ == "--help"@ || args@[0]@ == "-h"@) ==> r == Ok::<
            PlainCommand,
            Failure,
        >(PlainCommand::Help),
        args@.len() > 0 && args@[0]@ != "--help"@ && args@[0]@ != "-h"@ ==> r is Err
            && r->Err_0.shown() == "unknown argument: "@ + args@[0]@,
{
    if args.len() == 0 {
        return Ok(PlainCommand::Run);
    }
    let a = args[0].as_str();
    if same_text(a, "--help") || same_text(a, "-h") {
        Ok(PlainCommand::Help)
    } else {
        Err(unknown_argument(a))
    }
}

/// Judges the answer to a status request.
pub fn judge_status(resp: AdminResp) -> (r: Result<
    (Vec<WorkerStatus>, Vec<RoleHealth>),
    Failure,
>)
    ensures
        match resp {
            AdminResp::Status { workers, health } => r == Ok::<
                (Vec<WorkerStatus>, Vec<RoleHealth>),
                Failure,
            >((workers, health)),
            AdminResp::Error { message } => r is Err && r->Err_0.shown() == admin_error_text(
                message@,
            ),
            _ => r is Err && r->Err_0.shown() == "unexpected response to Status"@,
        },
{
    match resp {
        AdminResp::Status { workers, health } => Ok((workers, health)),
        AdminResp::Error { message } => Err(admin_error(message.as_str())),
        _ => Err(Failure::new("unexpected response to Status")),
    }
}

/// Judges the answer to a drain request; the result is what is printed.
pub fn judge_drain(resp: AdminResp) -> (r: Result<&'static str, Failure>)
    ensures
        match resp {
            AdminResp::Okay => r is Ok && r->Ok_0@
                == "drained: acceptors stopped accepting; existing sessions continue"@,
            AdminResp::Error { message } => r is Err && r->Err_0.shown() == admin_error_text(
                message@,
            ),
            _ => r is Err && r->Err_0.shown() == "unexpected response to Drain"@,
        },
{
    match resp {
        AdminResp::Okay => Ok(
            "drained: acceptors stopped accepting; existing sessions continue",
        ),
        AdminResp::Error { message } => Err(admin_error(message.as_str())),
        _ => Err(Failure::new("unexpected response to Drain")),
    }
}

/// Judges the answer to a reload request; the result is what is printed.
pub fn judge_reload(resp: AdminResp) -> (r: Result<&'static str, Failure>)
    ensures
        match resp {
            AdminResp::Okay => r is Ok && r->Ok_0@ == "reload broadcast to all workers"@,
            AdminResp::Error { message } => r is Err && r->Err_0.shown() == admin_error_text(
                message@,
            ),
            _ => r is Err && r->Err_0.shown() == "unexpected response to Reload"@,
        },
{
    match resp {
        AdminResp::Okay => Ok("reload broadcast to all workers"),
        AdminResp::Error { message } => Err(admin_error(message.as_str())),
        _ => Err(Failure::new("unexpected response to Reload")),
    }
}

/// Judges an answer that was read, without the white space around it: there must be one.
pub fn judge_answer(trimmed: String) -> (r: Result<String, Failure>)
    ensures
        trimmed@.len() > 0 ==> r == Ok::<String, Failure>(trimmed),
        trimmed@.len() == 0 ==> r is Err && r->Err_0.shown()
            == "supervisor closed connection without response"@,
{
    if trimmed.as_str().is_empty() {
        Err(Failure::new("supervisor closed connection without response"))
    } else {
        Ok(trimmed)
    }
}

/// The line that was read, without the white space around it.
pub fn answer_text(line: &str) -> (t: String)
    ensures
        t@ == trimmed_text(line@),
{
    trim(line)
}

/// What an answer that cannot be understood is reported as.
pub fn incompatible_answer(raw: &str) -> (s: String)
    ensures
        s@ == "incompatible admin response: "@ + raw@,
{
    let mut s = "incompatible admin response: ".to_owned();
    s.append(raw);
    s
}

/// A health state in the table.
pub open spec fn state_text(s: HealthState) -> Seq<char> {
    match s {
        HealthState::Healthy => "healthy"@,
        HealthState::Backoff => "backoff"@,
        HealthState::Flapping => "flapping"@,
        HealthState::Failed => "FAILED"@,
    }
}

pub fn format_state(s: HealthState) -> (t: String)
    ensures
        t@ == state_text(s),
{
    match s {
        HealthState::Healthy => "healthy".to_owned(),
        HealthState::Backoff => "backoff".to_owned(),
        HealthState::Flapping => "flapping".to_owned(),
        HealthState::Failed => "FAILED".to_owned(),
    }
}

/// A wait in the table: milliseconds, or seconds with one decimal that is cut off, not rounded.
pub open spec fn backoff_text(ms: u64) -> Seq<char> {
    if ms < 1000 {
        decimal(ms as nat) + "ms"@
    } else {
        decimal((ms / 1000) as nat) + "."@ + zero_padded(((ms % 1000) / 100) as nat, 1) + "s"@
    }
}

pub fn format_backoff(ms: u64) -> (t: String)
    ensures
        t@ == backoff_text(ms),
{
    if ms < 1000 {
        let mut t = decimal_text(ms);
        t.append("ms");
        t
    } else {
        let mut t = decimal_text(ms / 1000);
        t.append(".");
        push_zero_padded(&mut t, (ms % 1000) / 100, 1);
        t.append("s");
        t
    }
}

/// An uptime in the table: its two largest units.
pub open spec fn uptime_text(s: u64) -> Seq<char> {
    if s < 60 {
        decimal(s as nat) + "s"@
    } else if s < 3600 {
        decimal((s / 60) as nat) + "m"@ + zero_padded((s % 60) as nat, 2) + "s"@
    } else {
        decimal((s / 3600) as nat) + "h"@ + zero_padded(((s % 3600) / 60) as nat, 2) + "m"@
    }
}

pub fn format_uptime(s: u64) -> (t: String)
    ensures
        t@ == uptime_text(s),
{
    if s < 60 {
        let mut t = decimal_text(s);
        t.append("s");
        t
    } else if s < 3600 {
        let mut t = decimal_text(s / 60);
        t.append("m");
        push_zero_padded(&mut t, s % 60, 2);
        t.append("s");
        t
    } else {
        let mut t = decimal_text(s / 3600);
        t.append("h");
        push_zero_padded(&mut t, (s % 3600) / 60, 2);
        t.append("m");
        t
    }
}

/// One line of the table.
pub open spec fn row_text(
    role: Seq<char>,
    state: Seq<char>,
    pid: Seq<char>,
    generation: Seq<char>,
    uptime: Seq<char>,
    restarts: Seq<char>,
    backoff: Seq<char>,
    in_flight: Seq<char>,
    listener: Seq<char>,
) -> Seq<char> {
    padded_right(role, 10) + " "@ + padded_right(state, 10) + " "@ + padded_right(pid, 7) + " "@
        + padded_right(generation, 4) + " "@ + padded_right(uptime, 8) + " "@ + padded_right(
        restarts,
        9,
    ) + " "@ + padded_right(backoff, 8) + " "@ + padded_right(in_flight, 10) + " "@ + listener
        + "\n"@
}

fn push_row(
    out: &mut String,
    role: &str,
    state: &str,
    pid: &str,
    generation: &str,
    uptime: &str,
    restarts: &str,
    backoff: &str,
    in_flight: &str,
    listener: &str,
)
    ensures
        final(out)@ == old(out)@ + row_text(
            role@,
            state@,
            pid@,
            generation@,
            uptime@,
            restarts@,
            backoff@,
            in_flight@,
            listener@,
        ),
{
    let mut t = String::new();
    push_padded_right(&mut t, role, 10);
    proof {
        assert(t@ =~= padded_right(role@, 10));
    }
    t.append(" ");
    push_padded_right(&mut t, state, 10);
    t.append(" ");
    push_padded_right(&mut t, pid, 7);
    t.append(" ");
    push_padded_right(&mut t, generation, 4);
    t.append(" ");
    push_padded_right(&mut t, uptime, 8);
    t.append(" ");
    push_padded_right(&mut t, restarts, 9);
    t.append(" ");
    push_padded_right(&mut t, backoff, 8);
    t.append(" ");
    push_padded_right(&mut t, in_flight, 10);
    t.append(" ");
    t.append(listener);
    t.append("\n");
    out.append(t.as_str());
}

/// The place of the first health report on `role`, or the number of reports.
pub open spec fn health_on(health: Seq<RoleHealth>, role: Seq<char>) -> int
    decreases health.len(),
{
    if health.len() == 0 || health[0].role@ == role {
        0
    } else {
        1 + health_on(health.skip(1), role)
    }
}

proof fn lemma_health_on(health: Seq<RoleHealth>, role: Seq<char>, k: int)
    requires
        0 <= k <= health.len(),
        forall|j: int| 0 <= j < k ==> (#[trigger] health[j]).role@ != role,
        k < health.len() ==> health[k].role@ == role,
    ensures
        health_on(health, role) == k,
    decreases health.len(),
{
    if health.len() > 0 && k > 0 {
        assert(health[0].role@ != role);
        let rest = health.skip(1);
        assert forall|j: int| 0 <= j < k - 1 implies (#[trigger] rest[j]).role@ != role by {
            assert(rest[j] == health[j + 1]);
        }
        lemma_health_on(rest, role, k - 1);
    }
}

fn find_health(health: &Vec<RoleHealth>, role: &str) -> (k: usize)
    ensures
        k == health_on(health@, role@),
        k <= health@.len(),
{
    let mut k: usize = 0;
    while k < health.len()
        invariant
            k <= health@.len(),
            forall|j: int| 0 <= j < k ==> (#[trigger] health@[j]).role@ != role@,
        decreases health.len() - k,
    {
        if same_text(health[k].role.as_str(), role) {
            proof {
                lemma_health_on(health@, role@, k as int);
            }
            return k;
        }
        k = k + 1;
    }
    proof {
        lemma_health_on(health@, role@, k as int);
    }
    k
}

/// Seconds since the worker started.
pub open spec fn age_secs(now_ms: u64, started_at_unix_ms: u64) -> u64 {
    if now_ms >= started_at_unix_ms {
        ((now_ms - started_at_unix_ms) / 1000) as u64
    } else {
        0
    }
}

/// The line of one role; what is not known shows as a dash.
pub open spec fn role_row(
    role: Seq<char>,
    workers: Seq<WorkerStatus>,
    health: Seq<RoleHealth>,
    now_ms: u64,
) -> Seq<char> {
    let i = report_on(workers, role);
    let k = health_on(health, role);
    let w = if i < workers.len() {
        Some(workers[i])
    } else {
        None
    };
    let h = if k < health.len() {
        Some(health[k])
    } else {
        None
    };
    row_text(
        role,
        match h {
            Some(h) => state_text(h.state),
            None => "-"@,
        },
        match w {
            Some(w) => decimal(w.pid as nat),
            None => "-"@,
        },
        match w {
            Some(w) => decimal(w.generation as nat),
            None => "-"@,
        },
        match w {
            Some(w) => uptime_text(age_secs(now_ms, w.started_at_unix_ms)),
            None => "-"@,
        },
        match h {
            Some(h) => decimal(h.total_restarts as nat),
            None => "-"@,
        },
        match h {
            Some(h) => backoff_text(h.next_backoff_ms),
            None => "-"@,
        },
        match w {
            Some(w) => decimal(w.in_flight as nat),
            None => "-"@,
        },
        match w {
            Some(w) => match w.listener_addr {
                Some(a) => a@,
                None => "-"@,
            },
            None => "-"@,
        },
    )
}

/// The first line of the table.
pub open spec fn heading_text() -> Seq<char> {
    row_text(
        "ROLE"@,
        "STATE"@,
        "PID"@,
        "GEN"@,
        "UPTIME"@,
        "RESTARTS"@,
        "BACKOFF"@,
        "IN_FLIGHT"@,
        "LISTENER"@,
    )
}

/// The lines of the first `n` roles.
pub open spec fn rows_text(
    n: nat,
    workers: Seq<WorkerStatus>,
    health: Seq<RoleHealth>,
    now_ms: u64,
) -> Seq<char>
    decreases n,
{
    if n == 0 {
        heading_text()
    } else {
        rows_text((n - 1) as nat, workers, health, now_ms) + role_row(
            role_name(every_role()[n - 1]),
            workers,
            health,
            now_ms,
        )
    }
}

/// The whole table.
pub open spec fn table_text(
    workers: Seq<WorkerStatus>,
    health: Seq<RoleHealth>,
    now_ms: u64,
) -> Seq<char> {
    if workers.len() == 0 && health.len() == 0 {
        heading_text() + "(no workers connected)\n"@
    } else {
        rows_text(4, workers, health, now_ms)
    }
}

fn push_role_row(
    out: &mut String,
    role: &str,
    workers: &Vec<WorkerStatus>,
    health: &Vec<RoleHealth>,
    now_ms: u64,
)
    ensures
        final(out)@ == old(out)@ + role_row(role@, workers@, health@, now_ms),
{
    let i = crate::metrics::find_report(workers, role);
    let k = find_health(health, role);
    let mut pid = "-".to_owned();
    let mut generation = "-".to_owned();
    let mut uptime = "-".to_owned();
    let mut in_flight = "-".to_owned();
    let mut listener = "-".to_owned();
    if i < workers.len() {
        let w = &workers[i];
        pid = decimal_text(w.pid as u64);
        generation = decimal_text(w.generation);
        let age: u64 = now_ms.saturating_sub(w.started_at_unix_ms);
        uptime = format_uptime(age / 1000);
        in_flight = decimal_text(w.in_flight);
        match &w.listener_addr {
            Some(a) => {
                listener = a.clone();
            },
            None => {},
        }
    }
    let mut state = "-".to_owned();
    let mut restarts = "-".to_owned();
    let mut backoff = "-".to_owned();
    if k < health.len() {
        let h = &health[k];
        state = format_state(h.state);
        restarts = decimal_text(h.total_restarts);
        backoff = format_backoff(h.next_backoff_ms);
    }
    push_row(
        out,
        role,
        state.as_str(),
        pid.as_str(),
        generation.as_str(),
        uptime.as_str(),
        restarts.as_str(),
        backoff.as_str(),
        in_flight.as_str(),
        listener.as_str(),
    );
}

/// The table that `status` prints, at `now_ms`.
pub fn print_status_table(
    workers: &Vec<WorkerStatus>,
    health: &Vec<RoleHealth>,
    now_ms: u64,
) -> (s: String)
    ensures
        s@ == table_text(workers@, health@, now_ms),
{
    let mut s = String::new();
    push_row(
        &mut s,
        "ROLE",
        "STATE",
        "PID",
        "GEN",
        "UPTIME",
        "RESTARTS",
        "BACKOFF",
        "IN_FLIGHT",
        "LISTENER",
    );
    proof {
        assert(s@ =~= heading_text());
    }
    if workers.len() == 0 && health.len() == 0 {
        s.append("(no workers connected)\n");
        return s;
    }
    let roles = WorkerRole::all();
    let mut i: usize = 0;
    while i < roles.len()
        invariant
            roles@ == every_role(),
            i <= 4,
            s@ == rows_text(i as nat, workers@, health@, now_ms),
        decreases 4 - i,
    {
        push_role_row(&mut s, roles[i].name(), workers, health, now_ms);
        i = i + 1;
    }
    s
}

// Laws
/// What the arguments amount to from a place on depends on what stands there alone.
proof fn lemma_meaning_of_the_rest(
    args: Seq<Seq<char>>,
    k: int,
    rest: Seq<Seq<char>>,
    i: int,
    o: UpgradeOptions,
)
    requires
        0 <= k,
        0 <= i <= rest.len(),
        k + rest.len() == args.len(),
        forall|j: int| 0 <= j < rest.len() ==> #[trigger] rest[j] == args[k + j],
    ensures
        upgrade_meaning(args, k + i, o) == upgrade_meaning(rest, i, o),
    decreases rest.len() - i,
{
    if i < rest.len() {
        assert(rest[i] == args[k + i]);
        if i + 1 < rest.len() {
            assert(rest[i + 1] == args[k + (i + 1)]);
            lemma_meaning_of_the_rest(
                args,
                k,
                rest,
                i + 2,
                UpgradeOptions { target: Some(rest[i + 1]), ..o },
            );
            lemma_meaning_of_the_rest(
                args,
                k,
                rest,
                i + 2,
                UpgradeOptions { role: Some(rest[i + 1]), ..o },
            );
            if parse_upto(rest[i + 1], u64::MAX as nat) is Some {
                lemma_meaning_of_the_rest(
                    args,
                    k,
                    rest,
                    i + 2,
                    UpgradeOptions {
                        canary_secs: Some(parse_upto(rest[i + 1], u64::MAX as nat)->0 as u64),
                        ..o
                    },
                );
            }
        }
        lemma_meaning_of_the_rest(
            args,
            k,
            rest,
            i + 1,
            UpgradeOptions { include_tls: true, ..o },
        );
    }
}

proof fn lemma_flags_differ()
    ensures
        "--target"@ != "--include-tls"@,
        "--target"@ != "--canary"@,
        "--target"@ != "--role"@,
        "--target"@ != "-r"@,
        "-t"@ != "--include-tls"@,
        "-t"@ != "--canary"@,
        "-t"@ != "--role"@,
        "-t"@ != "-r"@,
        "--include-tls"@ != "--canary"@,
        "--include-tls"@ != "--role"@,
        "--include-tls"@ != "-r"@,
        "--canary"@ != "--role"@,
        "--canary"@ != "-r"@,
        "--help"@ != "--target"@,
        "--help"@ != "-t"@,
        "--help"@ != "--include-tls"@,
        "--help"@ != "--canary"@,
        "--help"@ != "--role"@,
        "--help"@ != "-r"@,
        "-h"@ != "--target"@,
        "-h"@ != "-t"@,
        "-h"@ != "--include-tls"@,
        "-h"@ != "--canary"@,
        "-h"@ != "--role"@,
        "-h"@ != "-r"@,
{
    reveal_strlit("--target");
    reveal_strlit("-t");
    reveal_strlit("--include-tls");
    reveal_strlit("--canary");
    reveal_strlit("--role");
    reveal_strlit("-r");
    reveal_strlit("--help");
    reveal_strlit("-h");
    assert("--target"@.len() == 8 && "--target"@[2] == 't');
    assert("--canary"@.len() == 8 && "--canary"@[2] == 'c');
    assert("--include-tls"@.len() == 13);
    assert("--role"@.len() == 6 && "--role"@[2] == 'r');
    assert("--help"@.len() == 6 && "--help"@[2] == 'h');
    assert("-t"@.len() == 2 && "-t"@[1] == 't');
    assert("-r"@.len() == 2 && "-r"@[1] == 'r');
    assert("-h"@.len() == 2 && "-h"@[1] == 'h');
}

/// Each flag sets its own option and leaves the others, whatever follows; of two that set the same
/// option the later one counts.
pub proof fn each_flag_sets_its_option(
    rest: Seq<Seq<char>>,
    text: Seq<char>,
    secs: u64,
    o: UpgradeOptions,
)
    ensures
        upgrade_meaning(seq!["--target"@, text] + rest, 0, o) == upgrade_meaning(
            rest,
            0,
            UpgradeOptions { target: Some(text), ..o },
        ),
        upgrade_meaning(seq!["-t"@, text] + rest, 0, o) == upgrade_meaning(
            rest,
            0,
            UpgradeOptions { target: Some(text), ..o },
        ),
        upgrade_meaning(seq!["--role"@, text] + rest, 0, o) == upgrade_meaning(
            rest,
            0,
            UpgradeOptions { role: Some(text), ..o },
        ),
        upgrade_meaning(seq!["-r"@, text] + rest, 0, o) == upgrade_meaning(
            rest,
            0,
            UpgradeOptions { role: Some(text), ..o },
        ),
        upgrade_meaning(seq!["--canary"@, decimal(secs as nat)] + rest, 0, o) == upgrade_meaning(
            rest,
            0,
            UpgradeOptions { canary_secs: Some(secs), ..o },
        ),
        upgrade_meaning(seq!["--include-tls"@] + rest, 0, o) == upgrade_meaning(
            rest,
            0,
            UpgradeOptions { include_tls: true, ..o },
        ),
        upgrade_meaning(seq!["--help"@] + rest, 0, o) == ArgsMeaning::Help,
        upgrade_meaning(seq!["-h"@] + rest, 0, o) == ArgsMeaning::Help,
        upgrade_meaning(Seq::<Seq<char>>::empty(), 0, o) == ArgsMeaning::Run(o),
{
    lemma_flags_differ();
    decimal_parses_back(secs as nat);
    lemma_meaning_of_the_rest(
        seq!["--target"@, text] + rest,
        2,
        rest,
        0,
        UpgradeOptions { target: Some(text), ..o },
    );
    lemma_meaning_of_the_rest(
        seq!["-t"@, text] + rest,
        2,
        rest,
        0,
        UpgradeOptions { target: Some(text), ..o },
    );
    lemma_meaning_of_the_rest(
        seq!["--role"@, text] + rest,
        2,
        rest,
        0,
        UpgradeOptions { role: Some(text), ..o },
    );
    lemma_meaning_of_the_rest(
        seq!["-r"@, text] + rest,
        2,
        rest,
        0,
        UpgradeOptions { role: Some(text), ..o },
    );
    lemma_meaning_of_the_rest(
        seq!["--canary"@, decimal(secs as nat)] + rest,
        2,
        rest,
        0,
        UpgradeOptions { canary_secs: Some(secs), ..o },
    );
    lemma_meaning_of_the_rest(
        seq!["--include-tls"@] + rest,
        1,
        rest,
        0,
        UpgradeOptions { include_tls: true, ..o },
    );
    assert((seq!["--target"@, text] + rest)[0] == "--target"@);
    assert((seq!["--target"@, text] + rest)[1] == text);
    assert((seq!["-t"@, text] + rest)[0] == "-t"@);
    assert((seq!["-t"@, text] + rest)[1] == text);
    assert((seq!["--role"@, text] + rest)[0] == "--role"@);
    assert((seq!["--role"@, text] + rest)[1] == text);
    assert((seq!["-r"@, text] + rest)[0] == "-r"@);
    assert((seq!["-r"@, text] + rest)[1] == text);
    assert((seq!["--canary"@, decimal(secs as nat)] + rest)[0] == "--canary"@);
    assert((seq!["--canary"@, decimal(secs as nat)] + rest)[1] == decimal(secs as nat));
    assert((seq!["--include-tls"@] + rest)[0] == "--include-tls"@);
    assert((seq!["--help"@] + rest)[0] == "--help"@);
    assert((seq!["-h"@] + rest)[0] == "-h"@);
}

/// A full request on the command line is the request that was meant.
pub proof fn full_request_is_understood(target: Seq<char>, role: Seq<char>, secs: u64)
    ensures
        upgrade_meaning(
            seq!["--target"@, target] + (seq!["--role"@, role] + (seq![
                "--canary"@,
                decimal(secs as nat),
            ] + (seq!["--include-tls"@] + Seq::<Seq<char>>::empty()))),
            0,
            no_options(),
        ) == ArgsMeaning::Run(
            UpgradeOptions {
                target: Some(target),
                include_tls: true,
                canary_secs: Some(secs),
                role: Some(role),
            },
        ),
        upgrade_meaning(Seq::<Seq<char>>::empty(), 0, no_options()) == ArgsMeaning::Run(
            UpgradeOptions { target: None, include_tls: false, canary_secs: None, role: None },
        ),
{
    let d = Seq::<Seq<char>>::empty();
    let c = seq!["--include-tls"@] + d;
    let b = seq!["--canary"@, decimal(secs as nat)] + c;
    let a = seq!["--role"@, role] + b;
    let o1 = UpgradeOptions { target: Some(target), ..no_options() };
    let o2 = UpgradeOptions { role: Some(role), ..o1 };
    let o3 = UpgradeOptions { canary_secs: Some(secs), ..o2 };
    each_flag_sets_its_option(a, target, secs, no_options());
    each_flag_sets_its_option(b, role, secs, o1);
    each_flag_sets_its_option(c, role, secs, o2);
    each_flag_sets_its_option(d, role, secs, o3);
    each_flag_sets_its_option(d, role, secs, UpgradeOptions { include_tls: true, ..o3 });
}

/// A flag at the end that wants a value, a wait that is no number, and an argument that is none of
/// the flags are refused.
pub proof fn incomplete_arguments_are_refused(
    text: Seq<char>,
    rest: Seq<Seq<char>>,
    o: UpgradeOptions,
)
    ensures
        upgrade_meaning(seq!["--target"@], 0, o) is Wrong,
        upgrade_meaning(seq!["--role"@], 0, o) is Wrong,
        upgrade_meaning(seq!["--canary"@], 0, o) is Wrong,
        parse_upto(text, u64::MAX as nat) is None ==> upgrade_meaning(
            seq!["--canary"@, text] + rest,
            0,
            o,
        ) is Wrong,
        text != "--target"@ && text != "-t"@ && text != "--include-tls"@ && text != "--canary"@
            && text != "--role"@ && text != "-r"@ && text != "--help"@ && text != "-h"@
            ==> upgrade_meaning(seq![text] + rest, 0, o) == ArgsMeaning::Wrong(
            "unknown argument: "@ + text,
        ),
{
    lemma_flags_differ();
    assert((seq!["--canary"@, text] + rest)[0] == "--canary"@);
    assert((seq!["--canary"@, text] + rest)[1] == text);
    assert((seq![text] + rest)[0] == text);
}

/// A request keeps each of its options under its own name.
pub proof fn request_keeps_its_options(r: RollingUpgradeRequest)
    ensures
        options_of(r).target == opt_view(r.binary_path),
        options_of(r).role == opt_view(r.only_role),
        options_of(r).canary_secs == r.canary_secs,
        options_of(r).include_tls == r.include_tls,
{
}

/// A step that went well begins with another sign than one that did not, and a message closes the
/// line.
pub proof fn step_shows_how_it_went(
    worker: Seq<char>,
    phase: UpgradePhase,
    before: Option<u64>,
    after: Option<u64>,
    ok: bool,
    message: Seq<char>,
)
    ensures
        (step_text(worker, phase, before, after, ok, None)[0] == '✓') == ok,
        (step_text(worker, phase, before, after, ok, Some(message))[0] == '✓') == ok,
        step_text(worker, phase, before, after, ok, Some(message)) == step_text(
            worker,
            phase,
            before,
            after,
            ok,
            None,
        ) + " — "@ + message,
{
    reveal_strlit("✓");
    reveal_strlit("✗");
    assert("✗"@[0] == '✗');
    assert("✓"@[0] == '✓');
    assert(step_text(worker, phase, before, after, ok, Some(message)) =~= step_text(
        worker,
        phase,
        before,
        after,
        ok,
        None,
    ) + " — "@ + message);
}

/// An uptime is cut to its two largest units, with two digits in the second.
#[verifier::rlimit(40)]
pub proof fn uptime_shows_two_units(h: u64, m: u64, s: u64)
    requires
        m < 60,
        s < 60,
        3600 * h + 60 * m + s <= u64::MAX,
    ensures
        h > 0 ==> uptime_text((3600 * h + 60 * m + s) as u64) == decimal(h as nat) + "h"@
            + zero_padded(m as nat, 2) + "m"@,
        h == 0 && m > 0 ==> uptime_text((60 * m + s) as u64) == decimal(m as nat) + "m"@
            + zero_padded(s as nat, 2) + "s"@,
        uptime_text(s) == decimal(s as nat) + "s"@,
{
    let long = 3600 * h + 60 * m + s;
    vstd::arithmetic::div_mod::lemma_fundamental_div_mod_converse(
        long,
        3600,
        h as int,
        60 * m + s,
    );
    vstd::arithmetic::div_mod::lemma_fundamental_div_mod_converse(
        60 * m + s,
        60,
        m as int,
        s as int,
    );
    assert(long / 3600 == h && long % 3600 == 60 * m + s);
    assert((60 * m + s) / 60 == m && (60 * m + s) % 60 == s as int);
}

/// A wait under a second shows its milliseconds, a longer one its seconds and tenths.
#[verifier::rlimit(40)]
pub proof fn wait_shows_tenths(s: u64, tenths: u64, ms: u64)
    requires
        s > 0,
        tenths < 10,
        ms < 100,
        1000 * s + 100 * tenths + ms <= u64::MAX,
    ensures
        backoff_text((1000 * s + 100 * tenths + ms) as u64) == decimal(s as nat) + "."@
            + decimal(tenths as nat) + "s"@,
        backoff_text((100 * tenths + ms) as u64) == decimal((100 * tenths + ms) as nat) + "ms"@,
{
    let long = 1000 * s + 100 * tenths + ms;
    vstd::arithmetic::div_mod::lemma_fundamental_div_mod_converse(
        long,
        1000,
        s as int,
        100 * tenths + ms,
    );
    vstd::arithmetic::div_mod::lemma_fundamental_div_mod_converse(
        100 * tenths + ms,
        100,
        tenths as int,
        ms as int,
    );
    assert(long / 1000 == s && long % 1000 == 100 * tenths + ms);
    assert((100 * tenths + ms) / 100 == tenths);
    reveal_with_fuel(zero_padded, 2);
    assert(zero_padded(tenths as nat, 1) =~= decimal(tenths as nat));
}

/// The age of a worker counts whole seconds from its start, and is zero while its start lies
/// ahead.
pub proof fn age_counts_whole_seconds(started: u64, secs: u64, ms: u64)
    requires
        ms < 1000,
        started + 1000 * secs + ms <= u64::MAX,
    ensures
        age_secs((started + 1000 * secs + ms) as u64, started) == secs,
        ms > 0 ==> age_secs(started, (started + ms) as u64) == 0,
{
}

/// What is shown of a role is its first health report.
pub proof fn first_health_report_counts(health: Seq<RoleHealth>, role: Seq<char>, i: int)
    requires
        0 <= i <= health.len(),
        forall|j: int| 0 <= j < i ==> (#[trigger] health[j]).role@ != role,
    ensures
        i < health.len() && health[i].role@ == role ==> health_on(health, role) == i,
        i == health.len() ==> health_on(health, role) == health.len(),
{
    if i == health.len() || health[i].role@ == role {
        lemma_health_on(health, role, i);
    }
}

/// The table has a heading and, where anything is known, one line for each role in order: the
/// processor, the two acceptors, the scanner.
#[verifier::rlimit(40)]
pub proof fn table_shows_every_role(
    workers: Seq<WorkerStatus>,
    health: Seq<RoleHealth>,
    now_ms: u64,
)
    ensures
        workers.len() > 0 || health.len() > 0 ==> table_text(workers, health, now_ms)
            == heading_text() + role_row("processor"@, workers, health, now_ms) + role_row(
            "plain"@,
            workers,
            health,
            now_ms,
        ) + role_row("tls"@, workers, health, now_ms) + role_row(
            "scanner"@,
            workers,
            health,
            now_ms,
        ),
{
    lemma_next_row(0, workers, health, now_ms);
    lemma_next_row(1, workers, health, now_ms);
    lemma_next_row(2, workers, health, now_ms);
    lemma_next_row(3, workers, health, now_ms);
}

proof fn lemma_next_row(n: nat, workers: Seq<WorkerStatus>, health: Seq<RoleHealth>, now_ms: u64)
    requires
        n < 4,
    ensures
        rows_text(n + 1, workers, health, now_ms) == rows_text(n, workers, health, now_ms)
            + role_row(
            if n == 0 {
                "processor"@
            } else if n == 1 {
                "plain"@
            } else if n == 2 {
                "tls"@
            } else {
                "scanner"@
            },
            workers,
            health,
            now_ms,
        ),
        rows_text(0, workers, health, now_ms) == heading_text(),
{
}

/// A worker that reports, and whose health is known, is shown with what was reported; one of which
/// nothing is known shows dashes.
pub proof fn row_shows_what_is_known(
    role: Seq<char>,
    w: WorkerStatus,
    h: RoleHealth,
    now_ms: u64,
)
    requires
        w.role@ == role,
        h.role@ == role,
        w.listener_addr is Some,
    ensures
        role_row(role, seq![w], seq![h], now_ms) == row_text(
            role,
            state_text(h.state),
            decimal(w.pid as nat),
            decimal(w.generation as nat),
            uptime_text(age_secs(now_ms, w.started_at_unix_ms)),
            decimal(h.total_restarts as nat),
            backoff_text(h.next_backoff_ms),
            decimal(w.in_flight as nat),
            w.listener_addr->0@,
        ),
        role_row(role, Seq::empty(), Seq::empty(), now_ms) == row_text(
            role,
            "-"@,
            "-"@,
            "-"@,
            "-"@,
            "-"@,
            "-"@,
            "-"@,
            "-"@,
        ),
{
    assert(seq![w][0] == w);
    assert(seq![h][0] == h);
}

/// What is printed first says which roles are upgraded, to which binary, and how long each is
/// watched.
pub proof fn banner_says_what_is_upgraded(role: Seq<char>, path: Seq<char>, secs: u64, tls: bool)
    ensures
        banner_text(
            UpgradeOptions {
                target: Some(path),
                include_tls: tls,
                canary_secs: Some(secs),
                role: Some(role),
            },
        ) == "rolling upgrade "@ + ("("@ + role + ")"@) + " → "@ + path + (", canary "@ + decimal(
            secs as nat,
        ) + "s"@),
        banner_text(
            UpgradeOptions { target: None, include_tls: false, canary_secs: None, role: None },
        ) == "rolling upgrade "@ + "(processor, plain, scanner)"@ + " → "@
            + "current_exe per worker"@,
        banner_text(
            UpgradeOptions { target: None, include_tls: true, canary_secs: None, role: None },
        ) == "rolling upgrade "@ + "(processor, plain, scanner, tls)"@ + " → "@
            + "current_exe per worker"@,
{
    let s = "rolling upgrade "@ + "(processor, plain, scanner)"@ + " → "@
        + "current_exe per worker"@;
    let t = "rolling upgrade "@ + "(processor, plain, scanner, tls)"@ + " → "@
        + "current_exe per worker"@;
    assert(s + seq![] =~= s);
    assert(t + seq![] =~= t);
}

/// `field` stands in `row` from `at` on.
pub open spec fn stands_at(row: Seq<char>, at: int, field: Seq<char>) -> bool {
    at + field.len() <= row.len() && row.subrange(at, at + field.len()) == field
}

proof fn lemma_field_at(before: Seq<char>, field: Seq<char>, width: nat, after: Seq<char>)
    requires
        field.len() <= width,
    ensures
        stands_at(before + padded_right(field, width) + after, before.len() as int, field),
        (before + padded_right(field, width)).len() == before.len() + width,
{
    let row = before + padded_right(field, width) + after;
    assert(row.subrange(before.len() as int, before.len() as int + field.len()) =~= field);
}

/// Fields that fit their columns stand one below the other in every line, and nothing is cut off.
#[verifier::rlimit(40)]
pub proof fn columns_stand_one_below_the_other(
    role: Seq<char>,
    state: Seq<char>,
    pid: Seq<char>,
    generation: Seq<char>,
    uptime: Seq<char>,
    restarts: Seq<char>,
    backoff: Seq<char>,
    in_flight: Seq<char>,
    listener: Seq<char>,
)
    requires
        role.len() <= 10,
        state.len() <= 10,
        pid.len() <= 7,
        generation.len() <= 4,
        uptime.len() <= 8,
        restarts.len() <= 9,
        backoff.len() <= 8,
        in_flight.len() <= 10,
    ensures
        ({
            let row = row_text(
                role,
                state,
                pid,
                generation,
                uptime,
                restarts,
                backoff,
                in_flight,
                listener,
            );
            &&& stands_at(row, 0, role)
            &&& stands_at(row, 11, state)
            &&& stands_at(row, 22, pid)
            &&& stands_at(row, 30, generation)
            &&& stands_at(row, 35, uptime)
            &&& stands_at(row, 44, restarts)
            &&& stands_at(row, 54, backoff)
            &&& stands_at(row, 63, in_flight)
            &&& stands_at(row, 74, listener)
            &&& row.len() == 75 + listener.len()
            &&& row.last() == '\n'
        }),
{
    reveal_strlit(" ");
    reveal_strlit("\n");
    let row = row_text(
        role,
        state,
        pid,
        generation,
        uptime,
        restarts,
        backoff,
        in_flight,
        listener,
    );
    let sp = " "@;
    let nothing = Seq::<char>::empty();
    let c0 = padded_right(role, 10) + sp;
    let c1 = c0 + padded_right(state, 10) + sp;
    let c2 = c1 + padded_right(pid, 7) + sp;
    let c3 = c2 + padded_right(generation, 4) + sp;
    let c4 = c3 + padded_right(uptime, 8) + sp;
    let c5 = c4 + padded_right(restarts, 9) + sp;
    let c6 = c5 + padded_right(backoff, 8) + sp;
    let c7 = c6 + padded_right(in_flight, 10) + sp;
    lemma_field_at(nothing, role, 10, row.skip(10));
    lemma_field_at(c0, state, 10, row.skip(21));
    lemma_field_at(c1, pid, 7, row.skip(29));
    lemma_field_at(c2, generation, 4, row.skip(34));
    lemma_field_at(c3, uptime, 8, row.skip(43));
    lemma_field_at(c4, restarts, 9, row.skip(53));
    lemma_field_at(c5, backoff, 8, row.skip(62));
    lemma_field_at(c6, in_flight, 10, row.skip(73));
    assert(row == c7 + listener + "\n"@);
    assert(row.take(10) =~= nothing + padded_right(role, 10));
    lemma_split_row(nothing, padded_right(role, 10), row, 10);
    assert(row.take(21) =~= c0 + padded_right(state, 10));
    lemma_split_row(c0, padded_right(state, 10), row, 21);
    assert(row.take(29) =~= c1 + padded_right(pid, 7));
    lemma_split_row(c1, padded_right(pid, 7), row, 29);
    assert(row.take(34) =~= c2 + padded_right(generation, 4));
    lemma_split_row(c2, padded_right(generation, 4), row, 34);
    assert(row.take(43) =~= c3 + padded_right(uptime, 8));
    lemma_split_row(c3, padded_right(uptime, 8), row, 43);
    assert(row.take(53) =~= c4 + padded_right(restarts, 9));
    lemma_split_row(c4, padded_right(restarts, 9), row, 53);
    assert(row.take(62) =~= c5 + padded_right(backoff, 8));
    lemma_split_row(c5, padded_right(backoff, 8), row, 62);
    assert(row.take(73) =~= c6 + padded_right(in_flight, 10));
    lemma_split_row(c6, padded_right(in_flight, 10), row, 73);
    assert(row.subrange(74, 74int + listener.len()) =~= listener);
}

proof fn lemma_split_row(before: Seq<char>, field: Seq<char>, row: Seq<char>, at: int)
    requires
        before.len() + field.len() == at <= row.len(),
        row.take(at) == before + field,
    ensures
        row == before + field + row.skip(at),
{
    assert(row =~= row.take(at) + row.skip(at));
}

/// The name of a worker and its phase stand at the same places in every line of an upgrade.
#[verifier::rlimit(40)]
pub proof fn steps_stand_one_below_the_other(
    worker: Seq<char>,
    phase: UpgradePhase,
    before: Option<u64>,
    after: Option<u64>,
    ok: bool,
    message: Option<Seq<char>>,
)
    requires
        worker.len() <= 10,
    ensures
        stands_at(step_text(worker, phase, before, after, ok, message), 2, worker),
        stands_at(step_text(worker, phase, before, after, ok, message), 13, phase_text(phase)),
{
    reveal_strlit("✓");
    reveal_strlit("✗");
    reveal_strlit(" ");
    let line = step_text(worker, phase, before, after, ok, message);
    assert(line.subrange(2, 2int + worker.len()) =~= worker);
    let p = phase_text(phase);
    assert(line.subrange(13, 13int + p.len()) =~= p);
}

/// The phases of an upgrade have different names, and so have the states in the table.
pub proof fn phases_and_states_have_different_names(
    a: UpgradePhase,
    b: UpgradePhase,
    s: HealthState,
    t: HealthState,
)
    ensures
        phase_text(a) == phase_text(b) <==> a == b,
        state_text(s) == state_text(t) <==> s == t,
{
    reveal_strlit("starting");
    reveal_strlit("done");
    reveal_strlit("timeout");
    reveal_strlit("skipped");
    reveal_strlit("canary aborted");
    reveal_strlit("healthy");
    reveal_strlit("backoff");
    reveal_strlit("flapping");
    reveal_strlit("FAILED");
    assert("starting"@.len() == 8 && "done"@.len() == 4 && "canary aborted"@.len() == 14);
    assert("timeout"@.len() == 7 && "timeout"@[0] == 't');
    assert("skipped"@.len() == 7 && "skipped"@[0] == 's');
    assert("healthy"@.len() == 7 && "healthy"@[0] == 'h');
    assert("backoff"@.len() == 7 && "backoff"@[0] == 'b');
    assert("flapping"@.len() == 8 && "FAILED"@.len() == 6);
}

/// Whether all has gone well after one more answer.
pub open spec fn well_so_far(before: bool, resp: AdminResp) -> bool {
    match resp {
        AdminResp::UpgradeStep { ok, .. } => before && ok,
        _ => before,
    }
}

/// Whether all has gone well after a series of answers.
pub open spec fn well_after(answers: Seq<AdminResp>) -> bool
    decreases answers.len(),
{
    if answers.len() == 0 {
        true
    } else {
        well_so_far(well_after(answers.drop_last()), answers.last())
    }
}

/// An upgrade has gone well exactly where none of the steps that were reported failed: one that
/// did is not forgotten, whatever comes later.
pub proof fn failed_step_is_not_forgotten(answers: Seq<AdminResp>)
    ensures
        well_after(answers) <==> forall|i: int|
            0 <= i < answers.len() && (#[trigger] answers[i]) is UpgradeStep ==> answers[i]->ok,
    decreases answers.len(),
{
    if answers.len() > 0 {
        let rest = answers.drop_last();
        failed_step_is_not_forgotten(rest);
        assert forall|i: int| 0 <= i < rest.len() implies rest[i] == answers[i] by {}
        if well_after(answers) {
            assert forall|i: int|
                0 <= i < answers.len() && (#[trigger] answers[i])
                    is UpgradeStep implies answers[i]->ok by {
                if i < rest.len() {
                    assert(rest[i] == answers[i]);
                }
            }
        } else {
            if !well_after(rest) {
                let i = choose|i: int|
                    0 <= i < rest.len() && (#[trigger] rest[i]) is UpgradeStep && !rest[i]->ok;
                assert(answers[i] == rest[i]);
            } else {
                assert(answers[answers.len() - 1] == answers.last());
            }
        }
    }
}

} // verus!

//! The admin commands.

use echod::admin::{
    answer_text, format_backoff, format_state, format_uptime, incompatible_answer, judge_answer,
    judge_drain, judge_reload, judge_status, parse_plain_args, parse_upgrade_args,
    print_status_table, upgrade_banner, PlainCommand, StreamStep, UpgradeCommand, UpgradeStream,
};
use echod::control::{AdminResp, HealthState, RoleHealth, UpgradePhase, WorkerStatus};
use echod::fault_inject::Failure;
use echod::rolling::RollingUpgradeRequest;

fn args(list: &[&str]) -> Vec<String> {
    list.iter().map(|a| (*a).to_string()).collect()
}

fn failed<T>(r: Result<T, Failure>) -> String {
    match r {
        Ok(_) => panic!("expected a failure"),
        Err(f) => f.to_text(),
    }
}

fn plain_worker(pid: u32, started_at_unix_ms: u64, in_flight: u64) -> WorkerStatus {
    WorkerStatus {
        role: "plain".into(),
        pid,
        generation: 1,
        started_at_unix_ms,
        in_flight,
        listener_addr: Some("127.0.0.1:7070".into()),
        rate_limiter_stats: None,
    }
}

fn health(role: &str, state: HealthState, next_backoff_ms: u64, restarts: u64) -> RoleHealth {
    RoleHealth {
        role: role.into(),
        state,
        consecutive_fast_exits: 1,
        next_backoff_ms,
        total_restarts: restarts,
        last_restart_at_unix_ms: None,
    }
}

fn step(
    worker: &str,
    phase: UpgradePhase,
    before: Option<u64>,
    after: Option<u64>,
    ok: bool,
    message: Option<&str>,
) -> AdminResp {
    AdminResp::UpgradeStep {
        worker: worker.into(),
        phase,
        generation_before: before,
        generation_after: after,
        ok,
        message: message.map(str::to_string),
    }
}

#[test]
fn upgrade_help_returns_ok() {
    assert!(matches!(parse_upgrade_args(&args(&["--help"])).unwrap(), UpgradeCommand::Help));
    assert!(matches!(parse_upgrade_args(&args(&["-h"])).unwrap(), UpgradeCommand::Help));
}

#[test]
fn upgrade_unknown_arg_errors() {
    let err = failed(parse_upgrade_args(&args(&["--bogus"])));
    assert!(err.contains("unknown argument"), "{err}");
    assert_eq!(err, "unknown argument: --bogus");
}

#[test]
fn upgrade_missing_values_error_before_dial() {
    for flag in ["--target", "--canary", "--role"] {
        let err = failed(parse_upgrade_args(&args(&[flag])));
        assert!(err.contains("requires"), "{flag}: {err}");
    }
    let err = failed(parse_upgrade_args(&args(&["--canary", "soon"])));
    assert!(err.contains("non-negative integer"), "{err}");
}

#[test]
fn upgrade_options_are_read() {
    let parsed = parse_upgrade_args(&args(&[
        "-t", "/opt/a", "--include-tls", "--canary", "15", "-r", "plain", "--target", "/opt/b",
    ]))
    .unwrap();
    match parsed {
        UpgradeCommand::Run(r) => {
            assert_eq!(r.binary_path.as_deref(), Some("/opt/b"));
            assert!(r.include_tls);
            assert_eq!(r.canary_secs, Some(15));
            assert_eq!(r.only_role.as_deref(), Some("plain"));
        }
        UpgradeCommand::Help => panic!("not a call for help"),
    }
}

#[test]
fn upgrade_banner_names_what_is_upgraded() {
    let all = RollingUpgradeRequest {
        binary_path: None,
        include_tls: false,
        canary_secs: None,
        only_role: None,
    };
    assert_eq!(
        upgrade_banner(&all),
        "rolling upgrade (processor, plain, scanner) → current_exe per worker"
    );
    let tls_too = RollingUpgradeRequest { include_tls: true, ..all };
    assert_eq!(
        upgrade_banner(&tls_too),
        "rolling upgrade (processor, plain, scanner, tls) → current_exe per worker"
    );
    let one = RollingUpgradeRequest {
        binary_path: Some("/opt/new".into()),
        include_tls: true,
        canary_secs: Some(5),
        only_role: Some("scanner".into()),
    };
    assert_eq!(upgrade_banner(&one), "rolling upgrade (scanner) → /opt/new, canary 5s");
}

#[test]
fn status_drain_reload_help_and_unknown_arg() {
    assert_eq!(parse_plain_args(&args(&["--help"])).unwrap(), PlainCommand::Help);
    assert_eq!(parse_plain_args(&args(&["-h"])).unwrap(), PlainCommand::Help);
    assert_eq!(parse_plain_args(&args(&["--help"])).unwrap(), PlainCommand::Help);
    assert_eq!(parse_plain_args(&args(&[])).unwrap(), PlainCommand::Run);
    for run in ["status", "drain", "reload"] {
        let err = failed(parse_plain_args(&args(&["--nope"])));
        assert!(err.contains("unknown argument"), "{run}: {err}");
    }
}

#[test]
fn format_helpers_cover_all_branches() {
    assert_eq!(format_state(HealthState::Healthy), "healthy");
    assert_eq!(format_state(HealthState::Backoff), "backoff");
    assert_eq!(format_state(HealthState::Flapping), "flapping");
    assert_eq!(format_state(HealthState::Failed), "FAILED");

    assert_eq!(format_backoff(500), "500ms");
    assert_eq!(format_backoff(1500), "1.5s");

    assert_eq!(format_uptime(5), "5s");
    assert_eq!(format_uptime(65), "1m05s");
    assert_eq!(format_uptime(3700), "1h01m");
}

#[test]
fn backoff_is_cut_and_not_rounded() {
    assert_eq!(format_backoff(999), "999ms");
    assert_eq!(format_backoff(1999), "1.9s");
    assert_eq!(format_backoff(30_000), "30.0s");
    assert_eq!(format_uptime(59), "59s");
    assert_eq!(format_uptime(60), "1m00s");
    assert_eq!(format_uptime(3599), "59m59s");
}

#[test]
fn print_status_table_empty_and_populated() {
    let header = "ROLE       STATE      PID     GEN  UPTIME   RESTARTS  BACKOFF  IN_FLIGHT  LISTENER\n";
    assert_eq!(
        print_status_table(&vec![], &vec![], 1_700_000_065_000),
        format!("{header}(no workers connected)\n")
    );

    let workers = vec![plain_worker(11, 1_700_000_000_000, 3)];
    let states = vec![health("scanner", HealthState::Flapping, 1500, 9)];
    let table = print_status_table(&workers, &states, 1_700_000_065_000);
    assert_eq!(
        table,
        format!(
            "{header}\
             processor  -          -       -    -        -         -        -          -\n\
             plain      -          11      1    1m05s    -         -        3          127.0.0.1:7070\n\
             tls        -          -       -    -        -         -        -          -\n\
             scanner    flapping   -       -    -        9         1.5s     -          -\n"
        )
    );
}

#[test]
fn run_status_prints_table_on_status_response() {
    let workers = vec![plain_worker(42, 1_700_000_000_000, 0)];
    let states = vec![health("plain", HealthState::Healthy, 0, 0)];
    let (w, h) = judge_status(AdminResp::Status { workers, health: states }).unwrap();
    let table = print_status_table(&w, &h, 1_700_003_700_000);
    assert!(table.contains(
        "plain      healthy    42      1    1h01m    0         0ms      0          127.0.0.1:7070\n"
    ));
}

#[test]
fn run_status_error_and_unexpected_responses() {
    let err = failed(judge_status(AdminResp::Error { message: "boom".into() }));
    assert!(err.contains("admin error"), "{err}");
    assert_eq!(err, "admin error: boom");
    let err = failed(judge_status(AdminResp::Okay));
    assert!(err.contains("unexpected response"), "{err}");
}

#[test]
fn dial_and_request_closed_and_malformed() {
    let err = failed(judge_answer(answer_text("")));
    assert!(err.contains("closed connection"), "{err}");
    let err = failed(judge_answer(answer_text(" \r\n")));
    assert!(err.contains("closed connection"), "{err}");
    let raw = judge_answer(answer_text("  not json\n")).unwrap();
    assert_eq!(raw, "not json");
    assert!(incompatible_answer(&raw).contains("admin response"));
    assert_eq!(incompatible_answer(&raw), "incompatible admin response: not json");
}

#[test]
fn run_drain_all_arms() {
    assert_eq!(
        judge_drain(AdminResp::Okay).unwrap(),
        "drained: acceptors stopped accepting; existing sessions continue"
    );
    assert!(failed(judge_drain(AdminResp::Error { message: "no".into() })).contains("admin error"));
    assert!(failed(judge_drain(AdminResp::Status { workers: vec![], health: vec![] }))
        .contains("unexpected response"));
}

#[test]
fn run_reload_all_arms() {
    assert_eq!(judge_reload(AdminResp::Okay).unwrap(), "reload broadcast to all workers");
    assert!(failed(judge_reload(AdminResp::Error { message: "no".into() })).contains("admin error"));
    assert!(failed(judge_reload(AdminResp::UpgradeComplete { all_ok: true }))
        .contains("unexpected response"));
}

#[test]
fn run_upgrade_streams_all_phases_to_completion() {
    let mut stream = UpgradeStream::new();
    let mut lines: Vec<String> = Vec::new();
    for (phase, before, after) in [
        (UpgradePhase::Starting, None, None),
        (UpgradePhase::Done, Some(1), Some(2)),
        (UpgradePhase::Timeout, Some(3), None),
        (UpgradePhase::Skipped, None, None),
        (UpgradePhase::CanaryAborted, None, None),
    ] {
        let resp = step("plain", phase, before, after, true, Some("moved"));
        match stream.stream_upgrade(resp, "raw").unwrap() {
            StreamStep::Line(line) => lines.push(line),
            StreamStep::Complete => panic!("a step does not complete the upgrade"),
        }
    }
    assert_eq!(
        lines,
        vec![
            "✓ plain      starting — moved",
            "✓ plain      done (gen 1 → 2) — moved",
            "✓ plain      timeout (gen 3) — moved",
            "✓ plain      skipped — moved",
            "✓ plain      canary aborted — moved",
        ]
    );
    assert!(matches!(
        stream.stream_upgrade(AdminResp::UpgradeComplete { all_ok: true }, "raw").unwrap(),
        StreamStep::Complete
    ));
}

#[test]
fn run_upgrade_failure_and_error_and_unexpected() {
    let mut stream = UpgradeStream::new();
    let failing = step("tls", UpgradePhase::Timeout, Some(1), None, false, None);
    match stream.stream_upgrade(failing, "raw").unwrap() {
        StreamStep::Line(line) => assert_eq!(line, "✗ tls        timeout (gen 1)"),
        StreamStep::Complete => panic!("a step does not complete the upgrade"),
    }
    assert!(failed(stream.stream_upgrade(AdminResp::UpgradeComplete { all_ok: false }, "raw"))
        .contains("upgrade failed"));
    // Nor does the supervisor's word help once a step has failed.
    assert!(failed(stream.stream_upgrade(AdminResp::UpgradeComplete { all_ok: true }, "raw"))
        .contains("upgrade failed"));

    let mut stream = UpgradeStream::new();
    assert!(failed(stream.stream_upgrade(AdminResp::Error { message: "nope".into() }, "raw"))
        .contains("admin error"));

    let mut stream = UpgradeStream::new();
    let err = failed(stream.stream_upgrade(AdminResp::Okay, "{\"type\":\"ok\"}"));
    assert!(err.contains("unexpected response during rolling upgrade"));
    assert_eq!(err, "unexpected response during rolling upgrade: {\"type\":\"ok\"}");

    let mut stream = UpgradeStream::new();
    let starting = step("plain", UpgradePhase::Starting, None, None, true, None);
    assert!(stream.stream_upgrade(starting, "raw").is_ok());
    assert!(UpgradeStream::closed_early().to_text().contains("without UpgradeComplete"));
}

//! What one image hands to the next.

use echod::config::SandboxMode;
use echod::handoff::{
    cap_mode_handoff, elf_has_interpreter, env_generation, env_pid, env_raw_fd,
    fdpass_env_to_remove, ready_ack, ready_outcome, require_static_for_capmode_upgrade,
    resolve_upgrade_exe, successor_env, upgrade_env, upgrade_verdict, CapModeHandoff,
    HandoffDirFds, ReadyOutcome, TraceIds, Transport, UpgradeVerdict,
    STATIC_REQUIRED, UPGRADE_COMMIT_EXIT_CODE,
};
use echod::self_upgrade::env_value;
use echod::time::{duration_millis_u64, now_unix_ms, unix_ms, Span};

fn pairs(list: &[(&str, &str)]) -> Vec<(String, String)> {
    list.iter().map(|(k, v)| ((*k).to_string(), (*v).to_string())).collect()
}

fn names(list: &[&str]) -> Vec<String> {
    list.iter().map(|n| (*n).to_string()).collect()
}

#[test]
fn new_trace_id_format() {
    let mut ids = TraceIds { pid: 0x1a2b, next: 0 };
    let a = ids.new_trace_id();
    let b = ids.new_trace_id();
    assert_eq!(a.len(), 8 + 1 + 16);
    assert!(a.contains('-'));
    assert_ne!(a, b, "counter must advance between calls");
    assert_eq!(a, "00001a2b-0000000000000000");
    assert_eq!(b, "00001a2b-0000000000000001");
}

#[test]
fn trace_counter_starts_over() {
    let mut ids = TraceIds { pid: u32::MAX, next: u64::MAX };
    assert_eq!(ids.new_trace_id(), "ffffffff-ffffffffffffffff");
    assert_eq!(ids.next, 0);
}

#[test]
fn env_raw_fd_parses_valid_numeric() {
    assert_eq!(env_raw_fd(Some("42")), Some(42));
}

#[test]
fn env_raw_fd_returns_none_when_unset() {
    assert_eq!(env_raw_fd(None), None);
}

#[test]
fn env_raw_fd_returns_none_for_non_numeric() {
    assert_eq!(env_raw_fd(Some("notanumber")), None);
}

#[test]
fn numbers_in_variables_parse_as_rust_does() {
    assert_eq!(env_raw_fd(Some("-1")), Some(-1));
    assert_eq!(env_raw_fd(Some("+7")), Some(7));
    assert_eq!(env_raw_fd(Some("2147483647")), Some(i32::MAX));
    assert_eq!(env_raw_fd(Some("2147483648")), None);
    assert_eq!(env_raw_fd(Some("-2147483648")), Some(i32::MIN));
    assert_eq!(env_raw_fd(Some("")), None);
    assert_eq!(env_raw_fd(Some("-")), None);
    assert_eq!(env_raw_fd(Some(" 1")), None);
    assert_eq!(env_pid(Some("4294967295")), Some(u32::MAX));
    assert_eq!(env_pid(Some("-1")), None);
    assert_eq!(env_pid(None), None);
    assert_eq!(env_generation(Some("18446744073709551615")), u64::MAX);
    assert_eq!(env_generation(Some("18446744073709551616")), 0);
    assert_eq!(env_generation(None), 0);
}

#[test]
fn resolve_upgrade_exe_uses_override_when_some() {
    assert_eq!(
        resolve_upgrade_exe(Some("/opt/new-echod".into()), "/opt/old-echod"),
        "/opt/new-echod"
    );
}

#[test]
fn resolve_upgrade_exe_falls_back_to_cached_when_none() {
    assert_eq!(resolve_upgrade_exe(None, "/opt/old-echod"), "/opt/old-echod");
}

#[test]
fn fdpass_env_to_remove_includes_fdpass_and_excludes_preserved() {
    let list = fdpass_env_to_remove(&names(&[
        "PATH",
        "FDPASS_TEST_TOREMOVE_SENTINEL",
        "FDPASS_LOG_FORMAT",
        "FDPASS_CONFIG_PATH",
        "FDPASS_",
        "fdpass_x",
    ]));
    assert!(
        list.contains(&"FDPASS_TEST_TOREMOVE_SENTINEL".to_string()),
        "FDPASS_TEST_TOREMOVE_SENTINEL must appear in the remove list"
    );
    assert!(
        !list.contains(&"FDPASS_LOG_FORMAT".to_string()),
        "FDPASS_LOG_FORMAT is preserved and must not appear in the remove list"
    );
    assert_eq!(list, vec!["FDPASS_TEST_TOREMOVE_SENTINEL", "FDPASS_"]);
}

#[test]
fn successor_sees_no_stale_variable() {
    let current = pairs(&[("HOME", "/root"), ("FDPASS_READY_FD", "9"), ("FDPASS_LISTENER_FD", "4")]);
    let all: Vec<String> = current.iter().map(|(k, _)| k.clone()).collect();
    let env = successor_env(
        &current,
        &fdpass_env_to_remove(&all),
        &pairs(&[("FDPASS_LISTENER_FD", "5")]),
    );
    assert_eq!(env, pairs(&[("HOME", "/root"), ("FDPASS_LISTENER_FD", "5")]));
}

#[test]
fn upgrade_variables_read_back() {
    let env = upgrade_env(7, Some(8), 4, Some(9));
    assert_eq!(
        env,
        pairs(&[
            ("FDPASS_LISTENER_FD", "7"),
            ("FDPASS_SESSIONS_FD", "8"),
            ("FDPASS_GENERATION", "5"),
            ("FDPASS_READY_FD", "9"),
        ])
    );
    assert_eq!(env_raw_fd(env_value(&env, "FDPASS_LISTENER_FD")), Some(7));
    assert_eq!(env_generation(env_value(&env, "FDPASS_GENERATION")), 5);
    assert_eq!(
        upgrade_env(3, None, 0, None),
        pairs(&[("FDPASS_LISTENER_FD", "3"), ("FDPASS_GENERATION", "1")])
    );
}

#[test]
fn now_unix_ms_returns_reasonable_value() {
    let ms = now_unix_ms();
    assert!(ms > 1_577_836_800_000, "now_unix_ms too small: {ms}");
    assert!(ms < 4_102_444_800_000, "now_unix_ms too large: {ms}");
}

#[test]
fn milliseconds_are_cut_and_saturate() {
    assert_eq!(duration_millis_u64(Span { nanos: 1_999_999 }), 1);
    assert_eq!(duration_millis_u64(Span { nanos: u128::MAX }), u64::MAX);
    assert_eq!(unix_ms(None), 0);
    assert_eq!(unix_ms(Some(Span::from_secs(2))), 2000);
    assert_eq!(Span::from_micros(3).nanos, 3000);
}

#[test]
fn ready_signal_is_recognised() {
    assert_eq!(ready_ack(), b"ok\n");
    assert_eq!(ready_outcome(&ready_ack()), ReadyOutcome::Ready);
    assert_eq!(ready_outcome(b"okay"), ReadyOutcome::Ready);
    assert_eq!(ready_outcome(b"o"), ReadyOutcome::NotOk);
    assert_eq!(ready_outcome(b"no"), ReadyOutcome::NotOk);
}

#[test]
fn wait_for_child_ready_succeeds_when_pipe_written() {
    assert_eq!(
        upgrade_verdict(Some(ready_outcome(b"ok\n"))),
        UpgradeVerdict::Commit { exit_code: UPGRADE_COMMIT_EXIT_CODE }
    );
    assert_eq!(UPGRADE_COMMIT_EXIT_CODE, 23);
}

#[test]
fn wait_for_child_ready_errors_on_eof() {
    assert_eq!(ready_outcome(b""), ReadyOutcome::Closed);
    assert_eq!(upgrade_verdict(Some(ReadyOutcome::Closed)), UpgradeVerdict::Rollback);
    assert_eq!(upgrade_verdict(Some(ReadyOutcome::NotOk)), UpgradeVerdict::Rollback);
    assert_eq!(upgrade_verdict(None), UpgradeVerdict::Rollback);
}

#[test]
fn confined_successor_gets_the_open_descriptors() {
    let handoff = CapModeHandoff {
        self_exe_fd: 10,
        self_exe_path: "/opt/echod".into(),
        sockets_fd: Some(11),
        cert_fd: None,
        key_fd: Some(13),
    };
    let mut env = pairs(&[("A", "1")]);
    let fds = cap_mode_handoff(&mut env, "{}", &handoff, false, SandboxMode::Strict);
    assert_eq!(fds, vec![10, 11, 13]);
    assert_eq!(
        env,
        pairs(&[
            ("A", "1"),
            ("FDPASS_CONFIG_JSON", "{}"),
            ("FDPASS_SELF_EXE_FD", "10"),
            ("FDPASS_SOCKETS_DIR_FD", "11"),
            ("FDPASS_KEY_DIR_FD", "13"),
            ("FDPASS_SELF_EXE_PATH", "/opt/echod"),
        ])
    );
    let mut env = pairs(&[("A", "1")]);
    assert!(cap_mode_handoff(&mut env, "{}", &handoff, true, SandboxMode::Strict).is_empty());
    assert!(cap_mode_handoff(&mut env, "{}", &handoff, false, SandboxMode::Off).is_empty());
    assert_eq!(env, pairs(&[("A", "1")]));
}

#[test]
fn confined_successor_reads_every_descriptor_back() {
    let handoff = CapModeHandoff {
        self_exe_fd: 10,
        self_exe_path: "/opt/echod".into(),
        sockets_fd: Some(11),
        cert_fd: None,
        key_fd: Some(13),
    };
    let mut env = pairs(&[("FDPASS_KEY_DIR_FD", "99")]);
    cap_mode_handoff(&mut env, "{}", &handoff, false, SandboxMode::Log);
    assert_eq!(env_value(&env, "FDPASS_CONFIG_JSON"), Some("{}"));
    assert_eq!(env_value(&env, "FDPASS_SELF_EXE_PATH"), Some("/opt/echod"));
    assert_eq!(env_raw_fd(env_value(&env, "FDPASS_SELF_EXE_FD")), Some(10));
    assert_eq!(env_raw_fd(env_value(&env, "FDPASS_SOCKETS_DIR_FD")), Some(11));
    assert_eq!(env_raw_fd(env_value(&env, "FDPASS_CERT_DIR_FD")), None);
    assert_eq!(env_raw_fd(env_value(&env, "FDPASS_KEY_DIR_FD")), Some(13));
}

/// A 64-bit little-endian ELF image with one program header of this type.
fn image(p_type: u32) -> Vec<u8> {
    let mut b = vec![0u8; 64];
    b[..4].copy_from_slice(b"\x7fELF");
    b[4] = 2;
    b[5] = 1;
    b[32..40].copy_from_slice(&64u64.to_le_bytes());
    b[54..56].copy_from_slice(&56u16.to_le_bytes());
    b[56..58].copy_from_slice(&1u16.to_le_bytes());
    b.extend_from_slice(&p_type.to_le_bytes());
    b
}

#[test]
fn interpreter_is_found_in_an_image() {
    assert!(elf_has_interpreter(&image(3)));
    assert!(!elf_has_interpreter(&image(1)));
    assert!(!elf_has_interpreter(b"#!/bin/sh"));
    let mut short = image(3);
    short.truncate(66);
    assert!(!elf_has_interpreter(&short));
    let mut negative = image(3);
    negative[32..40].copy_from_slice(&(-8i64).to_le_bytes());
    assert!(!elf_has_interpreter(&negative));
    let mut wide = image(3);
    wide[4] = 1;
    assert!(!elf_has_interpreter(&wide));
}

#[test]
fn dynamic_image_is_refused_under_confinement_only() {
    assert_eq!(
        require_static_for_capmode_upgrade(true, &image(3)),
        Err(STATIC_REQUIRED.to_string())
    );
    assert_eq!(require_static_for_capmode_upgrade(false, &image(3)), Ok(()));
    assert_eq!(require_static_for_capmode_upgrade(true, &image(1)), Ok(()));
}

#[test]
fn defaults_hand_over_nothing() {
    let d = HandoffDirFds::default();
    assert_eq!((d.sockets, d.cert, d.key), (None, None, None));
    assert_eq!(Transport::default(), Transport::Uds);
}

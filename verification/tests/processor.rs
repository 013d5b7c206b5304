//! The processor's sessions and what it knows about their peers.

use echod::control::{ProcessorPreamble, SessionMetadata};
use echod::handoff::{SessionHandoff, Transport};
use echod::processor::{
    adopt_inflight_sessions, cleanup_generation_zero_socket, dispatch_incoming, keep_understood,
    parse_handoff_sessions_payload, read_handoff_sessions_json, read_preamble, readopt_sessions,
    Adoption, Dispatch, HandoffSessionsSource, Inherited, PreambleStep, SessionRegistry,
    SessionsPayload,
};
use echod::schema::SCHEMA_VERSION;
use echod::session::{EchoSession, SessionStep};

fn metadata(peer: &str) -> SessionMetadata {
    SessionMetadata {
        peer: peer.to_string(),
        ident: Some("client-ident".to_string()),
        trace_id: "trace-1".to_string(),
    }
}

fn sample_handoff(fd: i32, version: u32, peer: &str, ident: Option<&str>) -> SessionHandoff {
    SessionHandoff {
        uds_fd: fd,
        transport: Transport::Uds,
        partial_line_bytes: b"pending".to_vec(),
        pending_write_bytes: Vec::new(),
        lines_echoed: 3,
        connected_at_unix_ms: 1_700_000_000_000,
        peer: peer.to_string(),
        ident: ident.map(str::to_string),
        trace_id: format!("trace-{peer}"),
        version,
    }
}

/// Decodes a list of handed-over sessions.
fn decode(json: &str) -> Result<Vec<SessionHandoff>, String> {
    let list: serde_json::Value = serde_json::from_str(json).map_err(|e| e.to_string())?;
    Ok(list
        .as_array()
        .unwrap()
        .iter()
        .map(|v| SessionHandoff {
            uds_fd: i32::try_from(v["uds_fd"].as_i64().unwrap()).unwrap(),
            transport: Transport::Uds,
            partial_line_bytes: Vec::new(),
            pending_write_bytes: Vec::new(),
            lines_echoed: v["lines_echoed"].as_u64().unwrap_or(0),
            connected_at_unix_ms: v["connected_at_unix_ms"].as_u64().unwrap_or(0),
            peer: v["peer"].as_str().unwrap_or("").to_string(),
            ident: None,
            trace_id: String::new(),
            version: 1,
        })
        .collect())
}

#[test]
fn sidecar_metadata_for_inactive_peer_is_not_stored() {
    let mut registry = SessionRegistry::new();
    let active = registry.store_metadata_if_session_active(metadata("peer-a"));
    assert!(!active);
    assert!(!registry.metadata.contains_key("peer-a"));
}

#[test]
fn sidecar_metadata_for_active_peer_is_stored() {
    let mut registry = SessionRegistry::new();
    registry.register("peer-a".into());
    let active = registry.store_metadata_if_session_active(metadata("peer-a"));
    assert!(active);
    assert_eq!(
        registry.metadata.get("peer-a").and_then(|m| m.ident.as_deref()),
        Some("client-ident")
    );
}

#[test]
fn last_session_of_a_peer_takes_its_metadata_along() {
    let mut registry = SessionRegistry::new();
    let a = registry.register("peer".into());
    let b = registry.register("peer".into());
    assert_ne!(a, b);
    assert!(registry.store_metadata_if_session_active(metadata("peer")));
    registry.end(a, "peer");
    assert!(registry.metadata_for("peer").is_some());
    assert_eq!(registry.in_flight(), 1);
    registry.end(b, "peer");
    assert!(registry.metadata_for("peer").is_none());
    assert_eq!(registry.in_flight(), 0);
}

#[test]
fn abandoned_session_keeps_metadata() {
    let mut registry = SessionRegistry::new();
    let a = registry.register("peer".into());
    assert!(registry.store_metadata_if_session_active(metadata("peer")));
    registry.abandon(a);
    assert_eq!(registry.in_flight(), 0);
    assert!(registry.metadata_for("peer").is_some());
}

#[test]
fn fd_session_payload_parse_error_is_fatal() {
    let r = parse_handoff_sessions_payload(HandoffSessionsSource::Fd, decode("not-json"));
    let err = match r {
        Ok(_) => panic!("expected a failure"),
        Err(f) => f.to_text(),
    };
    assert!(
        err.contains("FDPASS_SESSIONS_FD"),
        "error should identify the inherited session FD payload: {err}"
    );
}

#[test]
fn env_session_payload_parse_error_is_nonfatal() {
    let parsed =
        parse_handoff_sessions_payload(HandoffSessionsSource::Env, decode("not-json")).unwrap();
    assert!(parsed.is_none());
}

#[test]
fn parse_handoff_sessions_payload_ok_returns_sessions() {
    let json = r#"[{"uds_fd":5,"transport":"uds","partial_line_bytes":[],"lines_echoed":3,"connected_at_unix_ms":1000,"peer":"1.2.3.4:5678","version":1}]"#;
    let sessions = parse_handoff_sessions_payload(HandoffSessionsSource::Env, decode(json))
        .unwrap()
        .unwrap();
    assert_eq!(sessions.len(), 1);
    assert_eq!(sessions[0].uds_fd, 5);
    assert_eq!(sessions[0].lines_echoed, 3);
    assert_eq!(sessions[0].peer, "1.2.3.4:5678");
}

#[test]
fn cleanup_generation_zero_socket_removes_file() {
    assert!(cleanup_generation_zero_socket(0), "gen-0 must delete the socket file");
}

#[test]
fn cleanup_generation_zero_socket_leaves_file_for_later_generations() {
    assert!(!cleanup_generation_zero_socket(1), "gen-1 must not delete the socket file");
}

#[test]
fn read_handoff_sessions_prefers_inherited_fd_over_env_payload() {
    let env_json = r#"[{"uds_fd":99,"peer":"env-peer"}]"#.to_string();
    let payload = read_handoff_sessions_json(Inherited::Value("7".into()), Some(env_json));
    assert!(matches!(payload, Ok(SessionsPayload::FromFd(7))));
    let inline = read_handoff_sessions_json(Inherited::Unset, Some("[]".into()));
    assert!(matches!(inline, Ok(SessionsPayload::Inline(j)) if j == "[]"));
    assert!(matches!(
        read_handoff_sessions_json(Inherited::Unset, None),
        Ok(SessionsPayload::Absent)
    ));
}

#[test]
fn malformed_inherited_fd_is_fatal_even_if_env_payload_exists() {
    let env_json = r#"[{"uds_fd":5,"peer":"env-peer"}]"#.to_string();
    let r = read_handoff_sessions_json(Inherited::Value("not-a-fd".into()), Some(env_json));
    let Err(err) = r else {
        panic!("a malformed descriptor should not fall back to env payload");
    };
    assert!(err.to_text().contains("FDPASS_SESSIONS_FD"));
    let Err(err) = read_handoff_sessions_json(Inherited::NotText, None) else {
        panic!("a descriptor that is no text should fail");
    };
    assert_eq!(err.to_text(), "FDPASS_SESSIONS_FD");
}

#[test]
fn adopt_inflight_sessions_skips_incompatible_records_only() {
    let mut registry = SessionRegistry::new();
    let adopted = adopt_inflight_sessions(
        &mut registry,
        vec![
            sample_handoff(4, SCHEMA_VERSION, "peer-a", Some("alice")),
            sample_handoff(5, SCHEMA_VERSION + 1, "peer-b", Some("bob")),
        ],
    );
    assert_eq!(adopted.len(), 1, "only the compatible session should be adopted");
    assert!(matches!(&adopted[0], Adoption::Resume { fd: 4, .. }));
    assert_eq!(
        registry.metadata.get("peer-a").and_then(|m| m.ident.as_deref()),
        Some("alice")
    );
    assert!(!registry.metadata.contains_key("peer-b"));
}

#[test]
fn understood_sessions_keep_their_order() {
    let kept = keep_understood(vec![
        sample_handoff(1, 1, "a", None),
        sample_handoff(2, 0, "b", None),
        sample_handoff(3, 1, "c", None),
    ]);
    assert_eq!(kept.iter().map(|h| h.uds_fd).collect::<Vec<_>>(), vec![1, 3]);
}

#[test]
fn legacy_tcp_session_is_declined() {
    let mut registry = SessionRegistry::new();
    let mut h = sample_handoff(9, 1, "p", None);
    h.transport = Transport::Tcp;
    let adopted = readopt_sessions(&mut registry, vec![h]);
    assert!(matches!(adopted[0], Adoption::Decline { fd: 9 }));
}

#[test]
fn adopted_session_flushes_pending_write_and_echoes_buffered_lines() {
    let mut session = EchoSession::resume(b"b\nc\n".to_vec(), b"a\n".to_vec(), 0);
    let mut out: Vec<u8> = Vec::new();
    while session.step() == SessionStep::Write {
        out.extend_from_slice(&session.pending);
        let n = session.pending.len();
        session.wrote(n);
    }
    assert_eq!(out, b"a\nb\nc\n");
    assert_eq!(session.step(), SessionStep::Read);
    assert_eq!(session.lines_echoed, 2);
}

#[test]
fn handoff_carries_what_is_known() {
    let mut registry = SessionRegistry::new();
    registry.register("peer-a".into());
    assert!(registry.store_metadata_if_session_active(metadata("peer-a")));
    let h = registry.enrich_handoff(sample_handoff(4, 1, "peer-a", None));
    assert_eq!(h.ident.as_deref(), Some("client-ident"));
    let other = registry.enrich_handoff(sample_handoff(4, 1, "peer-b", Some("kept")));
    assert_eq!(other.ident.as_deref(), Some("kept"));
    assert_eq!(registry.take_sessions().len(), 1);
    assert_eq!(registry.in_flight(), 0);
}

#[test]
fn preamble_is_the_first_line() {
    let mut buf = b"{\"kind\":\"sidecar\"}\r\nrest".to_vec();
    match read_preamble(&mut buf, false) {
        PreambleStep::Line(line) => assert_eq!(line, "{\"kind\":\"sidecar\"}"),
        _ => panic!("the line is there"),
    }
    assert_eq!(buf, b"rest");
    assert!(matches!(read_preamble(&mut b"half".to_vec(), false), PreambleStep::NeedMore));
    assert!(matches!(
        read_preamble(&mut Vec::new(), true),
        PreambleStep::Drop(why) if why == "uds closed before preamble"
    ));
    assert!(matches!(
        read_preamble(&mut b"\xff\n".to_vec(), false),
        PreambleStep::Drop(why) if why == "preamble decode error"
    ));
}

#[test]
fn connection_is_dispatched_by_its_preamble() {
    let session = ProcessorPreamble::Session {
        peer: "p".into(),
        role: "plain".into(),
        trace_id: "t".into(),
    };
    match dispatch_incoming(session, b"hi\n".to_vec()) {
        Dispatch::Session { session, peer, trace_id } => {
            assert_eq!((peer.as_str(), trace_id.as_str()), ("p", "t"));
            assert_eq!(session.received, b"hi\n");
            assert_eq!(session.lines_echoed, 0);
        }
        Dispatch::Sidecar { .. } => panic!("a session was announced"),
    }
    assert!(matches!(
        dispatch_incoming(ProcessorPreamble::Sidecar, b"x".to_vec()),
        Dispatch::Sidecar { received } if received == b"x"
    ));
}

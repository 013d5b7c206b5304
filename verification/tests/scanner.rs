//! Lookups about clients.

use echod::acceptor::{scan_request, Role};
use echod::scanner::{
    drain_lookups, endpoint, ident_reply, ident_request, scan_result, ScanDrain, ScanRequest,
    ScannerRegistry,
};

#[test]
fn scan_request_deserializes_session_observed() {
    let json = r#"{"type":"session_observed","client_ip":"1.2.3.4","client_port":1234,"server_port":7070,"role":"plain","trace_id":"abc123"}"#;
    let value: serde_json::Value = serde_json::from_str(json).unwrap();
    let ScanRequest::SessionObserved { client_ip, client_port, server_port, role, trace_id } =
        scan_request(Role::Plain, "1.2.3.4".into(), 1234, 7070, "abc123".into());
    assert_eq!(value["type"], "session_observed");
    assert_eq!(value["client_ip"], client_ip);
    assert_eq!(value["client_port"], client_port);
    assert_eq!(value["server_port"], server_port);
    assert_eq!(value["role"], role);
    assert_eq!(value["trace_id"], trace_id);
    assert_eq!(client_ip, "1.2.3.4");
    assert_eq!(client_port, 1234);
    assert_eq!(server_port, 7070);
    assert_eq!(role, "plain");
    assert_eq!(trace_id, "abc123");
}

#[test]
fn ident_lookup_returns_username_from_mock_identd() {
    assert_eq!(ident_request(12345, 7070), "12345,7070\r\n");
    assert_eq!(
        ident_reply(Some(b"12345, 7070 : USERID : UNIX : alice\r\n".to_vec())).as_deref(),
        Some("12345, 7070 : USERID : UNIX : alice")
    );
}

#[test]
fn ident_lookup_returns_none_when_nothing_listens() {
    assert_eq!(endpoint("127.0.0.1", 1), "127.0.0.1:1");
    assert_eq!(ident_reply(None), None);
}

#[test]
fn ident_lookup_returns_none_when_server_closes_without_responding() {
    assert_eq!(ident_reply(Some(Vec::new())), None, "empty response should yield None");
}

#[test]
fn ident_exchange_returns_trimmed_reply() {
    assert_eq!(ident_request(5000, 113), "5000,113\r\n");
    assert_eq!(
        ident_reply(Some(b"5000, 113 : USERID : UNIX : alice\r\n".to_vec())).as_deref(),
        Some("5000, 113 : USERID : UNIX : alice")
    );
}

#[test]
fn ident_exchange_empty_reply_returns_none() {
    assert_eq!(ident_reply(Some(vec![])), None);
}

#[test]
fn undecodable_reply_is_repaired() {
    assert_eq!(ident_reply(Some(b" a\xffb \n".to_vec())).as_deref(), Some("a\u{fffd}b"));
    assert_eq!(ident_reply(Some(b" \r\n".to_vec())).as_deref(), Some(""));
}

#[test]
fn result_is_filed_under_the_peer() {
    let m = scan_result("10.0.0.1", 9999, Some("bob".into()), "tr".into());
    assert_eq!(m.peer, "10.0.0.1:9999");
    assert_eq!(m.ident.as_deref(), Some("bob"));
    assert_eq!(m.trace_id, "tr");
}

#[test]
fn lookups_are_counted() {
    let mut r = ScannerRegistry::new();
    let a = r.begin();
    let b = r.begin();
    assert_ne!(a, b);
    assert_eq!(r.len(), 2);
    r.end(a);
    r.end(a);
    assert_eq!(r.len(), 1);
    r.end(b);
    assert_eq!(r.len(), 0);
}

#[test]
fn upgrade_waits_for_lookups_until_the_deadline() {
    assert_eq!(drain_lookups(0, 5, 10), ScanDrain::Done);
    assert_eq!(drain_lookups(2, 10, 10), ScanDrain::Wait);
    assert_eq!(drain_lookups(2, 11, 10), ScanDrain::Abandon);
}

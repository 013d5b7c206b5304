//! The health endpoint.

use echod::control::{HealthState, RoleHealth};
use echod::health::{
    any_failed, body_with_names, drain_headers, health_body, health_response, response_around,
    state_name,
};

fn role(name: &str, state: HealthState, fast_exits: u32, backoff: u64) -> RoleHealth {
    RoleHealth {
        role: name.into(),
        state,
        consecutive_fast_exits: fast_exits,
        next_backoff_ms: backoff,
        total_restarts: 1,
        last_restart_at_unix_ms: None,
    }
}

fn healthy() -> Vec<RoleHealth> {
    vec![
        role("processor", HealthState::Healthy, 0, 200),
        role("plain", HealthState::Backoff, 1, 400),
    ]
}

fn one_failed() -> Vec<RoleHealth> {
    let mut v = healthy();
    v.push(role("scanner", HealthState::Failed, 12, 30_000));
    v
}

fn status_of(response: &str) -> u16 {
    response.split_whitespace().nth(1).unwrap().parse().unwrap()
}

#[test]
fn state_name_covers_all_variants() {
    assert_eq!(state_name(HealthState::Healthy), "healthy");
    assert_eq!(state_name(HealthState::Backoff), "backoff");
    assert_eq!(state_name(HealthState::Flapping), "flapping");
    assert_eq!(state_name(HealthState::Failed), "failed");
}

#[test]
fn flapping_state_appears_in_health_body() {
    let response = health_response(&vec![role("tls", HealthState::Flapping, 5, 16_000)]);
    assert_eq!(status_of(&response), 200, "flapping is not failed; body: {response}");
    assert!(response.contains("\"state\":\"flapping\""));
}

#[test]
fn oversized_request_still_gets_response() {
    assert!(drain_headers(&vec![b'A'; 4096], 4096));
    let response = health_response(&healthy());
    assert!(response.contains("HTTP/1.1 200"), "should still reply: {response}");
}

#[test]
fn returns_200_when_all_roles_healthy_or_backoff() {
    let response = health_response(&healthy());
    assert_eq!(status_of(&response), 200, "body was: {response}");
    assert!(response.contains("\"status\":\"ok\""));
    assert!(response.contains("\"role\":\"processor\""));
    assert!(response.contains("\"state\":\"backoff\""));
}

#[test]
fn returns_503_when_any_role_failed() {
    let response = health_response(&one_failed());
    assert_eq!(status_of(&response), 503, "body was: {response}");
    assert!(response.contains("\"status\":\"degraded\""));
    assert!(response.contains("\"state\":\"failed\""));
    assert!(any_failed(&one_failed()));
    assert!(!any_failed(&healthy()));
}

#[test]
fn response_is_exact() {
    let body = "{\"status\":\"ok\",\"roles\":[{\"role\":\"processor\",\"state\":\"healthy\"},{\"role\":\"plain\",\"state\":\"backoff\"}]}";
    assert_eq!(health_body(&healthy()), body);
    assert_eq!(
        health_response(&healthy()),
        format!(
            "HTTP/1.1 200 OK\r\nContent-Type: application/json\r\nContent-Length: {}\r\nConnection: close\r\n\r\n{body}",
            body.len()
        )
    );
    assert_eq!(
        response_around(true, "é"),
        "HTTP/1.1 503 Service Unavailable\r\nContent-Type: application/json\r\nContent-Length: 2\r\nConnection: close\r\n\r\né"
    );
    assert_eq!(health_body(&vec![]), "{\"status\":\"ok\",\"roles\":[]}");
}

#[test]
fn role_names_are_escaped() {
    let odd = vec![role("a\"b\n", HealthState::Healthy, 0, 0)];
    assert_eq!(
        health_body(&odd),
        "{\"status\":\"ok\",\"roles\":[{\"role\":\"a\\\"b\\n\",\"state\":\"healthy\"}]}"
    );
    assert_eq!(
        body_with_names(&vec!["\"x\"".to_string()], &odd),
        "{\"status\":\"ok\",\"roles\":[{\"role\":\"x\",\"state\":\"healthy\"}]}"
    );
}

#[test]
fn headers_end_at_the_empty_line() {
    assert!(drain_headers(&b"GET / HTTP/1.1\r\n\r\n".to_vec(), 18));
    assert!(!drain_headers(&b"GET / HTTP/1.1\r\n".to_vec(), 16));
    assert!(drain_headers(&b"GET /".to_vec(), 0));
}

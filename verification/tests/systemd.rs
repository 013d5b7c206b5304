//! The service manager's protocols.

use echod::systemd::{
    beacon_tick_interval, notify_ready, notify_status, notify_stopping, notify_watchdog,
    ping_interval, watchdog_usec, NotifyTarget, PingWatch, SdListeners, WatchdogBeacon,
};
use echod::time::Span;

fn self_pid() -> u32 {
    4242
}

#[test]
fn from_env_with_no_listen_pid_is_empty() {
    let l = SdListeners::from_env(None, None, "", self_pid()).unwrap();
    assert!(l.is_empty());
}

#[test]
fn from_env_with_mismatched_pid_is_empty() {
    let l = SdListeners::from_env(Some("1"), Some("1"), "", self_pid()).unwrap();
    assert!(l.is_empty());
}

#[test]
fn from_env_with_pid_match_but_zero_fds_is_empty() {
    let pid = self_pid().to_string();
    let l = SdListeners::from_env(Some(&pid), Some("0"), "", self_pid()).unwrap();
    assert!(l.is_empty());
}

#[test]
fn from_env_parse_error_propagates() {
    let r = SdListeners::from_env(Some("not-a-number"), None, "", self_pid());
    assert!(r.is_err());
    assert_eq!(r.unwrap_err().to_text(), "parse LISTEN_PID");
    let r = SdListeners::from_env(Some("9"), Some("many"), "", 9);
    assert_eq!(r.unwrap_err().to_text(), "parse LISTEN_FDS");
}

#[test]
fn take_by_name_on_empty_returns_none() {
    let mut l = SdListeners::from_env(None, None, "", self_pid()).unwrap();
    assert!(l.take_by_name("anything").is_none());
}

#[test]
fn listeners_are_taken_by_name() {
    let mut l = SdListeners::from_env(Some("9"), Some("3"), "plain:tls", 9).unwrap();
    assert!(!l.is_empty());
    assert_eq!(l.take_by_name("tls"), Some(4));
    assert_eq!(l.take_by_name("tls"), None);
    assert_eq!(l.take_by_name("unknown"), Some(5));
    assert_eq!(l.take_by_name("plain"), Some(3));
    assert!(l.is_empty());
}

#[test]
fn notify_with_no_socket_env_is_noop() {
    assert!(notify_ready(None).is_none());
    assert!(notify_stopping(None).is_none());
    assert!(notify_status(None, "hello").is_none());
}

#[test]
fn notify_ready_sends_datagram_to_filesystem_socket() {
    let socket = b"/run/notify.sock".to_vec();
    let n = notify_ready(Some(&socket)).unwrap();
    assert!(matches!(n.target, NotifyTarget::Path));
    assert_eq!(n.message, "READY=1\n");
    assert_eq!(notify_stopping(Some(&socket)).unwrap().message, "STOPPING=1\n");
    assert_eq!(notify_watchdog(Some(&socket)).unwrap().message, "WATCHDOG=1\n");
}

#[test]
fn notify_status_carries_inline_text() {
    let n = notify_status(Some(&b"/x".to_vec()), "upgrade in progress").unwrap();
    assert_eq!(n.message, "STATUS=upgrade in progress\n");
}

#[test]
fn name_outside_the_file_system_is_recognised() {
    let n = notify_ready(Some(&b"@abc".to_vec())).unwrap();
    assert!(matches!(n.target, NotifyTarget::Abstract(name) if name == b"abc"));
}

#[test]
fn watchdog_noop_when_env_unset() {
    assert!(watchdog_usec(None, None, self_pid()).is_none());
    assert!(watchdog_usec(Some("0"), None, self_pid()).is_none());
    assert!(watchdog_usec(Some("x"), None, self_pid()).is_none());
}

#[test]
fn watchdog_noop_when_pid_mismatch() {
    assert!(watchdog_usec(Some("40000"), Some("1"), self_pid()).is_none());
    let pid = self_pid().to_string();
    assert_eq!(watchdog_usec(Some("40000"), Some(&pid), self_pid()), Some(40000));
}

#[test]
fn watchdog_pings_when_beacon_advances() {
    let usec = watchdog_usec(Some("40000"), None, self_pid()).expect("watchdog should be enabled");
    assert_eq!(ping_interval(usec), Span::from_millis(20));
    assert_eq!(beacon_tick_interval(Some(usec)), Span::from_millis(10));
    let mut beacon = WatchdogBeacon::new();
    let mut watch = PingWatch::new(beacon.load());
    for _ in 0..6 {
        beacon.tick();
        assert!(watch.check(beacon.load()));
    }
}

#[test]
fn watchdog_silent_when_beacon_stalled() {
    let beacon = WatchdogBeacon::new();
    let mut watch = PingWatch::new(beacon.load());
    for _ in 0..6 {
        assert!(!watch.check(beacon.load()), "watchdog pinged despite a stalled beacon");
    }
}

#[test]
fn intervals_never_vanish() {
    assert_eq!(beacon_tick_interval(Some(1)), Span::from_micros(1));
    assert_eq!(ping_interval(1), Span::from_micros(1));
    assert_eq!(beacon_tick_interval(None), Span::from_secs(10));
}

//! The versioned envelope.

use echod::control::{envelope_line, ControlMsg, Envelope};
use echod::fault_inject::{ErrorKind, InjectedFault};
use echod::schema::{
    default_schema_version, is_schema_compatible, MIN_COMPATIBLE_VERSION, SCHEMA_VERSION,
};

/// Reads a frame: its version, and the status request that it carries.
fn status_frame(json: &str) -> Envelope<ControlMsg> {
    let value: serde_json::Value = serde_json::from_str(json).unwrap();
    assert_eq!(value["type"], "status");
    let version = match value.get("version") {
        Some(v) => u32::try_from(v.as_u64().unwrap()).unwrap(),
        None => default_schema_version(),
    };
    Envelope { version, msg: ControlMsg::Status }
}

#[test]
fn envelope_stamps_current_version() {
    assert_eq!(Envelope::stamp(ControlMsg::Status).version, SCHEMA_VERSION);
}

#[test]
fn envelope_roundtrip_preserves_msg() {
    let back = Envelope::stamp(ControlMsg::Shutdown { grace_ms: 1234 });
    assert_eq!(back.version, SCHEMA_VERSION);
    match back.into_msg().unwrap() {
        ControlMsg::Shutdown { grace_ms } => assert_eq!(grace_ms, 1234),
        _ => panic!("variant changed under round-trip"),
    }
}

#[test]
fn missing_version_field_defaults_to_v1() {
    let env = status_frame(r#"{"type":"status"}"#);
    assert_eq!(env.version, 1);
    assert!(matches!(env.msg, ControlMsg::Status));
}

#[test]
fn incompatible_high_version_rejected() {
    let env = status_frame(r#"{"version":99,"type":"status"}"#);
    assert!(env.into_msg().is_err());
}

#[test]
fn refusal_names_the_supported_versions() {
    let env = Envelope { version: 99, msg: () };
    assert_eq!(
        env.into_msg().unwrap_err().to_text(),
        "incompatible schema version 99 (supported: 1..=1)"
    );
}

#[test]
fn version_zero_rejected() {
    let env = status_frame(r#"{"version":0,"type":"status"}"#);
    assert!(env.into_msg().is_err());
}

#[test]
fn current_version_accepted() {
    let good = format!(r#"{{"version":{SCHEMA_VERSION},"type":"status"}}"#);
    let env = status_frame(&good);
    assert!(matches!(env.into_msg().unwrap(), ControlMsg::Status));
}

#[test]
fn injected_fault_refuses_a_good_frame() {
    let fault = InjectedFault::IoError(ErrorKind::Other, "boom".into());
    let err = Envelope::stamp(ControlMsg::Status).into_msg_unless(Some(fault)).unwrap_err();
    assert_eq!(err.to_text(), "synthetic: forced schema version incompatibility");
    assert_eq!(err.message, "boom");
    assert!(Envelope::stamp(ControlMsg::Status).into_msg_unless(None).is_ok());
}

#[test]
fn frame_ends_in_a_newline() {
    assert_eq!(envelope_line("{}".into()), "{}\n");
}

#[test]
fn schema_compatibility_window() {
    assert!(is_schema_compatible(SCHEMA_VERSION));
    assert!(is_schema_compatible(MIN_COMPATIBLE_VERSION));
    assert!(!is_schema_compatible(0));
    assert!(!is_schema_compatible(SCHEMA_VERSION + 1));
}

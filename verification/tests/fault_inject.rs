//! Fault injection.

use echod::config::FaultPointConfig;
use echod::fault_inject::{
    build_active_point, check, check_installed, init, install, try_fire, ActivePoint, ErrorKind,
    Failure, InjectedFault,
};

fn point(name: &str, kind: &str, msg: &str, budget: u32) -> FaultPointConfig {
    FaultPointConfig {
        name: name.into(),
        kind: kind.into(),
        message: msg.into(),
        trigger_budget: budget,
    }
}

fn fresh_points(pts: &[FaultPointConfig]) -> Vec<ActivePoint> {
    pts.iter().map(build_active_point).collect()
}

fn check_in(points: &mut [ActivePoint], name: &str) -> Option<()> {
    for p in points {
        if p.name != name {
            continue;
        }
        return if try_fire(&mut p.budget) { Some(()) } else { None };
    }
    None
}

#[test]
fn unknown_point_returns_none() {
    let mut pts = fresh_points(&[point("a.b", "io_error", "oops", 0)]);
    assert!(check_in(&mut pts, "c.d").is_none());
}

#[test]
fn unlimited_budget_fires_repeatedly() {
    let mut pts = fresh_points(&[point("x", "io_error", "err", 0)]);
    for _ in 0..5 {
        assert!(check_in(&mut pts, "x").is_some());
    }
}

#[test]
fn one_shot_budget_fires_once() {
    let mut pts = fresh_points(&[point("x", "io_error", "err", 1)]);
    assert!(check_in(&mut pts, "x").is_some());
    assert!(check_in(&mut pts, "x").is_none());
    assert!(check_in(&mut pts, "x").is_none());
}

#[test]
fn budget_n_fires_n_times() {
    let mut pts = fresh_points(&[point("x", "skip", "", 3)]);
    for _ in 0..3 {
        assert!(check_in(&mut pts, "x").is_some(), "should fire");
    }
    assert!(check_in(&mut pts, "x").is_none(), "should be exhausted");
}

#[test]
fn skip_kind_roundtrips() {
    let mut pts = fresh_points(&[point("p", "skip", "", 1)]);
    assert!(check_in(&mut pts, "p").is_some());
}

#[test]
fn io_error_kind_roundtrips() {
    let mut pts = fresh_points(&[point("p", "io_error", "boom", 1)]);
    pts[0].budget = 1;
    match pts[0].to_fault() {
        InjectedFault::IoError(_, msg) => assert_eq!(msg, "boom"),
        _ => panic!("wrong variant"),
    }
}

#[test]
fn release_noop_path_compiles() {
    let mut table = init(&vec![]);
    let _ = check(&mut table, "nonexistent.point");
}

#[test]
fn table_fires_the_first_point_of_a_name() {
    let mut table = init(&vec![
        point("x", "skip", "", 2),
        point("x", "panic", "second", 0),
        point("y", "unheard-of", "why", 1),
    ]);
    assert!(check(&mut table, "z").is_none());
    assert!(matches!(check(&mut table, "x"), Some(InjectedFault::Skip)));
    assert!(matches!(check(&mut table, "x"), Some(InjectedFault::Skip)));
    assert!(check(&mut table, "x").is_none());
    assert!(matches!(
        check(&mut table, "y"),
        Some(InjectedFault::IoError(ErrorKind::Other, m)) if m == "why"
    ));
    assert!(check(&mut table, "y").is_none());
}

#[test]
fn into_io_error_from_io_error_variant() {
    let fault = InjectedFault::IoError(ErrorKind::ConnectionRefused, "refused".into());
    let err = fault.into_io_error();
    assert_eq!(err.kind, ErrorKind::ConnectionRefused);
    assert!(err.message.contains("refused"));
}

#[test]
fn into_io_error_from_skip_variant() {
    let err = InjectedFault::Skip.into_io_error();
    assert_eq!(err.kind, ErrorKind::Other);
    assert!(err.message.contains("skip"));
}

#[test]
fn into_anyhow_from_io_error_variant() {
    let fault = InjectedFault::IoError(ErrorKind::TimedOut, "timed out".into());
    let err = fault.into_anyhow();
    assert!(err.to_text().contains("timed out"));
}

#[test]
fn into_anyhow_from_skip_variant() {
    let err = InjectedFault::Skip.into_anyhow();
    assert!(err.to_text().contains("skip"));
}

#[test]
fn to_fault_skip_variant_produces_skip() {
    let pts = fresh_points(&[point("p", "skip", "", 0)]);
    match pts[0].to_fault() {
        InjectedFault::Skip => {}
        _ => panic!("expected InjectedFault::Skip"),
    }
}

#[test]
fn to_fault_panic_variant_produces_panic_message() {
    let pts = fresh_points(&[point("p", "panic", "kaboom", 0)]);
    match pts[0].to_fault() {
        InjectedFault::Panic(msg) => assert_eq!(msg, "kaboom"),
        _ => panic!("expected InjectedFault::Panic"),
    }
}

#[test]
fn outermost_context_is_shown() {
    let f = Failure::new("inner");
    assert_eq!(f.to_text(), "inner");
    let f = f.context("middle").context("outer");
    assert_eq!(f.to_text(), "outer");
    assert_eq!(f.message, "inner");
    assert_eq!(f.contexts, vec!["middle", "outer"]);
}

#[test]
fn points_are_installed_once() {
    let mut table = None;
    assert!(check_installed(&mut table, "a").is_none());
    assert!(install(&mut table, &vec![point("a", "skip", "", 2), point("a", "skip", "", 9)]));
    assert!(!install(&mut table, &vec![point("b", "skip", "", 0)]));
    let fired: Vec<bool> =
        ["a", "b", "a", "a", "a"].iter().map(|p| check_installed(&mut table, p).is_some()).collect();
    assert_eq!(fired, vec![true, false, true, false, false]);
    let table = table.unwrap();
    assert_eq!(table.points.iter().map(|p| p.budget).collect::<Vec<_>>(), vec![0, 9]);
}

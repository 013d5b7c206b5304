//! Who may talk to the daemon.

use echod::auth::{check_peer, PeerAllowlist};

fn current_uid() -> u32 {
    nix::unistd::Uid::effective().as_raw()
}

#[test]
fn current_user_only_contains_self_and_nothing_else() {
    let a = PeerAllowlist::current_user_only();
    assert!(a.contains(current_uid()));
    assert!(!a.contains(u32::MAX));
}

#[test]
fn from_uids_builds_exact_set() {
    let a = PeerAllowlist::from_uids(&vec![1, 2, 3]);
    for u in [1, 2, 3] {
        assert!(a.contains(u));
    }
    assert!(!a.contains(4));
}

#[test]
fn from_config_empty_falls_back_to_current_user() {
    let a = PeerAllowlist::from_config(&vec![]);
    assert!(a.contains(current_uid()));
    assert!(!a.contains(current_uid().wrapping_add(1)));
}

#[test]
fn from_config_non_empty_uses_exact_list() {
    let bogus = current_uid().wrapping_add(1234);
    let a = PeerAllowlist::from_config(&vec![bogus]);
    assert!(a.contains(bogus));
    if current_uid() != bogus {
        assert!(!a.contains(current_uid()));
    }
}

#[test]
fn explicit_list_leaves_out_the_effective_user() {
    let a = PeerAllowlist::from_config_for(&vec![7, 7], 1000);
    assert!(a.contains(7));
    assert!(!a.contains(1000));
    assert!(PeerAllowlist::from_config_for(&vec![], 1000).contains(1000));
}

#[test]
fn check_peer_accepts_self_uid() {
    let allow = PeerAllowlist::current_user_only();
    assert_eq!(check_peer(current_uid(), &allow), Ok(current_uid()));
}

#[test]
fn check_peer_rejects_unlisted_uid() {
    let allow = PeerAllowlist::from_uids(&vec![current_uid().wrapping_add(1)]);
    assert!(check_peer(current_uid(), &allow).is_err());
    assert_eq!(
        check_peer(12, &PeerAllowlist::from_uids(&vec![13])),
        Err("rejected peer uid=12".to_string())
    );
}

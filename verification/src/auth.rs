//! Which peers may use a control socket, by uid.
//!
//! The default policy admits only the effective uid of the running process.

use std::collections::HashSet;

use vstd::prelude::*;

use crate::text::{decimal, push_decimal};

verus! {

/// `nix::unistd::Uid::effective`: the effective uid of this process. Which uid that is belongs to
/// the process and is left unsaid.
#[verifier::external_body]
pub(crate) fn effective_uid() -> (uid: u32) {
    nix::unistd::Uid::effective().as_raw()
}

/// The uids that are let in.
pub struct PeerAllowlist {
    uids: HashSet<u32>,
}

impl View for PeerAllowlist {
    type V = Set<u32>;

    closed spec fn view(&self) -> Set<u32> {
        self.uids@
    }
}

/// The uids that a configured list admits for a process running as `effective`.
pub open spec fn admitted(configured: Seq<u32>, effective: u32) -> Set<u32> {
    if configured.len() == 0 {
        set![effective]
    } else {
        configured.to_set()
    }
}

impl PeerAllowlist {
    /// Only the effective uid of the running process.
    pub fn current_user_only() -> (a: Self)
        ensures
            exists|effective: u32| a@ == set![effective],
    {
        let uid: u32 = effective_uid();
        let mut one: Vec<u32> = Vec::new();
        one.push(uid);
        let a = Self::from_uids(&one);
        proof {
            assert(one@.to_set() =~= set![uid]) by {
                assert(one@[0] == uid);
            }
        }
        a
    }

    /// Exactly the listed uids.
    pub fn from_uids(uids: &Vec<u32>) -> (a: Self)
        ensures
            a@ == uids@.to_set(),
    {
        broadcast use vstd::std_specs::hash::group_hash_axioms;

        let mut set: HashSet<u32> = HashSet::new();
        let mut i: usize = 0;
        while i < uids.len()
            invariant
                i <= uids@.len(),
                set@ == uids@.take(i as int).to_set(),
            decreases uids.len() - i,
        {
            set.insert(uids[i]);
            proof {
                let before = uids@.take(i as int);
                let after = uids@.take(i + 1);
                assert(after =~= before.push(uids@[i as int]));
                assert(after.to_set() =~= before.to_set().insert(uids@[i as int])) by {
                    assert forall|x: u32| after.contains(x) <==> before.contains(x) || x
                        == uids@[i as int] by {
                        if before.contains(x) {
                            let k = choose|k: int| 0 <= k < before.len() && before[k] == x;
                            assert(after[k] == x);
                        }
                        if x == uids@[i as int] {
                            assert(after[i as int] == x);
                        }
                    }
                }
            }
            i = i + 1;
        }
        proof {
            assert(uids@.take(uids@.len() as int) =~= uids@);
        }
        PeerAllowlist { uids: set }
    }

    /// The policy for a configured list, in a process that runs as `effective`: an empty list
    /// admits that uid alone, any other list admits what it lists and nothing more.
    pub fn from_config_for(configured: &Vec<u32>, effective: u32) -> (a: Self)
        ensures
            a@ == admitted(configured@, effective),
    {
        if configured.is_empty() {
            let mut one: Vec<u32> = Vec::new();
            one.push(effective);
            proof {
                assert(one@.to_set() =~= set![effective]) by {
                    assert(one@[0] == effective);
                }
            }
            Self::from_uids(&one)
        } else {
            Self::from_uids(configured)
        }
    }

    /// The policy for a configured list in this process.
    pub fn from_config(configured: &Vec<u32>) -> (a: Self)
        ensures
            exists|effective: u32| a@ == admitted(configured@, effective),
            configured@.len() > 0 ==> a@ == configured@.to_set(),
    {
        let uid: u32 = effective_uid();
        Self::from_config_for(configured, uid)
    }

    pub fn contains(&self, uid: u32) -> (r: bool)
        ensures
            r == self@.contains(uid),
    {
        broadcast use vstd::std_specs::hash::group_hash_axioms;

        self.uids.contains(&uid)
    }
}

/// Why a peer was turned away.
pub fn rejection_message(uid: u32) -> (s: String)
    ensures
        s@ == "rejected peer uid="@ + decimal(uid as nat),
{
    let mut s = "rejected peer uid=".to_owned();
    push_decimal(&mut s, uid as u64);
    s
}

/// Lets a peer in exactly when its uid is admitted; hands back the uid, or the reason for the
/// refusal.
pub fn check_peer(uid: u32, allow: &PeerAllowlist) -> (r: Result<u32, String>)
    ensures
        match r {
            Ok(u) => u == uid && allow@.contains(uid),
            Err(reason) => !allow@.contains(uid) && reason@ == "rejected peer uid="@ + decimal(
                uid as nat,
            ),
        },
{
    if allow.contains(uid) {
        Ok(uid)
    } else {
        Err(rejection_message(uid))
    }
}

/// A configured list never admits a uid that it does not name, not even the daemon's own.
pub proof fn explicit_list_admits_nobody_else(configured: Seq<u32>, effective: u32, uid: u32)
    requires
        configured.len() > 0,
        !configured.contains(uid),
    ensures
        !admitted(configured, effective).contains(uid),
{
}

/// Every uid that a configured list names is admitted. An empty list admits the uid that the
/// daemon runs as, and no other.
pub proof fn listed_uids_are_admitted(configured: Seq<u32>, effective: u32, uid: u32)
    ensures
        configured.contains(uid) ==> admitted(configured, effective).contains(uid),
        configured == Seq::<u32>::empty() ==> (admitted(configured, effective).contains(uid)
            <==> uid == effective),
{
}

} // verus!

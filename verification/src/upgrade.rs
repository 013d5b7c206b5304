//! How a worker is replaced: the start of its successor, the sessions that go along, and what
//! becomes of the old process.

use vstd::prelude::*;

use crate::fault_inject::{Failure, InjectedFault};
use crate::handoff::{
    fdpass_env_to_remove, resolve_upgrade_exe, stripped, upgrade_env, upgrade_env_pairs,
    upgrade_verdict, ReadyOutcome, SessionHandoff, Transport, UpgradeVerdict,
    UPGRADE_COMMIT_EXIT_CODE,
};
use crate::processor::{
    adopted_session_goes_on_where_it_stopped, adoption_of, all_recalled, readopt_sessions, understood,
    understood_sessions_are_all_kept, Adoption, PeerFacts, SessionRegistry,
};
use crate::schema::{MIN_COMPATIBLE_VERSION, SCHEMA_VERSION};
use crate::session::handoff_owes;
use crate::text::{opt_view, pair_views, views};

verus! {

/// How a successor is started.
#[derive(Debug)]
pub struct Launch {
    /// The binary.
    pub exe: String,
    /// Its one argument, the role.
    pub arg: String,
    /// Variables to set.
    pub env: Vec<(String, String)>,
    /// Variables to take away first.
    pub remove: Vec<String>,
    /// It is this process's own image, so it can be started from the descriptor that is open on
    /// it.
    pub own_image: bool,
}

/// Plans the start of the successor of a worker of `generation`. `names` are the variables that
/// this process has.
pub fn plan_launch(
    role: &str,
    binary_path: Option<String>,
    self_path: &str,
    names: &Vec<String>,
    listener_fd: i32,
    sessions_fd: Option<i32>,
    generation: u64,
    ready_fd: Option<i32>,
) -> (l: Launch)
    requires
        generation < u64::MAX,
    ensures
        l.exe@ == (match binary_path {
            Some(p) => p@,
            None => self_path@,
        }),
        l.arg@ == role@,
        pair_views(l.env@) == upgrade_env_pairs(listener_fd, sessions_fd, generation, ready_fd),
        views(l.remove@) == stripped(views(names@)),
        l.own_image == (binary_path is None),
{
    let own_image = binary_path.is_none();
    Launch {
        exe: resolve_upgrade_exe(binary_path, self_path),
        arg: role.to_owned(),
        env: upgrade_env(listener_fd, sessions_fd, generation, ready_fd),
        remove: fdpass_env_to_remove(names),
        own_image,
    }
}

/// How long an injected fault holds a session back.
pub const HANDOFF_FAULT_DELAY_MS: u64 = 2000;

/// After this long a session that has not been handed over is reported; the wait goes on.
pub const SLOW_HANDOFF_MS: u64 = 1000;

/// How a session that was told to stop is waited for.
#[derive(Clone, Copy, Debug, PartialEq, Eq, Structural)]
pub enum HandoffWait {
    /// Until it is there.
    Take,
    /// As `Take`, after this long.
    TakeAfter { ms: u64 },
    /// Until it is there, to be closed.
    Discard,
}

/// Decides how to wait for one session. Without a fault it is waited for as long as it takes. A
/// `Panic` fault is not for this: its call site aborts.
pub fn await_session_handoff(fault: &Option<InjectedFault>) -> (w: HandoffWait)
    requires
        !(fault matches Some(InjectedFault::Panic(_))),
    ensures
        w == (match *fault {
            None => HandoffWait::Take,
            Some(InjectedFault::Skip) => HandoffWait::Discard,
            Some(_) => HandoffWait::TakeAfter { ms: HANDOFF_FAULT_DELAY_MS },
        }),
{
    match fault {
        None => HandoffWait::Take,
        Some(InjectedFault::Skip) => HandoffWait::Discard,
        Some(_) => HandoffWait::TakeAfter { ms: HANDOFF_FAULT_DELAY_MS },
    }
}

/// What came of waiting for one session.
#[derive(Debug)]
pub struct Delivery {
    /// How it was waited for.
    pub wait: HandoffWait,
    /// The session; nothing where it ended by itself.
    pub handoff: Option<SessionHandoff>,
    /// Its descriptor can be passed on.
    pub inheritable: bool,
}

/// The session goes along.
pub open spec fn goes_along(d: Delivery) -> bool {
    !(d.wait is Discard) && d.handoff is Some && d.inheritable
}

/// The session is there and does not go along.
pub open spec fn stays_behind(d: Delivery) -> bool {
    d.handoff is Some && !goes_along(d)
}

/// The sessions that go along, in order.
pub open spec fn going_along(ds: Seq<Delivery>) -> Seq<SessionHandoff>
    decreases ds.len(),
{
    if ds.len() == 0 {
        seq![]
    } else if goes_along(ds.last()) {
        going_along(ds.drop_last()).push(ds.last().handoff->0)
    } else {
        going_along(ds.drop_last())
    }
}

/// The descriptors of those that do not, in order.
pub open spec fn left_behind(ds: Seq<Delivery>) -> Seq<i32>
    decreases ds.len(),
{
    if ds.len() == 0 {
        seq![]
    } else if stays_behind(ds.last()) {
        left_behind(ds.drop_last()).push(ds.last().handoff->0.uds_fd)
    } else {
        left_behind(ds.drop_last())
    }
}

/// `e` is `h` with what is known about its peer.
pub open spec fn enriched(
    known: Map<Seq<char>, PeerFacts>,
    h: SessionHandoff,
    e: SessionHandoff,
) -> bool {
    &&& e == (SessionHandoff { ident: e.ident, ..h })
    &&& opt_view(e.ident) == (if known.dom().contains(h.peer@) {
        known[h.peer@].ident
    } else {
        opt_view(h.ident)
    })
}

/// Sorts what the sessions delivered: those that go along, each with what is known about its
/// peer, and the descriptors to close.
pub fn drain_session_handoffs(registry: &SessionRegistry, deliveries: Vec<Delivery>) -> (r: (
    Vec<SessionHandoff>,
    Vec<i32>,
))
    ensures
        r.0@.len() == going_along(deliveries@).len(),
        forall|i: int|
            0 <= i < r.0@.len() ==> enriched(
                registry.known(),
                going_along(deliveries@)[i],
                #[trigger] r.0@[i],
            ),
        r.1@ == left_behind(deliveries@),
{
    let ghost all = deliveries@;
    let mut kept: Vec<SessionHandoff> = Vec::new();
    let mut close: Vec<i32> = Vec::new();
    for d in it: deliveries
        invariant
            it.seq() == all,
            kept@.len() == going_along(all.take(it.index() as int)).len(),
            forall|i: int|
                0 <= i < kept@.len() ==> enriched(
                    registry.known(),
                    going_along(all.take(it.index() as int))[i],
                    #[trigger] kept@[i],
                ),
            close@ == left_behind(all.take(it.index() as int)),
    {
        proof {
            let k = it.index() as int;
            assert(all.take(k + 1).drop_last() =~= all.take(k));
            assert(all.take(k + 1).last() == d);
        }
        let discard = match d.wait {
            HandoffWait::Discard => true,
            _ => false,
        };
        match d.handoff {
            Some(h) => {
                if !discard && d.inheritable {
                    let e = registry.enrich_handoff(h);
                    kept.push(e);
                } else {
                    close.push(h.uds_fd);
                }
            },
            None => {},
        }
    }
    proof {
        assert(all.take(all.len() as int) =~= all);
    }
    (kept, close)
}

/// How the attempt to replace the processor ends.
pub enum Finish {
    /// The successor has taken over: exit with this code.
    Exit(i32),
    /// The successor is ready, and what it needed could not be written: report the failure.
    Broken(Failure),
    /// The successor is to be killed, and the sessions are served on.
    RolledBack(Vec<Adoption>),
}

/// Ends the attempt. It is over exactly when the successor has said in time that it is ready;
/// `waited` is nothing where the wait failed or ran out, and a fault counts as such. Else every
/// session comes back.
pub fn finish_upgrade_attempt(
    registry: &mut SessionRegistry,
    fault: Option<InjectedFault>,
    waited: Option<ReadyOutcome>,
    written: Result<(), Failure>,
    handoffs: Vec<SessionHandoff>,
) -> (f: Finish)
    ensures
        fault is None && waited == Some(ReadyOutcome::Ready) ==> {
            &&& *final(registry) == *old(registry)
            &&& match written {
                Ok(_) => f == Finish::Exit(UPGRADE_COMMIT_EXIT_CODE),
                Err(e) => f == Finish::Broken(e),
            }
        },
        !(fault is None && waited == Some(ReadyOutcome::Ready)) ==> {
            &&& f matches Finish::RolledBack(adopted)
            &&& adopted@.len() == handoffs@.len()
            &&& forall|i: int|
                0 <= i < adopted@.len() ==> adoption_of(handoffs@[i], #[trigger] adopted@[i])
            &&& final(registry).sessions == old(registry).sessions
            &&& final(registry).known() == all_recalled(old(registry).known(), handoffs@)
        },
{
    let heard = match fault {
        Some(_) => None,
        None => waited,
    };
    match upgrade_verdict(heard) {
        UpgradeVerdict::Commit { exit_code } => match written {
            Ok(_) => Finish::Exit(exit_code),
            Err(e) => Finish::Broken(e),
        },
        UpgradeVerdict::Rollback => Finish::RolledBack(readopt_sessions(registry, handoffs)),
    }
}

proof fn lemma_all_go_along(ds: Seq<Delivery>)
    requires
        forall|i: int| 0 <= i < ds.len() ==> goes_along(#[trigger] ds[i]),
    ensures
        going_along(ds).len() == ds.len(),
        forall|i: int| 0 <= i < ds.len() ==> going_along(ds)[i] == (#[trigger] ds[i]).handoff->0,
    decreases ds.len(),
{
    if ds.len() > 0 {
        let rest = ds.drop_last();
        assert forall|i: int| 0 <= i < rest.len() implies goes_along(#[trigger] rest[i]) by {
            assert(rest[i] == ds[i]);
        }
        lemma_all_go_along(rest);
        assert(goes_along(ds[ds.len() - 1]));
        assert forall|i: int| 0 <= i < ds.len() implies going_along(ds)[i] == (
        #[trigger] ds[i]).handoff->0 by {
            if i < rest.len() {
                assert(rest[i] == ds[i]);
            }
        }
    }
}

/// No session is lost to an upgrade, whether it commits or not: what was collected from `ds` and
/// adopted, by the successor or by this process itself, is every one of them, over its own
/// descriptor, owing its client what it owed when it stopped.
pub proof fn upgrade_serves_every_session_on(
    known: Map<Seq<char>, PeerFacts>,
    ds: Seq<Delivery>,
    handoffs: Seq<SessionHandoff>,
    adopted: Seq<Adoption>,
    i: int,
    later: Seq<u8>,
)
    requires
        forall|j: int|
            0 <= j < ds.len() ==> goes_along(#[trigger] ds[j]) && ds[j].handoff->0.transport
                == Transport::Uds,
        handoffs.len() == going_along(ds).len(),
        forall|j: int|
            0 <= j < handoffs.len() ==> enriched(
                known,
                going_along(ds)[j],
                #[trigger] handoffs[j],
            ),
        adopted.len() == handoffs.len(),
        forall|j: int|
            0 <= j < adopted.len() ==> adoption_of(handoffs[j], #[trigger] adopted[j]),
        0 <= i < ds.len(),
    ensures
        adopted.len() == ds.len(),
        adopted[i] is Resume,
        adopted[i]->Resume_fd == ds[i].handoff->0.uds_fd,
        adopted[i]->session.still_owed(later) == handoff_owes(ds[i].handoff->0, later),
        adopted[i]->session.lines_echoed == ds[i].handoff->0.lines_echoed,
{
    lemma_all_go_along(ds);
    assert(goes_along(ds[i]));
    assert(enriched(known, going_along(ds)[i], handoffs[i]));
    assert(adoption_of(handoffs[i], adopted[i]));
}

/// A session goes along exactly where it is there, was not to be discarded, and its descriptor can
/// be passed on; a session that is there and does not go along is closed, over its own descriptor.
/// Every session that is there does one of the two, in order.
pub proof fn every_session_goes_along_or_is_closed(ds: Seq<Delivery>)
    ensures
        going_along(ds) == ds.filter_map(
            |d: Delivery|
                if d.wait != HandoffWait::Discard && d.inheritable {
                    d.handoff
                } else {
                    None
                },
        ),
        left_behind(ds) == ds.filter_map(
            |d: Delivery|
                if d.handoff is Some && (d.wait == HandoffWait::Discard || !d.inheritable) {
                    Some(d.handoff->0.uds_fd)
                } else {
                    None
                },
        ),
        going_along(ds).len() + left_behind(ds).len() == ds.filter(
            |d: Delivery| d.handoff is Some,
        ).len(),
    decreases ds.len(),
{
    reveal(Seq::filter);
    let along = |d: Delivery|
        if d.wait != HandoffWait::Discard && d.inheritable {
            d.handoff
        } else {
            None
        };
    let closed = |d: Delivery|
        if d.handoff is Some && (d.wait == HandoffWait::Discard || !d.inheritable) {
            Some(d.handoff->0.uds_fd)
        } else {
            None
        };
    if ds.len() > 0 {
        every_session_goes_along_or_is_closed(ds.drop_last());
        assert(going_along(ds) =~= ds.filter_map(along));
        assert(left_behind(ds) =~= ds.filter_map(closed));
    } else {
        assert(going_along(ds) =~= ds.filter_map(along));
        assert(left_behind(ds) =~= ds.filter_map(closed));
    }
}

/// A handover carries what the scanner found out about its peer, where it found something out;
/// nothing else of it changes.
pub proof fn handover_carries_what_is_known(
    known: Map<Seq<char>, PeerFacts>,
    h: SessionHandoff,
    e: SessionHandoff,
)
    requires
        enriched(known, h, e),
    ensures
        e.uds_fd == h.uds_fd,
        e.transport == h.transport,
        e.partial_line_bytes@ == h.partial_line_bytes@,
        e.pending_write_bytes@ == h.pending_write_bytes@,
        e.lines_echoed == h.lines_echoed,
        e.connected_at_unix_ms == h.connected_at_unix_ms,
        e.peer@ == h.peer@,
        e.trace_id@ == h.trace_id@,
        e.version == h.version,
        known.dom().contains(h.peer@) ==> opt_view(e.ident) == known[h.peer@].ident,
        !known.dom().contains(h.peer@) ==> opt_view(e.ident) == opt_view(h.ident),
{
}

/// What is packed from the live sessions, handed over, and adopted by the successor is every one of
/// them: for each session that stopped with its connection open and its descriptor to be passed on
/// there is one that goes on, over the same descriptor, with the same bytes.
pub proof fn successor_serves_every_session_on(
    known: Map<Seq<char>, PeerFacts>,
    ds: Seq<Delivery>,
    handoffs: Seq<SessionHandoff>,
    adopted: Seq<Adoption>,
    i: int,
)
    requires
        forall|j: int|
            0 <= j < ds.len() ==> (#[trigger] ds[j]).wait != HandoffWait::Discard && ds[j].inheritable
                && ds[j].handoff is Some && ds[j].handoff->0.transport == Transport::Uds
                && ds[j].handoff->0.version == SCHEMA_VERSION,
        handoffs.len() == going_along(ds).len(),
        forall|j: int|
            0 <= j < handoffs.len() ==> enriched(known, going_along(ds)[j], #[trigger] handoffs[j]),
        adopted.len() == understood(handoffs).len(),
        forall|j: int|
            0 <= j < adopted.len() ==> adoption_of(understood(handoffs)[j], #[trigger] adopted[j]),
        0 <= i < ds.len(),
    ensures
        adopted.len() == ds.len(),
        adopted[i] is Resume,
        adopted[i]->Resume_fd == ds[i].handoff->0.uds_fd,
        adopted[i]->session.received@ == ds[i].handoff->0.partial_line_bytes@,
        adopted[i]->session.pending@ == ds[i].handoff->0.pending_write_bytes@,
        adopted[i]->session.lines_echoed == ds[i].handoff->0.lines_echoed,
{
    assert forall|j: int| 0 <= j < ds.len() implies goes_along(#[trigger] ds[j]) by {}
    lemma_all_go_along(ds);
    assert forall|j: int| 0 <= j < handoffs.len() implies MIN_COMPATIBLE_VERSION <= (
    #[trigger] handoffs[j]).version <= SCHEMA_VERSION by {
        assert(enriched(known, going_along(ds)[j], handoffs[j]));
        assert(going_along(ds)[j] == ds[j].handoff->0);
    }
    understood_sessions_are_all_kept(handoffs);
    assert(going_along(ds)[i] == ds[i].handoff->0);
    assert(enriched(known, going_along(ds)[i], handoffs[i]));
    adopted_session_goes_on_where_it_stopped(handoffs[i], adopted[i]);
}

} // verus!

//! The processor: which sessions it serves, what it knows about their peers, and how it passes
//! them on when it is replaced.

use vstd::prelude::*;

use crate::control::{ProcessorPreamble, SessionMetadata};
use crate::fault_inject::Failure;
use crate::handoff::{SessionHandoff, Transport, ENV_SESSIONS_FD};
use crate::lines::{
    front, is_empty_tail, take_line, without_carriage_return, Front, NextLine, MAX_LINE,
};
use crate::schema::{
    is_schema_compatible, schema_compatible, MIN_COMPATIBLE_VERSION, SCHEMA_VERSION,
};
use crate::session::{handoff_owes, EchoSession};
use crate::text::{opt_view, parse_fd, parse_i32, same_text};
use crate::text_map::TextMap;

verus! {

/// A session that is being served.
#[derive(Debug)]
pub struct LiveSession {
    pub id: u64,
    pub peer: String,
}

/// Some session of `peer` is being served.
pub open spec fn serves(live: Seq<LiveSession>, peer: Seq<char>) -> bool {
    exists|i: int| 0 <= i < live.len() && (#[trigger] live[i]).peer@ == peer
}

/// Ids grow from one session to the next and stay below `next_id`.
pub open spec fn ids_in_order(live: Seq<LiveSession>, next_id: u64) -> bool {
    &&& forall|i: int, j: int|
        0 <= i < j < live.len() ==> (#[trigger] live[i]).id < (#[trigger] live[j]).id
    &&& forall|i: int| 0 <= i < live.len() ==> (#[trigger] live[i]).id < next_id
}

/// The live sessions, in the order in which they came.
pub struct SessionTable {
    next_id: u64,
    sessions: Vec<LiveSession>,
}

impl SessionTable {
    #[verifier::type_invariant]
    spec fn well_formed(self) -> bool {
        ids_in_order(self.sessions@, self.next_id)
    }

    /// The id that the next session gets.
    pub closed spec fn fresh_id(&self) -> u64 {
        self.next_id
    }

    pub closed spec fn live(&self) -> Seq<LiveSession> {
        self.sessions@
    }

    pub fn new() -> (r: Self)
        ensures
            r.fresh_id() == 0,
            r.live() == Seq::<LiveSession>::empty(),
    {
        SessionTable { next_id: 0, sessions: Vec::new() }
    }

    /// Takes up a session of `peer` and hands out its id, which no earlier session had.
    pub fn register(&mut self, peer: String) -> (id: u64)
        requires
            old(self).fresh_id() < u64::MAX,
        ensures
            id == old(self).fresh_id(),
            final(self).fresh_id() == old(self).fresh_id() + 1,
            final(self).live() == old(self).live().push(LiveSession { id, peer }),
            forall|i: int|
                0 <= i < old(self).live().len() ==> (#[trigger] old(self).live()[i]).id != id,
    {
        proof {
            use_type_invariant(&*self);
        }
        let ghost before = self.sessions@;
        let id: u64 = self.next_id;
        let mut sessions: Vec<LiveSession> = Vec::new();
        std::mem::swap(&mut sessions, &mut self.sessions);
        sessions.push(LiveSession { id, peer });
        self.next_id = id + 1;
        proof {
            assert forall|i: int, j: int| 0 <= i < j < sessions@.len() implies (
            #[trigger] sessions@[i]).id < (#[trigger] sessions@[j]).id by {
                if j < before.len() {
                    assert(before[i].id < before[j].id);
                } else {
                    assert(before[i].id < id);
                }
            }
        }
        self.sessions = sessions;
        id
    }

    fn place_of(sessions: &Vec<LiveSession>, id: u64) -> (r: Option<usize>)
        ensures
            match r {
                Some(i) => i < sessions@.len() && sessions@[i as int].id == id,
                None => forall|i: int|
                    0 <= i < sessions@.len() ==> (#[trigger] sessions@[i]).id != id,
            },
    {
        let mut i: usize = 0;
        while i < sessions.len()
            invariant
                i <= sessions@.len(),
                forall|j: int| 0 <= j < i ==> (#[trigger] sessions@[j]).id != id,
            decreases sessions.len() - i,
        {
            if sessions[i].id == id {
                return Some(i);
            }
            i = i + 1;
        }
        None
    }

    /// Whether a session of `peer` is being served.
    pub fn is_active(&self, peer: &str) -> (r: bool)
        ensures
            r == serves(self.live(), peer@),
    {
        let mut i: usize = 0;
        while i < self.sessions.len()
            invariant
                i <= self.sessions@.len(),
                forall|j: int| 0 <= j < i ==> (#[trigger] self.sessions@[j]).peer@ != peer@,
            decreases self.sessions.len() - i,
        {
            if same_text(self.sessions[i].peer.as_str(), peer) {
                return true;
            }
            i = i + 1;
        }
        false
    }

    /// Forgets a session.
    pub fn remove(&mut self, id: u64)
        ensures
            final(self).fresh_id() == old(self).fresh_id(),
            gone(old(self).live(), final(self).live(), id),
    {
        proof {
            use_type_invariant(&*self);
        }
        let ghost before = self.sessions@;
        let mut sessions: Vec<LiveSession> = Vec::new();
        std::mem::swap(&mut sessions, &mut self.sessions);
        match Self::place_of(&sessions, id) {
            Some(i) => {
                let _ = sessions.remove(i);
                proof {
                    lemma_remove_keeps_order(before, i as int, self.next_id);
                    assert(sessions@ == before.remove(i as int));
                }
            },
            None => {},
        }
        self.sessions = sessions;
    }

    /// The number of live sessions.
    pub fn len(&self) -> (n: usize)
        ensures
            n == self.live().len(),
    {
        self.sessions.len()
    }

    /// Hands out every live session.
    pub fn take(&mut self) -> (taken: Vec<LiveSession>)
        ensures
            taken@ == old(self).live(),
            final(self).live() == Seq::<LiveSession>::empty(),
            final(self).fresh_id() == old(self).fresh_id(),
    {
        let mut taken: Vec<LiveSession> = Vec::new();
        std::mem::swap(&mut taken, &mut self.sessions);
        taken
    }
}

/// What is known about one peer.
pub struct PeerFacts {
    pub peer: Seq<char>,
    pub ident: Option<Seq<char>>,
    pub trace_id: Seq<char>,
}

/// What one piece of metadata says.
pub open spec fn facts_of(m: SessionMetadata) -> PeerFacts {
    PeerFacts { peer: m.peer@, ident: opt_view(m.ident), trace_id: m.trace_id@ }
}

/// The live sessions and what the scanner found out about their peers.
pub struct SessionRegistry {
    pub sessions: SessionTable,
    pub metadata: TextMap<SessionMetadata>,
}

impl SessionRegistry {
    pub open spec fn live(&self) -> Seq<LiveSession> {
        self.sessions.live()
    }

    pub open spec fn fresh_id(&self) -> u64 {
        self.sessions.fresh_id()
    }

    /// What is known, by peer.
    pub open spec fn known(&self) -> Map<Seq<char>, PeerFacts> {
        self.metadata@.map_values(|m: SessionMetadata| facts_of(m))
    }

    pub fn new() -> (r: Self)
        ensures
            r.fresh_id() == 0,
            r.live() == Seq::<LiveSession>::empty(),
            r.known() == Map::<Seq<char>, PeerFacts>::empty(),
    {
        let r = SessionRegistry { sessions: SessionTable::new(), metadata: TextMap::new() };
        proof {
            assert(r.known() =~= Map::<Seq<char>, PeerFacts>::empty());
        }
        r
    }

    /// Takes up a session of `peer` and hands out its id, which no earlier session had.
    pub fn register(&mut self, peer: String) -> (id: u64)
        requires
            old(self).fresh_id() < u64::MAX,
        ensures
            id == old(self).fresh_id(),
            final(self).fresh_id() == old(self).fresh_id() + 1,
            final(self).live() == old(self).live().push(LiveSession { id, peer }),
            final(self).metadata == old(self).metadata,
            forall|i: int|
                0 <= i < old(self).live().len() ==> (#[trigger] old(self).live()[i]).id != id,
    {
        self.sessions.register(peer)
    }

    /// Forgets a session and keeps what is known about its peer.
    pub fn abandon(&mut self, id: u64)
        ensures
            final(self).fresh_id() == old(self).fresh_id(),
            final(self).metadata == old(self).metadata,
            gone(old(self).live(), final(self).live(), id),
    {
        self.sessions.remove(id);
    }

    /// A session of `peer` has ended. With the last session of a peer goes what is known about
    /// it.
    pub fn end(&mut self, id: u64, peer: &str)
        ensures
            final(self).fresh_id() == old(self).fresh_id(),
            gone(old(self).live(), final(self).live(), id),
            final(self).known() == (if serves(final(self).live(), peer@) {
                old(self).known()
            } else {
                old(self).known().remove(peer@)
            }),
    {
        let ghost known0 = self.known();
        self.sessions.remove(id);
        if !self.sessions.is_active(peer) {
            self.metadata.remove(peer);
            proof {
                assert(self.known() =~= known0.remove(peer@));
            }
        }
    }

    /// Takes in what the scanner found out, unless no session of that peer is being served. Says
    /// whether it was taken in.
    pub fn store_metadata_if_session_active(&mut self, meta: SessionMetadata) -> (active: bool)
        ensures
            active == serves(old(self).live(), meta.peer@),
            final(self).sessions == old(self).sessions,
            final(self).known() == (if active {
                old(self).known().insert(meta.peer@, facts_of(meta))
            } else {
                old(self).known()
            }),
    {
        let ghost known0 = self.known();
        let active = self.sessions.is_active(meta.peer.as_str());
        if active {
            let peer = meta.peer.clone();
            self.metadata.insert(peer, meta);
            proof {
                assert(self.known() =~= known0.insert(meta.peer@, facts_of(meta)));
            }
        }
        active
    }

    /// What is known about `peer`.
    pub fn metadata_for(&self, peer: &str) -> (r: Option<&SessionMetadata>)
        ensures
            match r {
                Some(m) => self.known().dom().contains(peer@) && self.known()[peer@] == facts_of(
                    *m,
                ),
                None => !self.known().dom().contains(peer@),
            },
    {
        self.metadata.get(peer)
    }

    /// The number of live sessions.
    pub fn in_flight(&self) -> (n: u64)
        ensures
            n == self.live().len(),
    {
        self.sessions.len() as u64
    }

    /// Hands out every live session, to be passed on, and keeps what is known about the peers.
    pub fn take_sessions(&mut self) -> (taken: Vec<LiveSession>)
        ensures
            taken@ == old(self).live(),
            final(self).live() == Seq::<LiveSession>::empty(),
            final(self).metadata == old(self).metadata,
            final(self).fresh_id() == old(self).fresh_id(),
    {
        self.sessions.take()
    }

    /// Adds what is known about the session's peer to its handover.
    pub fn enrich_handoff(&self, handoff: SessionHandoff) -> (h: SessionHandoff)
        ensures
            h == (SessionHandoff { ident: h.ident, ..handoff }),
            opt_view(h.ident) == (if self.known().dom().contains(handoff.peer@) {
                self.known()[handoff.peer@].ident
            } else {
                opt_view(handoff.ident)
            }),
    {
        let mut h = handoff;
        match self.metadata.get(h.peer.as_str()) {
            Some(m) => {
                h.ident = match &m.ident {
                    Some(i) => Some(i.clone()),
                    None => None,
                };
            },
            None => {},
        }
        h
    }

    /// Takes over one session from a handover. What is known about its peer comes back; a session
    /// over a Unix socket goes on where it stopped, a legacy TCP session is declined.
    pub fn adopt(&mut self, h: SessionHandoff) -> (a: Adoption)
        ensures
            final(self).sessions == old(self).sessions,
            final(self).known() == recalled(old(self).known(), h),
            adoption_of(h, a),
    {
        let ghost known0 = self.known();
        match &h.ident {
            Some(ident) => {
                let meta = SessionMetadata {
                    peer: h.peer.clone(),
                    ident: Some(ident.clone()),
                    trace_id: h.trace_id.clone(),
                };
                self.metadata.insert(h.peer.clone(), meta);
                proof {
                    assert(self.known() =~= known0.insert(h.peer@, facts_of(meta)));
                }
            },
            None => {},
        }
        match h.transport {
            Transport::Uds => Adoption::Resume {
                fd: h.uds_fd,
                session: EchoSession::resume(
                    h.partial_line_bytes,
                    h.pending_write_bytes,
                    h.lines_echoed,
                ),
                peer: h.peer,
                connected_at_unix_ms: h.connected_at_unix_ms,
                trace_id: h.trace_id,
            },
            Transport::Tcp => Adoption::Decline { fd: h.uds_fd },
        }
    }
}

/// `after` is `before` without the session `id`, if it was there.
pub open spec fn gone(before: Seq<LiveSession>, after: Seq<LiveSession>, id: u64) -> bool {
    ||| after == before && forall|i: int|
        0 <= i < before.len() ==> (#[trigger] before[i]).id != id
    ||| exists|i: int|
        0 <= i < before.len() && (#[trigger] before[i]).id == id && after == before.remove(i)
}

proof fn lemma_remove_keeps_order(s: Seq<LiveSession>, k: int, next_id: u64)
    requires
        ids_in_order(s, next_id),
        0 <= k < s.len(),
    ensures
        ids_in_order(s.remove(k), next_id),
{
    let t = s.remove(k);
    assert forall|i: int, j: int| 0 <= i < j < t.len() implies (#[trigger] t[i]).id < (
    #[trigger] t[j]).id by {
        let i2 = if i < k {
            i
        } else {
            i + 1
        };
        let j2 = if j < k {
            j
        } else {
            j + 1
        };
        assert(t[i] == s[i2]);
        assert(t[j] == s[j2]);
    }
    assert forall|i: int| 0 <= i < t.len() implies (#[trigger] t[i]).id < next_id by {
        let i2 = if i < k {
            i
        } else {
            i + 1
        };
        assert(t[i] == s[i2]);
    }
}

/// What becomes of one handed-over session.
pub enum Adoption {
    /// Serve it on.
    Resume {
        fd: i32,
        session: EchoSession,
        peer: String,
        connected_at_unix_ms: u64,
        trace_id: String,
    },
    /// Close its descriptor.
    Decline { fd: i32 },
}

/// `a` is what becomes of `h`.
pub open spec fn adoption_of(h: SessionHandoff, a: Adoption) -> bool {
    match a {
        Adoption::Resume { fd, session, peer, connected_at_unix_ms, trace_id } => {
            &&& h.transport == Transport::Uds
            &&& fd == h.uds_fd
            &&& session.received == h.partial_line_bytes
            &&& session.pending == h.pending_write_bytes
            &&& session.lines_echoed == h.lines_echoed
            &&& !session.counting && !session.eof
            &&& peer == h.peer
            &&& connected_at_unix_ms == h.connected_at_unix_ms
            &&& trace_id == h.trace_id
        },
        Adoption::Decline { fd } => h.transport == Transport::Tcp && fd == h.uds_fd,
    }
}

/// `known` with what `h` says about its peer.
pub open spec fn recalled(
    known: Map<Seq<char>, PeerFacts>,
    h: SessionHandoff,
) -> Map<Seq<char>, PeerFacts> {
    match h.ident {
        None => known,
        Some(ident) => known.insert(
            h.peer@,
            PeerFacts { peer: h.peer@, ident: Some(ident@), trace_id: h.trace_id@ },
        ),
    }
}

/// `known` with what each of `hs` says about its peer, in order.
pub open spec fn all_recalled(
    known: Map<Seq<char>, PeerFacts>,
    hs: Seq<SessionHandoff>,
) -> Map<Seq<char>, PeerFacts>
    decreases hs.len(),
{
    if hs.len() == 0 {
        known
    } else {
        recalled(all_recalled(known, hs.drop_last()), hs.last())
    }
}

/// An adopted session owes its client what the handover owes.
pub proof fn adopted_session_owes_the_same(h: SessionHandoff, a: Adoption, later: Seq<u8>)
    requires
        adoption_of(h, a),
        a is Resume,
    ensures
        a->session.still_owed(later) == handoff_owes(h, later),
        a->session.lines_echoed == h.lines_echoed,
{
}

/// The handovers among `hs` that follow a schema this build understands, in order.
pub open spec fn understood(hs: Seq<SessionHandoff>) -> Seq<SessionHandoff>
    decreases hs.len(),
{
    if hs.len() == 0 {
        seq![]
    } else if schema_compatible(hs.last().version) {
        understood(hs.drop_last()).push(hs.last())
    } else {
        understood(hs.drop_last())
    }
}

/// Leaves out every handover that follows a schema this build does not understand.
pub fn keep_understood(sessions: Vec<SessionHandoff>) -> (kept: Vec<SessionHandoff>)
    ensures
        kept@ == understood(sessions@),
        kept@ == sessions@.filter(
            |h: SessionHandoff| MIN_COMPATIBLE_VERSION <= h.version <= SCHEMA_VERSION,
        ),
{
    let mut kept: Vec<SessionHandoff> = Vec::new();
    let ghost all = sessions@;
    for h in it: sessions
        invariant
            it.seq() == all,
            kept@ == understood(all.take(it.index() as int)),
    {
        proof {
            let k = it.index() as int;
            assert(all.take(k + 1).drop_last() =~= all.take(k));
            assert(all.take(k + 1).last() == h);
        }
        if is_schema_compatible(h.version) {
            kept.push(h);
        }
    }
    proof {
        assert(all.take(all.len() as int) =~= all);
        understood_sessions_are_all_kept(all);
    }
    kept
}

/// Takes every handed-over session back in, in order.
pub fn readopt_sessions(
    registry: &mut SessionRegistry,
    handoffs: Vec<SessionHandoff>,
) -> (adopted: Vec<Adoption>)
    ensures
        adopted@.len() == handoffs@.len(),
        forall|i: int|
            0 <= i < adopted@.len() ==> adoption_of(handoffs@[i], #[trigger] adopted@[i]),
        final(registry).sessions == old(registry).sessions,
        final(registry).known() == all_recalled(old(registry).known(), handoffs@),
{
    let ghost all = handoffs@;
    let ghost start = registry.known();
    let mut adopted: Vec<Adoption> = Vec::new();
    for h in it: handoffs
        invariant
            it.seq() == all,
            start == old(registry).known(),
            adopted@.len() == it.index(),
            forall|i: int|
                0 <= i < adopted@.len() ==> adoption_of(all[i], #[trigger] adopted@[i]),
            registry.sessions == old(registry).sessions,
            registry.known() == all_recalled(start, all.take(it.index() as int)),
    {
        proof {
            let k = it.index() as int;
            assert(all.take(k + 1).drop_last() =~= all.take(k));
            assert(all.take(k + 1).last() == h);
        }
        let a = registry.adopt(h);
        adopted.push(a);
    }
    proof {
        assert(all.take(all.len() as int) =~= all);
    }
    adopted
}

/// Takes over the sessions of an earlier process. A session that follows a schema this build does
/// not understand is left out, and the others go on.
pub fn adopt_inflight_sessions(
    registry: &mut SessionRegistry,
    sessions: Vec<SessionHandoff>,
) -> (adopted: Vec<Adoption>)
    ensures
        adopted@.len() == understood(sessions@).len(),
        forall|i: int|
            0 <= i < adopted@.len() ==> adoption_of(
                understood(sessions@)[i],
                #[trigger] adopted@[i],
            ),
        final(registry).sessions == old(registry).sessions,
        final(registry).known() == all_recalled(old(registry).known(), understood(sessions@)),
{
    readopt_sessions(registry, keep_understood(sessions))
}

/// Where the sessions of an earlier process are to be read from.
#[derive(Clone, Copy, Debug, PartialEq, Eq, Structural)]
pub enum HandoffSessionsSource {
    Fd,
    Env,
}

/// An inherited variable, as it was found.
pub enum Inherited {
    Unset,
    NotText,
    Value(String),
}

/// Where the payload is.
pub enum SessionsPayload {
    /// Nothing was handed over.
    Absent,
    /// To be read from this descriptor.
    FromFd(i32),
    /// Handed over in a variable.
    Inline(String),
}

/// Finds the payload: an inherited descriptor comes before a variable, and a descriptor that
/// cannot be understood is an error even if the variable is there.
pub fn read_handoff_sessions_json(fd_var: Inherited, env_var: Option<String>) -> (r: Result<
    SessionsPayload,
    Failure,
>)
    ensures
        match fd_var {
            Inherited::Unset => match env_var {
                Some(json) => r == Ok::<SessionsPayload, Failure>(SessionsPayload::Inline(json)),
                None => r == Ok::<SessionsPayload, Failure>(SessionsPayload::Absent),
            },
            Inherited::Value(v) => match parse_fd(v@) {
                Some(fd) => r == Ok::<SessionsPayload, Failure>(SessionsPayload::FromFd(fd)),
                None => r is Err && r->Err_0.shown() == "parse "@ + ENV_SESSIONS_FD@,
            },
            Inherited::NotText => r is Err && r->Err_0.shown() == ENV_SESSIONS_FD@,
        },
{
    match fd_var {
        Inherited::Unset => match env_var {
            Some(json) => Ok(SessionsPayload::Inline(json)),
            None => Ok(SessionsPayload::Absent),
        },
        Inherited::Value(v) => match parse_i32(v.as_str()) {
            Some(fd) => Ok(SessionsPayload::FromFd(fd)),
            None => {
                let mut context = "parse ".to_owned();
                context.append(ENV_SESSIONS_FD);
                Err(Failure::new("invalid descriptor number").context(context.as_str()))
            },
        },
        Inherited::NotText => Err(
            Failure::new("environment variable is not text").context(ENV_SESSIONS_FD),
        ),
    }
}

/// Judges the payload once it was decoded. What came over a descriptor must be sound; an unsound
/// variable costs the sessions and nothing else.
pub fn parse_handoff_sessions_payload(
    source: HandoffSessionsSource,
    decoded: Result<Vec<SessionHandoff>, String>,
) -> (r: Result<Option<Vec<SessionHandoff>>, Failure>)
    ensures
        match decoded {
            Ok(sessions) => r == Ok::<Option<Vec<SessionHandoff>>, Failure>(Some(sessions)),
            Err(reason) => match source {
                HandoffSessionsSource::Env => r == Ok::<Option<Vec<SessionHandoff>>, Failure>(
                    None,
                ),
                HandoffSessionsSource::Fd => r is Err && r->Err_0.message@ == reason@
                    && r->Err_0.shown()
                    == "parse session handoff JSON from FDPASS_SESSIONS_FD"@,
            },
        },
{
    match decoded {
        Ok(sessions) => Ok(Some(sessions)),
        Err(reason) => match source {
            HandoffSessionsSource::Env => Ok(None),
            HandoffSessionsSource::Fd => Err(
                Failure::new(reason.as_str()).context(
                    "parse session handoff JSON from FDPASS_SESSIONS_FD",
                ),
            ),
        },
    }
}

/// Whether a process of `generation` removes the socket file when it ends: only the first one
/// made it.
pub fn cleanup_generation_zero_socket(generation: u64) -> (remove: bool)
    ensures
        remove == (generation == 0),
{
    generation == 0
}

/// What a fresh connection turns out to be.
pub enum Dispatch {
    /// A session of `peer` that starts with the bytes behind the preamble.
    Session { session: EchoSession, peer: String, trace_id: String },
    /// The scanner's metadata channel; its first bytes are already here.
    Sidecar { received: Vec<u8> },
}

/// Dispatches a connection by its preamble. `received` is what came after the preamble line.
pub fn dispatch_incoming(preamble: ProcessorPreamble, received: Vec<u8>) -> (d: Dispatch)
    ensures
        match preamble {
            ProcessorPreamble::Session { peer, role, trace_id } => {
                &&& d matches Dispatch::Session { session, peer: p, trace_id: t }
                &&& p == peer && t == trace_id
                &&& session.received == received
                &&& session.pending@ == Seq::<u8>::empty()
                &&& session.lines_echoed == 0
            },
            ProcessorPreamble::Sidecar => d == (Dispatch::Sidecar { received }),
        },
{
    match preamble {
        ProcessorPreamble::Session { peer, role: _, trace_id } => Dispatch::Session {
            session: EchoSession::open(received),
            peer,
            trace_id,
        },
        ProcessorPreamble::Sidecar => Dispatch::Sidecar { received },
    }
}

/// What reading the preamble comes to.
pub enum PreambleStep {
    NeedMore,
    /// The preamble line; the bytes behind it stay in the buffer.
    Line(String),
    /// Drop the connection, for this reason.
    Drop(String),
}

/// Looks for the preamble line in what a connection sent so far.
pub fn read_preamble(buf: &mut Vec<u8>, eof: bool) -> (step: PreambleStep)
    ensures
        match front(old(buf)@, MAX_LINE as nat) {
            Front::Line(content, used) => {
                &&& step matches PreambleStep::Line(line)
                &&& vstd::utf8::encode_utf8(line@) == content
                &&& final(buf)@ == old(buf)@.skip(used)
            },
            Front::NotText => step matches PreambleStep::Drop(why) && why@
                == "preamble decode error"@,
            Front::TooLong => step matches PreambleStep::Drop(why) && why@
                == "preamble decode error"@,
            Front::Partial => if !eof {
                step == PreambleStep::NeedMore && *final(buf) == *old(buf)
            } else if is_empty_tail(old(buf)@) {
                step matches PreambleStep::Drop(why) && why@ == "uds closed before preamble"@
            } else if vstd::utf8::valid_utf8(without_carriage_return(old(buf)@)) {
                &&& step matches PreambleStep::Line(line)
                &&& vstd::utf8::encode_utf8(line@) == without_carriage_return(old(buf)@)
                &&& final(buf)@ == Seq::<u8>::empty()
            } else {
                step matches PreambleStep::Drop(why) && why@ == "preamble decode error"@
            },
        },
{
    match take_line(buf, eof, MAX_LINE) {
        NextLine::Line(line) => PreambleStep::Line(line),
        NextLine::NeedMore => PreambleStep::NeedMore,
        NextLine::End => PreambleStep::Drop("uds closed before preamble".to_owned()),
        NextLine::Broken(_) => PreambleStep::Drop("preamble decode error".to_owned()),
    }
}

/// A handed-over session is kept exactly when its own version is understood, whatever else is
/// handed over with it: none is lost, none is added, and they keep their order.
pub proof fn understood_sessions_are_all_kept(hs: Seq<SessionHandoff>)
    ensures
        understood(hs) == hs.filter(
            |h: SessionHandoff| MIN_COMPATIBLE_VERSION <= h.version <= SCHEMA_VERSION,
        ),
        forall|i: int|
            0 <= i < hs.len() && MIN_COMPATIBLE_VERSION <= (#[trigger] hs[i]).version
                <= SCHEMA_VERSION ==> understood(hs).contains(hs[i]),
        forall|i: int|
            0 <= i < understood(hs).len() ==> hs.contains(#[trigger] understood(hs)[i]),
        (forall|i: int|
            0 <= i < hs.len() ==> MIN_COMPATIBLE_VERSION <= (#[trigger] hs[i]).version
                <= SCHEMA_VERSION) ==> understood(hs) == hs,
    decreases hs.len(),
{
    reveal(Seq::filter);
    if hs.len() > 0 {
        let d = hs.drop_last();
        understood_sessions_are_all_kept(d);
        let u = understood(hs);
        assert forall|i: int|
            0 <= i < hs.len() && MIN_COMPATIBLE_VERSION <= (#[trigger] hs[i]).version
                <= SCHEMA_VERSION implies u.contains(hs[i]) by {
            if i < d.len() {
                assert(d[i] == hs[i]);
                let j = choose|j: int| 0 <= j < understood(d).len() && understood(d)[j] == d[i];
                assert(u[j] == hs[i]);
            } else {
                assert(u[u.len() - 1] == hs[i]);
            }
        }
        assert forall|i: int| 0 <= i < u.len() implies hs.contains(#[trigger] u[i]) by {
            if i < understood(d).len() {
                assert(d.contains(understood(d)[i]));
                let j = choose|j: int| 0 <= j < d.len() && d[j] == understood(d)[i];
                assert(hs[j] == u[i]);
            } else {
                assert(hs[hs.len() - 1] == u[i]);
            }
        }
        if forall|i: int|
            0 <= i < hs.len() ==> MIN_COMPATIBLE_VERSION <= (#[trigger] hs[i]).version
                <= SCHEMA_VERSION {
            assert forall|i: int| 0 <= i < d.len() implies MIN_COMPATIBLE_VERSION <= (
            #[trigger] d[i]).version <= SCHEMA_VERSION by {
                assert(d[i] == hs[i]);
            }
            assert(hs[hs.len() - 1] == hs.last());
            assert(u =~= hs);
        }
    }
}

/// What is handed over in two parts is kept as it would be in one.
pub proof fn handovers_are_judged_one_by_one(a: Seq<SessionHandoff>, b: Seq<SessionHandoff>)
    ensures
        understood(a + b) == understood(a) + understood(b),
    decreases b.len(),
{
    if b.len() == 0 {
        assert(a + b =~= a);
        assert(understood(a) + understood(b) =~= understood(a));
    } else {
        handovers_are_judged_one_by_one(a, b.drop_last());
        assert((a + b).drop_last() =~= a + b.drop_last());
        assert((a + b).last() == b.last());
        assert(understood(a + b) =~= understood(a) + understood(b));
    }
}

/// A session over a Unix socket goes on over its own descriptor, with the bytes that were received
/// and not yet answered, the bytes that were to be written, its count of lines, its peer, its
/// start and its trace; a legacy one is closed, over its own descriptor too.
pub proof fn adopted_session_goes_on_where_it_stopped(h: SessionHandoff, a: Adoption)
    requires
        adoption_of(h, a),
    ensures
        h.transport == Transport::Uds <==> a is Resume,
        a matches Adoption::Resume { fd, session, peer, connected_at_unix_ms, trace_id } ==> fd
            == h.uds_fd && session.received@ == h.partial_line_bytes@ && session.pending@
            == h.pending_write_bytes@ && session.lines_echoed == h.lines_echoed && peer@ == h.peer@
            && connected_at_unix_ms == h.connected_at_unix_ms && trace_id@ == h.trace_id@
            && !session.eof,
        a matches Adoption::Decline { fd } ==> fd == h.uds_fd && h.transport == Transport::Tcp,
{
}

/// Every session of a version that is understood is adopted: one adoption for each, in order, and
/// none for any other.
pub proof fn successor_adopts_every_understood_session(
    hs: Seq<SessionHandoff>,
    adopted: Seq<Adoption>,
    i: int,
) -> (j: int)
    requires
        adopted.len() == understood(hs).len(),
        forall|k: int|
            0 <= k < adopted.len() ==> adoption_of(understood(hs)[k], #[trigger] adopted[k]),
        0 <= i < hs.len(),
        MIN_COMPATIBLE_VERSION <= hs[i].version <= SCHEMA_VERSION,
    ensures
        0 <= j < adopted.len(),
        j <= i,
        hs[i].transport == Transport::Uds ==> adopted[j] is Resume && adopted[j]->Resume_fd
            == hs[i].uds_fd && adopted[j]->session.received@ == hs[i].partial_line_bytes@
            && adopted[j]->session.pending@ == hs[i].pending_write_bytes@,
        hs[i].transport == Transport::Tcp ==> adopted[j] == (Adoption::Decline {
            fd: hs[i].uds_fd,
        }),
        (forall|k: int|
            0 <= k < hs.len() ==> MIN_COMPATIBLE_VERSION <= (#[trigger] hs[k]).version
                <= SCHEMA_VERSION) ==> j == i && adopted.len() == hs.len(),
{
    let j = lemma_understood_place(hs, i);
    understood_sessions_are_all_kept(hs);
    adopted_session_goes_on_where_it_stopped(hs[i], adopted[j]);
    if forall|k: int|
        0 <= k < hs.len() ==> MIN_COMPATIBLE_VERSION <= (#[trigger] hs[k]).version
            <= SCHEMA_VERSION {
        adopted_session_goes_on_where_it_stopped(hs[i], adopted[i]);
        i
    } else {
        j
    }
}

proof fn lemma_understood_place(hs: Seq<SessionHandoff>, i: int) -> (j: int)
    requires
        0 <= i < hs.len(),
        MIN_COMPATIBLE_VERSION <= hs[i].version <= SCHEMA_VERSION,
    ensures
        0 <= j < understood(hs).len(),
        j <= i,
        understood(hs)[j] == hs[i],
    decreases hs.len(),
{
    let d = hs.drop_last();
    understood_sessions_are_all_kept(d);
    if i == d.len() {
        reveal(Seq::filter);
        d.lemma_filter_len(|h: SessionHandoff| MIN_COMPATIBLE_VERSION <= h.version <= SCHEMA_VERSION);
        understood(d).len() as int
    } else {
        assert(d[i] == hs[i]);
        lemma_understood_place(d, i)
    }
}

/// What a handover says about its peer is known afterwards; what it does not say stays as it was,
/// and so does what is known about any other peer.
pub proof fn handed_over_facts_are_known(
    known: Map<Seq<char>, PeerFacts>,
    h: SessionHandoff,
    other: Seq<char>,
)
    ensures
        h.ident is None ==> recalled(known, h) == known,
        h.ident is Some ==> recalled(known, h).dom().contains(h.peer@) && recalled(
            known,
            h,
        )[h.peer@].ident == Some(h.ident->0@) && recalled(known, h)[h.peer@].trace_id == h.trace_id@
            && recalled(known, h)[h.peer@].peer == h.peer@,
        other != h.peer@ ==> (recalled(known, h).dom().contains(other) <==> known.dom().contains(
            other,
        )) && (known.dom().contains(other) ==> recalled(known, h)[other] == known[other]),
{
}

/// Of several handovers the last one that says something about a peer decides; a peer that none
/// speaks of stays as it was.
pub proof fn last_word_about_a_peer_counts(
    known: Map<Seq<char>, PeerFacts>,
    hs: Seq<SessionHandoff>,
    peer: Seq<char>,
    i: int,
)
    ensures
        (forall|j: int|
            0 <= j < hs.len() ==> (#[trigger] hs[j]).peer@ != peer || hs[j].ident is None) ==> (
        all_recalled(known, hs).dom().contains(peer) <==> known.dom().contains(peer)) && (
        known.dom().contains(peer) ==> all_recalled(known, hs)[peer] == known[peer]),
        0 <= i < hs.len() && hs[i].peer@ == peer && hs[i].ident is Some && (forall|j: int|
            i < j < hs.len() ==> (#[trigger] hs[j]).peer@ != peer || hs[j].ident is None)
            ==> all_recalled(known, hs).dom().contains(peer) && all_recalled(known, hs)[peer].ident
            == Some(hs[i].ident->0@) && all_recalled(known, hs)[peer].trace_id == hs[i].trace_id@,
    decreases hs.len(),
{
    if hs.len() > 0 {
        let d = hs.drop_last();
        last_word_about_a_peer_counts(known, d, peer, i);
        handed_over_facts_are_known(all_recalled(known, d), hs.last(), peer);
        assert(hs[hs.len() - 1] == hs.last());
        assert forall|j: int| 0 <= j < d.len() implies #[trigger] d[j] == hs[j] by {}
        if forall|j: int|
            0 <= j < hs.len() ==> (#[trigger] hs[j]).peer@ != peer || hs[j].ident is None {
            assert forall|j: int| 0 <= j < d.len() implies (#[trigger] d[j]).peer@ != peer
                || d[j].ident is None by {
                assert(d[j] == hs[j]);
            }
        }
        if 0 <= i < d.len() && hs[i].peer@ == peer && hs[i].ident is Some && (forall|j: int|
            i < j < hs.len() ==> (#[trigger] hs[j]).peer@ != peer || hs[j].ident is None) {
            assert forall|j: int| i < j < d.len() implies (#[trigger] d[j]).peer@ != peer
                || d[j].ident is None by {
                assert(d[j] == hs[j]);
            }
            assert(d[i] == hs[i]);
        }
    }
}

/// A session that was taken off the list is no longer on it, and every other one still is, in the
/// same order.
pub proof fn only_the_session_named_goes(
    before: Seq<LiveSession>,
    after: Seq<LiveSession>,
    id: u64,
    next_id: u64,
    i: int,
)
    requires
        ids_in_order(before, next_id),
        gone(before, after, id),
    ensures
        forall|j: int| 0 <= j < after.len() ==> (#[trigger] after[j]).id != id,
        0 <= i < before.len() && before[i].id != id ==> after.contains(before[i]),
        after.len() + 1 >= before.len(),
        after.len() == before.len() <==> after == before,
        ids_in_order(after, next_id),
{
    if exists|k: int|
        0 <= k < before.len() && (#[trigger] before[k]).id == id && after == before.remove(k) {
        let k = choose|k: int|
            0 <= k < before.len() && (#[trigger] before[k]).id == id && after == before.remove(k);
        lemma_remove_keeps_order(before, k, next_id);
        assert forall|j: int| 0 <= j < after.len() implies (#[trigger] after[j]).id != id by {
            let j2 = if j < k {
                j
            } else {
                j + 1
            };
            assert(after[j] == before[j2]);
            if j2 < k {
                assert(before[j2].id < before[k].id);
            } else {
                assert(before[k].id < before[j2].id);
            }
        }
        if 0 <= i < before.len() && before[i].id != id {
            let j = if i < k {
                i
            } else {
                i - 1
            };
            assert(after[j] == before[i]);
        }
    } else if 0 <= i < before.len() {
        assert(after[i] == before[i]);
    }
}

/// A peer is being served exactly while a session of it is on the list.
pub proof fn peer_is_served_while_it_has_a_session(
    live: Seq<LiveSession>,
    s: LiveSession,
    peer: Seq<char>,
)
    ensures
        serves(live.push(s), peer) <==> serves(live, peer) || s.peer@ == peer,
        !serves(Seq::<LiveSession>::empty(), peer),
{
    let more = live.push(s);
    if serves(live, peer) {
        let i = choose|i: int| 0 <= i < live.len() && (#[trigger] live[i]).peer@ == peer;
        assert(more[i].peer@ == peer);
    }
    if s.peer@ == peer {
        assert(more[live.len() as int].peer@ == peer);
    }
    if serves(more, peer) {
        let i = choose|i: int| 0 <= i < more.len() && (#[trigger] more[i]).peer@ == peer;
        if i < live.len() {
            assert(live[i].peer@ == peer);
        }
    }
}

} // verus!

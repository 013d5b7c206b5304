//! The scanner: identd lookups about clients, and what it reports of them.

use vstd::prelude::*;

use crate::control::SessionMetadata;
use crate::text::{
    decimal, from_utf8_lossy, lossy_text, opt_view, push_decimal, trim, trimmed_text,
};

verus! {

/// One line from an acceptor.
#[derive(Debug)]
pub enum ScanRequest {
    SessionObserved {
        client_ip: String,
        client_port: u16,
        server_port: u16,
        role: String,
        /// Trace id of the session that the client opened.
        trace_id: String,
    },
}

/// The lookups that are under way.
pub struct ScannerRegistry {
    next_id: u64,
    in_flight: Vec<u64>,
}

/// Numbers rise strictly, and none has been given out beyond `next`.
pub open spec fn ids_rise(ids: Seq<u64>, next: u64) -> bool {
    &&& forall|i: int, j: int| 0 <= i < j < ids.len() ==> #[trigger] ids[i] < #[trigger] ids[j]
    &&& forall|i: int| 0 <= i < ids.len() ==> #[trigger] ids[i] < next
}

impl View for ScannerRegistry {
    type V = Set<u64>;

    closed spec fn view(&self) -> Set<u64> {
        self.in_flight@.to_set()
    }
}

impl ScannerRegistry {
    pub closed spec fn next(&self) -> u64 {
        self.next_id
    }

    #[verifier::type_invariant]
    spec fn well_formed(self) -> bool {
        ids_rise(self.in_flight@, self.next_id)
    }

    pub fn new() -> (r: Self)
        ensures
            r@ == Set::<u64>::empty(),
            r.next() == 0,
    {
        let r = ScannerRegistry { next_id: 0, in_flight: Vec::new() };
        proof {
            assert(r@ =~= Set::<u64>::empty());
        }
        r
    }

    /// A lookup begins; its number has not been used before.
    pub fn begin(&mut self) -> (id: u64)
        requires
            old(self).next() < u64::MAX,
        ensures
            id == old(self).next(),
            !old(self)@.contains(id),
            final(self)@ == old(self)@.insert(id),
            final(self).next() == old(self).next() + 1,
    {
        proof {
            use_type_invariant(&*self);
        }
        let id: u64 = self.next_id;
        let mut ids: Vec<u64> = Vec::new();
        std::mem::swap(&mut ids, &mut self.in_flight);
        let ghost before = ids@;
        ids.push(id);
        self.next_id = id + 1;
        self.in_flight = ids;
        proof {
            assert(self.in_flight@ == before.push(id));
            before.lemma_push_to_set_commute(id);
        }
        id
    }

    /// A lookup is over.
    pub fn end(&mut self, id: u64)
        ensures
            final(self)@ == old(self)@.remove(id),
            final(self).next() == old(self).next(),
    {
        proof {
            use_type_invariant(&*self);
        }
        let mut ids: Vec<u64> = Vec::new();
        std::mem::swap(&mut ids, &mut self.in_flight);
        let ghost all = ids@;
        let ghost next = self.next_id;
        let mut i: usize = 0;
        while i < ids.len()
            invariant
                ids@ == all,
                ids_rise(all, next),
                next == self.next_id,
                next == old(self).next(),
                all.to_set() == old(self)@,
                i <= all.len(),
                forall|j: int| 0 <= j < i ==> #[trigger] all[j] != id,
                self.in_flight@.len() == 0,
            decreases ids.len() - i,
        {
            if ids[i] == id {
                let _ = ids.remove(i);
                proof {
                    lemma_removed(all, i as int, next);
                }
                self.in_flight = ids;
                return;
            }
            i = i + 1;
        }
        proof {
            assert(!all.contains(id));
            assert(all.to_set() =~= all.to_set().remove(id));
        }
        self.in_flight = ids;
    }

    /// How many lookups are under way.
    pub fn len(&self) -> (n: usize)
        ensures
            n == self@.len(),
    {
        proof {
            use_type_invariant(self);
            self.in_flight@.unique_seq_to_set();
        }
        self.in_flight.len()
    }
}

proof fn lemma_removed(ids: Seq<u64>, i: int, next: u64)
    requires
        ids_rise(ids, next),
        0 <= i < ids.len(),
    ensures
        ids_rise(ids.remove(i), next),
        ids.remove(i).to_set() == ids.to_set().remove(ids[i]),
{
    let r = ids.remove(i);
    assert forall|a: int| 0 <= a < r.len() implies #[trigger] r[a] == ids[if a < i {
        a
    } else {
        a + 1
    }] by {}
    assert forall|a: int, b: int| 0 <= a < b < r.len() implies #[trigger] r[a] < #[trigger] r[b] by {
        let a2 = if a < i {
            a
        } else {
            a + 1
        };
        let b2 = if b < i {
            b
        } else {
            b + 1
        };
        assert(ids[a2] < ids[b2]);
    }
    assert forall|x: u64| r.contains(x) <==> ids.contains(x) && x != ids[i] by {
        if r.contains(x) {
            let a = choose|a: int| 0 <= a < r.len() && r[a] == x;
            let a2 = if a < i {
                a
            } else {
                a + 1
            };
            assert(ids[a2] == x);
            assert(a2 != i);
        }
        if ids.contains(x) && x != ids[i] {
            let k = choose|k: int| 0 <= k < ids.len() && ids[k] == x;
            if k < i {
                assert(r[k] == x);
            } else {
                assert(r[k - 1] == x);
            }
        }
    }
    assert(r.to_set() =~= ids.to_set().remove(ids[i]));
}

/// The query that identd is sent.
pub open spec fn ident_query(client_port: u16, server_port: u16) -> Seq<char> {
    decimal(client_port as nat) + ","@ + decimal(server_port as nat) + "\r\n"@
}

/// The query that identd is sent.
pub fn ident_request(client_port: u16, server_port: u16) -> (s: String)
    ensures
        s@ == ident_query(client_port, server_port),
{
    let mut s = String::new();
    push_decimal(&mut s, client_port as u64);
    s.append(",");
    push_decimal(&mut s, server_port as u64);
    s.append("\r\n");
    proof {
        assert(s@ =~= ident_query(client_port, server_port));
    }
    s
}

/// An address and a port.
pub open spec fn endpoint_text(ip: Seq<char>, port: u16) -> Seq<char> {
    ip + ":"@ + decimal(port as nat)
}

/// An address and a port, as text.
pub fn endpoint(ip: &str, port: u16) -> (s: String)
    ensures
        s@ == endpoint_text(ip@, port),
{
    let mut s = ip.to_owned();
    s.append(":");
    push_decimal(&mut s, port as u64);
    s
}

/// The answer of identd without the white space around it; nothing where no answer came, or an
/// empty one.
pub fn ident_reply(received: Option<Vec<u8>>) -> (r: Option<String>)
    ensures
        match received {
            Some(b) => opt_view(r) == (if b@.len() == 0 {
                None
            } else {
                Some(trimmed_text(lossy_text(b@)))
            }),
            None => r is None,
        },
{
    match received {
        Some(b) => {
            if b.len() == 0 {
                None
            } else {
                let text = from_utf8_lossy(&b);
                Some(trim(text.as_str()))
            }
        },
        None => None,
    }
}

/// What the processor is told of a client.
pub fn scan_result(
    client_ip: &str,
    client_port: u16,
    ident: Option<String>,
    trace_id: String,
) -> (m: SessionMetadata)
    ensures
        m.peer@ == endpoint_text(client_ip@, client_port),
        m.ident == ident,
        m.trace_id == trace_id,
{
    SessionMetadata { peer: endpoint(client_ip, client_port), ident, trace_id }
}

/// Nanoseconds that lookups get to finish before an upgrade goes on without them: 1 s.
pub const SCAN_DRAIN_TIME: u64 = 1_000_000_000;

/// Milliseconds between two looks at the lookups that are left.
pub const SCAN_DRAIN_POLL_MS: u64 = 100;

/// Whether an upgrade can go on.
#[derive(Clone, Copy, Debug, PartialEq, Eq, Structural)]
pub enum ScanDrain {
    /// No lookup is under way.
    Done,
    /// Lookups are left, and are given up.
    Abandon,
    /// Look again a little later.
    Wait,
}

/// Decides whether an upgrade can go on while lookups are under way.
pub fn drain_lookups(in_flight: usize, now: u64, deadline: u64) -> (d: ScanDrain)
    ensures
        d == (if in_flight == 0 {
            ScanDrain::Done
        } else if now > deadline {
            ScanDrain::Abandon
        } else {
            ScanDrain::Wait
        }),
{
    if in_flight == 0 {
        ScanDrain::Done
    } else if now > deadline {
        ScanDrain::Abandon
    } else {
        ScanDrain::Wait
    }
}

} // verus!

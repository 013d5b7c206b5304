//! A line-echo session: every line that arrives is sent back, and the session survives the
//! replacement of the process that serves it.

use vstd::prelude::*;
use vstd::utf8::{encode_utf8, valid_utf8};

use crate::handoff::{SessionHandoff, Transport};
use crate::lines::{
    front, front_is_stable, is_empty_tail, lemma_first_newline, line_comes_off_whole,
    line_ends_at_its_newline, line_with_carriage_return_comes_off_whole, take_line,
    without_carriage_return, Front, NextLine, MAX_LINE, NEWLINE,
};
use crate::schema::SCHEMA_VERSION;

verus! {

/// Everything that a client receives for the stream `b`: each line with a newline, up to the end
/// of the stream or to what cannot be split into lines.
pub open spec fn echo_of(b: Seq<u8>) -> Seq<u8>
    decreases b.len(),
    via echo_of_decreases
{
    match front(b, MAX_LINE as nat) {
        Front::Line(content, used) => content.push(NEWLINE) + echo_of(b.skip(used)),
        Front::Partial => if !is_empty_tail(b) && valid_utf8(without_carriage_return(b)) {
            without_carriage_return(b).push(NEWLINE)
        } else {
            seq![]
        },
        _ => seq![],
    }
}

#[via_fn]
proof fn echo_of_decreases(b: Seq<u8>) {
    lemma_first_newline(b, MAX_LINE as nat);
}

/// What the session asks of its connection next.
#[derive(Clone, Copy, Debug, PartialEq, Eq, Structural)]
pub enum SessionStep {
    /// Write what is pending.
    Write,
    /// Receive more.
    Read,
    /// Close the connection.
    Close,
}

/// A session between two events on its connection.
pub struct EchoSession {
    /// Received, and not yet split into lines.
    pub received: Vec<u8>,
    /// To be written.
    pub pending: Vec<u8>,
    /// Lines whose echo was written in full.
    pub lines_echoed: u64,
    /// What is pending is the echo of a line that counts once it is written.
    pub counting: bool,
    /// The client has closed its side.
    pub eof: bool,
}

impl EchoSession {
    /// Everything that the client still receives, where `later` is all that it still sends.
    pub open spec fn still_owed(&self, later: Seq<u8>) -> Seq<u8> {
        self.pending@ + echo_of(self.received@ + later)
    }

    /// A session that starts with `received` from its client.
    pub fn open(received: Vec<u8>) -> (s: Self)
        ensures
            s.received == received,
            s.pending@ == Seq::<u8>::empty(),
            s.lines_echoed == 0,
            !s.counting,
            !s.eof,
            forall|later: Seq<u8>|
                #![trigger s.still_owed(later)]
                s.still_owed(later) == echo_of(received@ + later),
    {
        let s = EchoSession {
            received,
            pending: Vec::new(),
            lines_echoed: 0,
            counting: false,
            eof: false,
        };
        proof {
            assert forall|later: Seq<u8>| #![trigger s.still_owed(later)] s.still_owed(later)
                == echo_of(received@ + later) by {
                assert(s.still_owed(later) =~= echo_of(received@ + later));
            }
        }
        s
    }

    /// The connection gave more bytes, or, with none, its end.
    pub fn feed(&mut self, data: &[u8])
        ensures
            final(self).received@ == old(self).received@ + data@,
            final(self).eof == (old(self).eof || data@.len() == 0),
            final(self).pending == old(self).pending,
            final(self).lines_echoed == old(self).lines_echoed,
            final(self).counting == old(self).counting,
            forall|later: Seq<u8>|
                #![trigger final(self).still_owed(later)]
                final(self).still_owed(later) == old(self).still_owed(data@ + later),
    {
        let ghost before = *self;
        if data.len() == 0 {
            self.eof = true;
        }
        self.received.extend_from_slice(data);
        proof {
            assert(self.received@ =~= before.received@ + data@);
            assert forall|later: Seq<u8>| #![trigger self.still_owed(later)] self.still_owed(later)
                == before.still_owed(data@ + later) by {
                assert(self.received@ + later =~= before.received@ + (data@ + later));
            }
        }
    }

    /// Decides what to do next, and turns a received line into a pending echo where nothing is
    /// pending. What the client is still owed does not change; a session that is to be closed
    /// owes nothing.
    pub fn step(&mut self) -> (r: SessionStep)
        ensures
            final(self).eof == old(self).eof,
            final(self).lines_echoed == old(self).lines_echoed,
            r is Write <==> final(self).pending@.len() > 0,
            old(self).pending@.len() > 0 ==> *final(self) == *old(self),
            r is Read ==> *final(self) == *old(self) && !old(self).eof && front(
                old(self).received@,
                MAX_LINE as nat,
            ) is Partial,
            r is Close ==> *final(self) == *old(self),
            r is Write && old(self).pending@.len() == 0 ==> final(self).counting,
            old(self).pending@.len() == 0 ==> match front(old(self).received@, MAX_LINE as nat) {
                Front::Line(content, used) => {
                    &&& r is Write
                    &&& final(self).pending@ == content.push(NEWLINE)
                    &&& final(self).received@ == old(self).received@.skip(used)
                },
                Front::Partial => {
                    let tail = without_carriage_return(old(self).received@);
                    if !old(self).eof {
                        r is Read
                    } else if !is_empty_tail(old(self).received@) && valid_utf8(tail) {
                        &&& r is Write
                        &&& final(self).pending@ == tail.push(NEWLINE)
                        &&& final(self).received@ == Seq::<u8>::empty()
                    } else {
                        r is Close
                    }
                },
                _ => r is Close,
            },
            !old(self).eof ==> forall|later: Seq<u8>|
                #![trigger final(self).still_owed(later)]
                final(self).still_owed(later) == old(self).still_owed(later),
            old(self).eof ==> final(self).still_owed(seq![]) == old(self).still_owed(seq![]),
            r is Close && !old(self).eof ==> forall|later: Seq<u8>|
                #![trigger final(self).still_owed(later)]
                final(self).still_owed(later) == Seq::<u8>::empty(),
            r is Close ==> final(self).still_owed(seq![]) == Seq::<u8>::empty(),
    {
        broadcast use vstd::utf8::group_utf8_lib;

        if self.pending.len() > 0 {
            return SessionStep::Write;
        }
        let ghost before = *self;
        let ghost b = self.received@;
        proof {
            lemma_first_newline(b, MAX_LINE as nat);
        }
        let eof = self.eof;
        let next = take_line(&mut self.received, eof, MAX_LINE);
        match next {
            NextLine::Line(line) => {
                self.pending.extend_from_slice(line.as_str().as_bytes());
                self.pending.push(NEWLINE);
                self.counting = true;
                proof {
                    let content = encode_utf8(line@);
                    assert(self.pending@ =~= content.push(NEWLINE));
                    if front(b, MAX_LINE as nat) is Line {
                        let used = front(b, MAX_LINE as nat)->Line_1;
                        assert forall|later: Seq<u8>|
                            #![trigger self.still_owed(later)]
                            self.still_owed(later) == before.still_owed(later) by {
                            front_is_stable(b, later, MAX_LINE as nat);
                            assert((b + later).skip(used) =~= self.received@ + later);
                            assert(before.still_owed(later) =~= echo_of(b + later));
                        }
                    } else {
                        assert(b + Seq::<u8>::empty() =~= b);
                        assert(self.received@ + Seq::<u8>::empty() =~= Seq::<u8>::empty());
                        assert(!crate::lines::has_line(Seq::<u8>::empty(), MAX_LINE as nat));
                        assert(echo_of(Seq::<u8>::empty()) =~= Seq::<u8>::empty());
                        assert(self.still_owed(seq![]) =~= before.still_owed(seq![]));
                    }
                }
                SessionStep::Write
            },
            NextLine::NeedMore => SessionStep::Read,
            NextLine::End => {
                proof {
                    assert(b + Seq::<u8>::empty() =~= b);
                    assert(self.still_owed(seq![]) =~= Seq::<u8>::empty());
                }
                SessionStep::Close
            },
            NextLine::Broken(_) => {
                proof {
                    if front(b, MAX_LINE as nat) is Partial {
                        assert(b + Seq::<u8>::empty() =~= b);
                        assert(self.still_owed(seq![]) =~= Seq::<u8>::empty());
                    } else {
                        assert forall|later: Seq<u8>|
                            #![trigger self.still_owed(later)]
                            self.still_owed(later) == Seq::<u8>::empty() by {
                            front_is_stable(b, later, MAX_LINE as nat);
                            assert(self.still_owed(later) =~= Seq::<u8>::empty());
                        }
                    }
                }
                SessionStep::Close
            },
        }
    }

    /// The connection took the first `n` pending bytes. A line counts as echoed once the last
    /// byte of its echo is taken.
    pub fn wrote(&mut self, n: usize)
        requires
            n <= old(self).pending@.len(),
            old(self).lines_echoed < u64::MAX,
        ensures
            final(self).pending@ == old(self).pending@.skip(n as int),
            final(self).received == old(self).received,
            final(self).eof == old(self).eof,
            ({
                let done = old(self).counting && final(self).pending@.len() == 0;
                &&& final(self).lines_echoed == old(self).lines_echoed + (if done {
                    1int
                } else {
                    0
                })
                &&& final(self).counting == (old(self).counting && !done)
            }),
            forall|later: Seq<u8>|
                #![trigger final(self).still_owed(later)]
                old(self).pending@.take(n as int) + final(self).still_owed(later) == old(
                    self,
                ).still_owed(later),
    {
        let ghost before = *self;
        let rest = self.pending.split_off(n);
        self.pending = rest;
        if self.counting && self.pending.len() == 0 {
            self.lines_echoed = self.lines_echoed + 1;
            self.counting = false;
        }
        proof {
            assert(self.pending@ =~= before.pending@.skip(n as int));
            assert forall|later: Seq<u8>|
                #![trigger self.still_owed(later)]
                before.pending@.take(n as int) + self.still_owed(later) == before.still_owed(
                later,
            ) by {
                assert(before.pending@.take(n as int) + self.still_owed(later)
                    =~= before.still_owed(later));
            }
        }
    }

    /// Packs the session for the process that takes over.
    pub fn into_handoff(
        self,
        fd: i32,
        peer: String,
        trace_id: String,
        connected_at_unix_ms: u64,
    ) -> (h: SessionHandoff)
        ensures
            h.uds_fd == fd,
            h.transport == Transport::Uds,
            h.partial_line_bytes == self.received,
            h.pending_write_bytes == self.pending,
            h.lines_echoed == self.lines_echoed,
            h.connected_at_unix_ms == connected_at_unix_ms,
            h.peer == peer,
            h.ident is None,
            h.trace_id == trace_id,
            h.version == SCHEMA_VERSION,
    {
        SessionHandoff {
            uds_fd: fd,
            transport: Transport::Uds,
            partial_line_bytes: self.received,
            pending_write_bytes: self.pending,
            lines_echoed: self.lines_echoed,
            connected_at_unix_ms,
            peer,
            ident: None,
            trace_id,
            version: SCHEMA_VERSION,
        }
    }

    /// The session that goes on from `received` and `pending` of an earlier process.
    pub fn resume(received: Vec<u8>, pending: Vec<u8>, lines_echoed: u64) -> (s: Self)
        ensures
            s.received == received,
            s.pending == pending,
            s.lines_echoed == lines_echoed,
            !s.counting,
            !s.eof,
    {
        EchoSession { received, pending, lines_echoed, counting: false, eof: false }
    }
}

/// What the client of a handed-over session is still owed, where `later` is all that it still
/// sends.
pub open spec fn handoff_owes(h: SessionHandoff, later: Seq<u8>) -> Seq<u8> {
    h.pending_write_bytes@ + echo_of(h.partial_line_bytes@ + later)
}

/// A handover loses and repeats no byte: packed by one process and resumed by the next, a session
/// owes its client exactly what it owed before, whatever the client still sends.
pub proof fn handover_keeps_the_echo(
    before: EchoSession,
    h: SessionHandoff,
    after: EchoSession,
    later: Seq<u8>,
)
    requires
        h.partial_line_bytes == before.received,
        h.pending_write_bytes == before.pending,
        h.lines_echoed == before.lines_echoed,
        after.received == h.partial_line_bytes,
        after.pending == h.pending_write_bytes,
        after.lines_echoed == h.lines_echoed,
    ensures
        handoff_owes(h, later) == before.still_owed(later),
        after.still_owed(later) == before.still_owed(later),
        after.lines_echoed == before.lines_echoed,
{
}

/// What the client has received so far and what it is still owed make up the echo of everything
/// it sends, however the stream is cut into reads and writes: `sent` is what arrived, `written`
/// what went out, and one more event on the connection keeps the sum.
pub open spec fn on_course(
    s: EchoSession,
    sent: Seq<u8>,
    written: Seq<u8>,
    whole: Seq<u8>,
) -> bool {
    forall|later: Seq<u8>|
        #![trigger s.still_owed(later)]
        sent + later == whole ==> written + s.still_owed(later) == echo_of(whole)
}

/// A session starts on course.
pub proof fn fresh_session_is_on_course(s: EchoSession, whole: Seq<u8>)
    requires
        s.received@ == Seq::<u8>::empty(),
        s.pending@ == Seq::<u8>::empty(),
    ensures
        on_course(s, seq![], seq![], whole),
{
    assert forall|later: Seq<u8>|
        #![trigger s.still_owed(later)]
        Seq::<u8>::empty() + later == whole implies Seq::<u8>::empty() + s.still_owed(later)
        == echo_of(whole) by {
        assert(Seq::<u8>::empty() + later =~= later);
        assert(s.received@ + later =~= later);
        assert(Seq::<u8>::empty() + s.still_owed(later) =~= echo_of(later));
    }
}

/// Receiving keeps a session on course.
pub proof fn feeding_keeps_course(
    before: EchoSession,
    after: EchoSession,
    data: Seq<u8>,
    sent: Seq<u8>,
    written: Seq<u8>,
    whole: Seq<u8>,
)
    requires
        on_course(before, sent, written, whole),
        forall|later: Seq<u8>|
            #![trigger after.still_owed(later)]
            after.still_owed(later) == before.still_owed(data + later),
    ensures
        on_course(after, sent + data, written, whole),
{
    assert forall|later: Seq<u8>|
        #![trigger after.still_owed(later)]
        (sent + data) + later == whole implies written + after.still_owed(later) == echo_of(
        whole,
    ) by {
        assert(sent + (data + later) =~= (sent + data) + later);
        assert(after.still_owed(later) == before.still_owed(data + later));
    }
}

/// Writing keeps a session on course.
pub proof fn writing_keeps_course(
    before: EchoSession,
    after: EchoSession,
    out: Seq<u8>,
    sent: Seq<u8>,
    written: Seq<u8>,
    whole: Seq<u8>,
)
    requires
        on_course(before, sent, written, whole),
        forall|later: Seq<u8>|
            #![trigger after.still_owed(later)]
            out + after.still_owed(later) == before.still_owed(later),
    ensures
        on_course(after, sent, written + out, whole),
{
    assert forall|later: Seq<u8>|
        #![trigger after.still_owed(later)]
        sent + later == whole implies (written + out) + after.still_owed(later) == echo_of(
        whole,
    ) by {
        assert(out + after.still_owed(later) == before.still_owed(later));
        assert((written + out) + after.still_owed(later) =~= written + (out + after.still_owed(
            later,
        )));
    }
}

/// A session on course that owes nothing more has echoed the whole stream.
pub proof fn finished_session_echoed_everything(
    s: EchoSession,
    written: Seq<u8>,
    whole: Seq<u8>,
)
    requires
        on_course(s, whole, written, whole),
        s.still_owed(seq![]) == Seq::<u8>::empty(),
    ensures
        written == echo_of(whole),
{
    assert(whole + Seq::<u8>::empty() =~= whole);
    assert(written + s.still_owed(seq![]) =~= written);
}

/// A text without line breaks, no longer than a line may be.
pub open spec fn is_line_text(content: Seq<u8>) -> bool {
    &&& content.len() <= 65536
    &&& forall|j: int| 0 <= j < content.len() ==> content[j] != 10u8
    &&& content.len() > 0 ==> content.last() != 13u8
    &&& valid_utf8(content)
}

/// A line is sent back as it came, and what follows it is answered as if it stood alone.
pub proof fn line_is_echoed_as_it_came(content: Seq<u8>, rest: Seq<u8>)
    requires
        is_line_text(content),
    ensures
        echo_of(content.push(10u8) + rest) == content.push(10u8) + echo_of(rest),
{
    line_comes_off_whole(content, rest, MAX_LINE as nat);
}

/// A carriage return before the newline is not sent back.
pub proof fn carriage_return_is_not_echoed(content: Seq<u8>, rest: Seq<u8>)
    requires
        is_line_text(content),
        content.len() < 65536,
    ensures
        echo_of(content.push(13u8).push(10u8) + rest) == content.push(10u8) + echo_of(rest),
{
    line_with_carriage_return_comes_off_whole(content, rest, MAX_LINE as nat);
}

/// A last line that the client did not finish is answered like any other, once the client has
/// closed; an empty one is none.
pub proof fn unfinished_last_line_is_echoed(content: Seq<u8>)
    requires
        is_line_text(content),
    ensures
        content.len() > 0 ==> echo_of(content) == content.push(10u8),
        content.len() == 0 ==> echo_of(content) == Seq::<u8>::empty(),
{
    line_ends_at_its_newline(content, MAX_LINE as nat);
}

/// Lines, each with its newline.
pub open spec fn joined(lines: Seq<Seq<u8>>) -> Seq<u8>
    decreases lines.len(),
{
    if lines.len() == 0 {
        seq![]
    } else {
        lines[0].push(10u8) + joined(lines.skip(1))
    }
}

/// Any number of lines comes back as it was sent: every line, in order, with nothing in between.
pub proof fn every_line_is_echoed(lines: Seq<Seq<u8>>)
    requires
        forall|i: int| 0 <= i < lines.len() ==> is_line_text(#[trigger] lines[i]),
    ensures
        echo_of(joined(lines)) == joined(lines),
    decreases lines.len(),
{
    if lines.len() == 0 {
        unfinished_last_line_is_echoed(seq![]);
        assert(joined(lines) =~= seq![]);
    } else {
        let rest = lines.skip(1);
        assert forall|i: int| 0 <= i < rest.len() implies is_line_text(#[trigger] rest[i]) by {
            assert(rest[i] == lines[i + 1]);
        }
        every_line_is_echoed(rest);
        assert(is_line_text(lines[0]));
        line_is_echoed_as_it_came(lines[0], joined(rest));
    }
}

/// A stream that holds a line which is too long or no text is answered up to that line, and no
/// further.
pub proof fn unreadable_line_ends_the_echo(b: Seq<u8>)
    requires
        front(b, 65536) is TooLong || front(b, 65536) is NotText,
    ensures
        echo_of(b) == Seq::<u8>::empty(),
{
}

/// What a session owes is what is to be written, and then the echo of what it has received and is
/// still to receive.
pub proof fn debt_is_what_is_pending_and_what_is_received(s: EchoSession, later: Seq<u8>)
    ensures
        s.still_owed(later) == s.pending@ + echo_of(s.received@ + later),
        s.pending@.len() == 0 ==> s.still_owed(later) == echo_of(s.received@ + later),
{
    if s.pending@.len() == 0 {
        assert(s.still_owed(later) =~= echo_of(s.received@ + later));
    }
}

} // verus!

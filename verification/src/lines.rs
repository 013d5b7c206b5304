//! Line framing: how a byte stream falls into newline-terminated lines.

use tokio_util::bytes::BytesMut;
use tokio_util::codec::{Decoder, LinesCodec, LinesCodecError};
use vstd::prelude::*;
use vstd::utf8::{encode_utf8, valid_utf8};

verus! {

/// Longest line that a session, a preamble or a control message may hold.
pub const MAX_LINE: usize = 65536;

/// Longest line that a spawn request or a scan request may hold.
pub const MAX_REQUEST_LINE: usize = 8192;

pub const NEWLINE: u8 = 10;

pub const CARRIAGE_RETURN: u8 = 13;

/// `k` is where the first newline of `b` stands.
pub open spec fn is_first_newline(b: Seq<u8>, k: int) -> bool {
    &&& 0 <= k < b.len()
    &&& b[k] == NEWLINE
    &&& forall|j: int| 0 <= j < k ==> b[j] != NEWLINE
}

/// Some line of at most `max` bytes ends in `b`.
pub open spec fn has_line(b: Seq<u8>, max: nat) -> bool {
    exists|k: int| #[trigger] is_first_newline(b, k) && k <= max
}

/// Where the first newline of `b` stands, if there is one.
pub open spec fn first_newline(b: Seq<u8>) -> int {
    choose|k: int| is_first_newline(b, k)
}

/// `b` without the carriage return that it may end in.
pub open spec fn without_carriage_return(b: Seq<u8>) -> Seq<u8> {
    if b.len() > 0 && b.last() == CARRIAGE_RETURN {
        b.drop_last()
    } else {
        b
    }
}

/// What stands at the front of a buffer.
pub enum Front {
    /// A whole line: its bytes without the line ending, and how many bytes it takes up.
    Line(Seq<u8>, int),
    /// A whole line that is not UTF-8.
    NotText,
    /// More than the longest line, and no line ending.
    TooLong,
    /// The beginning of a line.
    Partial,
}

/// What stands at the front of `b`, where lines hold at most `max` bytes.
pub open spec fn front(b: Seq<u8>, max: nat) -> Front {
    if has_line(b, max) {
        let k = first_newline(b);
        let content = without_carriage_return(b.take(k));
        if valid_utf8(content) {
            Front::Line(content, k + 1)
        } else {
            Front::NotText
        }
    } else if b.len() > max {
        Front::TooLong
    } else {
        Front::Partial
    }
}

/// Why a stream cannot be split any further.
#[derive(Clone, Copy, Debug, PartialEq, Eq, Structural)]
pub enum LineError {
    TooLong,
    NotText,
}

/// `LinesCodec::decode` on a codec that has seen nothing yet: takes the first line off the buffer
/// where one of at most `max` bytes ends there. Hands out the line and the number of bytes that
/// stay behind it.
#[verifier::external_body]
fn decode_line(buf: &[u8], max: usize) -> (r: Result<Option<(String, usize)>, LineError>)
    ensures
        match r {
            Ok(Some((line, left))) => match front(buf@, max as nat) {
                Front::Line(content, used) => encode_utf8(line@) == content && left == buf@.len()
                    - used,
                _ => false,
            },
            Ok(None) => front(buf@, max as nat) is Partial,
            Err(LineError::TooLong) => front(buf@, max as nat) is TooLong,
            Err(LineError::NotText) => front(buf@, max as nat) is NotText,
        },
{
    let mut bytes = BytesMut::from(buf);
    match LinesCodec::new_with_max_length(max).decode(&mut bytes) {
        Ok(Some(line)) => Ok(Some((line, bytes.len()))),
        Ok(None) => Ok(None),
        Err(LinesCodecError::MaxLineLengthExceeded) => Err(LineError::TooLong),
        Err(LinesCodecError::Io(_)) => Err(LineError::NotText),
    }
}

/// `LinesCodec::decode_eof` on a codec that has seen nothing yet, for a buffer with no whole line
/// in it: what is left of the stream is its last line, unless it is empty or a lone carriage
/// return.
#[verifier::external_body]
fn decode_tail(buf: &[u8], max: usize) -> (r: Result<Option<String>, LineError>)
    requires
        front(buf@, max as nat) is Partial,
    ensures
        match r {
            Ok(Some(line)) => !is_empty_tail(buf@) && encode_utf8(line@) == without_carriage_return(
                buf@,
            ),
            Ok(None) => is_empty_tail(buf@),
            Err(e) => !is_empty_tail(buf@) && !valid_utf8(without_carriage_return(buf@)) && e
                == LineError::NotText,
        },
{
    let mut bytes = BytesMut::from(buf);
    match LinesCodec::new_with_max_length(max).decode_eof(&mut bytes) {
        Ok(line) => Ok(line),
        Err(LinesCodecError::MaxLineLengthExceeded) => Err(LineError::TooLong),
        Err(LinesCodecError::Io(_)) => Err(LineError::NotText),
    }
}

/// A stream that ends here ends in no further line.
pub open spec fn is_empty_tail(b: Seq<u8>) -> bool {
    b.len() == 0 || b == seq![CARRIAGE_RETURN]
}

/// What the next line of a stream is, given what was received and whether that is all.
pub enum NextLine {
    Line(String),
    /// Nothing can be said before more is received.
    NeedMore,
    /// The stream has ended and holds no further line.
    End,
    Broken(LineError),
}

/// Takes the next line off the front of `buf`. With `eof`, the stream ends at the end of `buf`,
/// and an unfinished last line counts as a line.
pub fn take_line(buf: &mut Vec<u8>, eof: bool, max: usize) -> (r: NextLine)
    ensures
        ({
            let b = old(buf)@;
            match front(b, max as nat) {
                Front::Line(content, used) => {
                    &&& r matches NextLine::Line(line) && encode_utf8(line@) == content
                    &&& final(buf)@ == b.skip(used)
                },
                Front::NotText => r == NextLine::Broken(LineError::NotText) && *final(buf) == *old(buf),
                Front::TooLong => r == NextLine::Broken(LineError::TooLong) && *final(buf) == *old(buf),
                Front::Partial => if !eof {
                    r == NextLine::NeedMore && *final(buf) == *old(buf)
                } else if is_empty_tail(b) {
                    r == NextLine::End && *final(buf) == *old(buf)
                } else if valid_utf8(without_carriage_return(b)) {
                    &&& r matches NextLine::Line(line) && encode_utf8(line@)
                        == without_carriage_return(b)
                    &&& final(buf)@ == Seq::<u8>::empty()
                } else {
                    r == NextLine::Broken(LineError::NotText) && *final(buf) == *old(buf)
                },
            }
        }),
{
    broadcast use vstd::utf8::group_utf8_lib;

    proof {
        lemma_first_newline(buf@, max as nat);
    }
    match decode_line(buf.as_slice(), max) {
        Ok(Some((line, left))) => {
            let used: usize = buf.len() - left;
            let rest = buf.split_off(used);
            *buf = rest;
            NextLine::Line(line)
        },
        Ok(None) => if eof {
            match decode_tail(buf.as_slice(), max) {
                Ok(Some(line)) => {
                    buf.clear();
                    NextLine::Line(line)
                },
                Ok(None) => NextLine::End,
                Err(e) => NextLine::Broken(e),
            }
        } else {
            NextLine::NeedMore
        },
        Err(e) => NextLine::Broken(e),
    }
}

/// There is only one first newline.
pub proof fn lemma_first_newline(b: Seq<u8>, max: nat)
    ensures
        has_line(b, max) ==> is_first_newline(b, first_newline(b)) && first_newline(b) <= max,
{
    if has_line(b, max) {
        let k = choose|k: int| #[trigger] is_first_newline(b, k) && k <= max;
        let f = first_newline(b);
        assert(is_first_newline(b, f));
        if f < k {
            assert(b[f] != NEWLINE);
        } else if k < f {
            assert(b[k] != NEWLINE);
        }
    }
}

/// What stands at the front does not depend on what is received later, once it is more than the
/// beginning of a line.
pub proof fn front_is_stable(b: Seq<u8>, later: Seq<u8>, max: nat)
    requires
        !(front(b, max) is Partial),
    ensures
        front(b + later, max) == front(b, max),
{
    lemma_first_newline(b, max);
    lemma_first_newline(b + later, max);
    if has_line(b, max) {
        let k = first_newline(b);
        assert(is_first_newline(b + later, k));
        assert(has_line(b + later, max));
        let f = first_newline(b + later);
        if f < k {
            assert((b + later)[f] == b[f]);
        } else if k < f {
            assert((b + later)[k] == b[k]);
        }
        assert(f == k);
        assert((b + later).take(k) =~= b.take(k));
    } else {
        assert(b.len() > max);
        if has_line(b + later, max) {
            let f = first_newline(b + later);
            assert(is_first_newline(b, f)) by {
                assert forall|j: int| 0 <= j < f implies b[j] != NEWLINE by {
                    assert((b + later)[j] == b[j]);
                }
                assert((b + later)[f] == b[f]);
            }
            assert(has_line(b, max));
        }
    }
}

/// A line and whatever follows it in the same buffer come apart at the line's end.
pub proof fn line_comes_off_whole(content: Seq<u8>, rest: Seq<u8>, max: nat)
    requires
        forall|j: int| 0 <= j < content.len() ==> content[j] != NEWLINE,
        content.len() <= max,
        content.len() > 0 ==> content.last() != CARRIAGE_RETURN,
        valid_utf8(content),
    ensures
        front(content.push(NEWLINE) + rest, max) == Front::Line(content, content.len() as int + 1),
        (content.push(NEWLINE) + rest).skip(content.len() as int + 1) == rest,
{
    let b = content.push(NEWLINE) + rest;
    let k = content.len() as int;
    assert(is_first_newline(b, k));
    assert(has_line(b, max));
    lemma_first_newline(b, max);
    let f = first_newline(b);
    if f < k {
        assert(b[f] == content[f]);
    } else if f > k {
        assert(b[k] == NEWLINE);
    }
    assert(b.take(k) =~= content);
    assert(b.skip(k + 1) =~= rest);
}

/// `b` holds no newline before `end`.
pub open spec fn no_newline_before(b: Seq<u8>, end: int) -> bool {
    forall|j: int| 0 <= j < end && j < b.len() ==> b[j] != 10u8
}

/// A buffer begins with a whole line exactly where a newline stands within the longest line; one
/// without is the beginning of a line as long as it is not longer than the longest, and too long
/// from then on.
pub proof fn line_ends_at_its_newline(b: Seq<u8>, max: nat)
    ensures
        front(b, max) is Partial <==> b.len() <= max && no_newline_before(b, b.len() as int),
        front(b, max) is TooLong <==> b.len() > max && no_newline_before(b, max as int + 1),
        front(b, max) matches Front::Line(content, used) ==> 0 < used <= b.len() && b[used - 1]
            == 10u8 && no_newline_before(b, used - 1) && used <= max + 1 && (content == b.take(
            used - 1,
        ) || content.push(13u8) == b.take(used - 1)),
{
    lemma_first_newline(b, max);
    if has_line(b, max) {
        let k = first_newline(b);
        assert(b[k] == 10u8);
        assert(!no_newline_before(b, b.len() as int));
        assert(!no_newline_before(b, max as int + 1));
        if b.take(k).len() > 0 && b.take(k).last() == CARRIAGE_RETURN {
            assert(b.take(k).drop_last().push(13u8) =~= b.take(k));
        }
    } else {
        if b.len() <= max && !no_newline_before(b, b.len() as int) {
            let j = choose|j: int| 0 <= j < b.len() && b[j] == 10u8;
            lemma_some_first_newline(b, j);
        }
        if b.len() > max && !no_newline_before(b, max as int + 1) {
            let j = choose|j: int| 0 <= j < max + 1 && j < b.len() && b[j] == 10u8;
            lemma_some_first_newline(b, j);
        }
    }
}

proof fn lemma_some_first_newline(b: Seq<u8>, j: int)
    requires
        0 <= j < b.len(),
        b[j] == NEWLINE,
    ensures
        exists|k: int| #[trigger] is_first_newline(b, k) && k <= j,
    decreases j,
{
    if forall|i: int| 0 <= i < j ==> b[i] != NEWLINE {
        assert(is_first_newline(b, j));
    } else {
        let i = choose|i: int| 0 <= i < j && b[i] == NEWLINE;
        lemma_some_first_newline(b, i);
    }
}

/// A line that ends in a carriage return and a newline comes off without either.
pub proof fn line_with_carriage_return_comes_off_whole(content: Seq<u8>, rest: Seq<u8>, max: nat)
    requires
        forall|j: int| 0 <= j < content.len() ==> content[j] != NEWLINE,
        content.len() < max,
        valid_utf8(content),
    ensures
        front(content.push(13u8).push(10u8) + rest, max) == Front::Line(
            content,
            content.len() as int + 2,
        ),
        (content.push(13u8).push(10u8) + rest).skip(content.len() as int + 2) == rest,
{
    let b = content.push(13u8).push(10u8) + rest;
    let k = content.len() as int + 1;
    assert(is_first_newline(b, k));
    assert(has_line(b, max));
    lemma_first_newline(b, max);
    let f = first_newline(b);
    if f < k {
        assert(b[f] == content.push(13u8)[f]);
    } else if f > k {
        assert(b[k] == NEWLINE);
    }
    assert(b.take(k) =~= content.push(13u8));
    assert(content.push(13u8).drop_last() =~= content);
    assert(b.skip(k + 1) =~= rest);
}

/// Of what is left when a stream ends, nothing and a lone carriage return are no line; one more
/// byte of any kind makes it one.
pub proof fn only_nothing_is_no_last_line(b: Seq<u8>, c: u8)
    ensures
        is_empty_tail(Seq::<u8>::empty()),
        is_empty_tail(seq![c]) <==> c == 0x0d,
        b.len() > 0 ==> !is_empty_tail(b.push(c)),
{
    assert(seq![c][0] == c);
    if c == 0x0d {
        assert(seq![c] =~= seq![CARRIAGE_RETURN]);
    }
    assert(seq![CARRIAGE_RETURN][0] == CARRIAGE_RETURN);
    assert(seq![CARRIAGE_RETURN].len() == 1);
}

} // verus!

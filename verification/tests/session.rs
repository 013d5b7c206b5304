//! The line echo itself.

use echod::lines::{take_line, LineError, NextLine, MAX_LINE};
use echod::session::{EchoSession, SessionStep};

/// Runs a session over the given reads, writing at most `chunk` bytes at a time.
fn echo(reads: &[&[u8]], chunk: usize) -> (Vec<u8>, u64) {
    let mut session = EchoSession::open(Vec::new());
    let mut out = Vec::new();
    let mut next = 0;
    loop {
        match session.step() {
            SessionStep::Write => {
                let n = chunk.min(session.pending.len());
                out.extend_from_slice(&session.pending[..n]);
                session.wrote(n);
            }
            SessionStep::Read => {
                let data: &[u8] = if next < reads.len() { reads[next] } else { &[] };
                next += 1;
                session.feed(data);
            }
            SessionStep::Close => return (out, session.lines_echoed),
        }
    }
}

#[test]
fn every_line_comes_back() {
    assert_eq!(echo(&[b"one\ntwo\n"], 1024), (b"one\ntwo\n".to_vec(), 2));
}

#[test]
fn cuts_do_not_matter() {
    let whole = echo(&[b"one\ntwo\nthree\n"], 1024);
    assert_eq!(echo(&[b"o", b"ne\ntw", b"o\nthree", b"\n"], 1), whole);
}

#[test]
fn carriage_return_is_dropped_and_a_last_line_counts() {
    assert_eq!(echo(&[b"a\r\nb"], 1024), (b"a\nb\n".to_vec(), 2));
    assert_eq!(echo(&[b"a\n\r"], 1024), (b"a\n".to_vec(), 1));
    assert_eq!(echo(&[], 1024), (Vec::new(), 0));
}

#[test]
fn broken_stream_ends_the_session() {
    assert_eq!(echo(&[b"ok\n\xff\xfe\nmore\n"], 1024), (b"ok\n".to_vec(), 1));
    let long = vec![b'x'; MAX_LINE + 1];
    assert_eq!(echo(&[b"ok\n", &long], 1024), (b"ok\n".to_vec(), 1));
}

#[test]
fn longest_line_is_echoed() {
    let mut line = vec![b'x'; MAX_LINE];
    line.push(b'\n');
    assert_eq!(echo(&[&line], 4096), (line.clone(), 1));
}

#[test]
fn handover_continues_in_the_middle() {
    let mut old = EchoSession::open(Vec::new());
    old.feed(b"first\nsecond\nthi");
    assert_eq!(old.step(), SessionStep::Write);
    old.wrote(2);
    let mut out = b"fi".to_vec();
    let h = old.into_handoff(7, "peer".into(), "trace".into(), 5);
    assert_eq!((h.uds_fd, h.version, h.lines_echoed), (7, 1, 0));
    assert_eq!(h.pending_write_bytes, b"rst\n");
    assert_eq!(h.partial_line_bytes, b"second\nthi");

    let mut new =
        EchoSession::resume(h.partial_line_bytes, h.pending_write_bytes, h.lines_echoed);
    let mut fed = false;
    loop {
        match new.step() {
            SessionStep::Write => {
                out.extend_from_slice(&new.pending);
                let n = new.pending.len();
                new.wrote(n);
            }
            SessionStep::Read => {
                let data: &[u8] = if fed { b"" } else { b"rd\n" };
                fed = true;
                new.feed(data);
            }
            SessionStep::Close => break,
        }
    }
    assert_eq!(out, b"first\nsecond\nthird\n");
}

#[test]
fn lines_come_off_the_front() {
    let mut buf = b"a\nb".to_vec();
    assert!(matches!(take_line(&mut buf, false, 10), NextLine::Line(l) if l == "a"));
    assert!(matches!(take_line(&mut buf, false, 10), NextLine::NeedMore));
    assert!(matches!(take_line(&mut buf, true, 10), NextLine::Line(l) if l == "b"));
    assert!(matches!(take_line(&mut buf, true, 10), NextLine::End));
    let mut long = b"abcdef\n".to_vec();
    assert!(matches!(take_line(&mut long, false, 3), NextLine::Broken(LineError::TooLong)));
    let mut bad = b"\xc3\n".to_vec();
    assert!(matches!(take_line(&mut bad, false, 3), NextLine::Broken(LineError::NotText)));
    let mut text = "gr\u{fc}n\r\n".as_bytes().to_vec();
    assert!(matches!(take_line(&mut text, false, 10), NextLine::Line(l) if l == "gr\u{fc}n"));
}

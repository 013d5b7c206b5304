//! What every worker does at startup: dialling with retries, and acquiring its listener.

use vstd::prelude::*;

use crate::fault_inject::{ErrorKind, Failure, InjectedFault, IoError};
use crate::handoff::ENV_LISTENER_FD;
use crate::text::{
    decimal, from_utf8_lossy, has_prefix, lossy_text, parse_fd, parse_i32, push_decimal,
    starts_with, trim, trimmed_text,
};

verus! {

/// What a worker asks the supervisor for.
#[derive(Debug)]
pub struct SpawnRequest {
    pub role: String,
}

/// How often a socket is dialled before it is given up.
pub const DIAL_ATTEMPTS: u32 = 50;

/// The wait after the attempt with this number failed, in milliseconds; nothing when it was the
/// last. The first few come quickly, since the other side may just be starting.
pub fn dial_delay_ms(attempt: u32) -> (r: Option<u64>)
    ensures
        r == (if attempt >= DIAL_ATTEMPTS {
            None
        } else if attempt < 5 {
            Some(100u64)
        } else {
            Some(300u64)
        }),
{
    if attempt >= DIAL_ATTEMPTS {
        None
    } else if attempt < 5 {
        Some(100)
    } else {
        Some(300)
    }
}

/// The listener that was handed over in the environment, if one was. A value that is no
/// descriptor number is an error, reported under the variable's name.
pub fn inherited_listener(value: Option<&str>) -> (r: Result<Option<i32>, Failure>)
    ensures
        match value {
            None => r == Ok::<Option<i32>, Failure>(None),
            Some(v) => match parse_fd(v@) {
                Some(fd) => r == Ok::<Option<i32>, Failure>(Some(fd)),
                None => r is Err && r->Err_0.shown() == ENV_LISTENER_FD@,
            },
        },
{
    match value {
        None => Ok(None),
        Some(v) => match parse_i32(v) {
            Some(fd) => Ok(Some(fd)),
            None => Err(Failure::new("invalid descriptor number").context(ENV_LISTENER_FD)),
        },
    }
}

/// How a worker comes by its listener.
#[derive(Clone, Copy, Debug, PartialEq, Eq, Structural)]
pub enum Acquisition {
    /// It was in the environment.
    Inherited(i32),
    /// The supervisor sent it.
    Received(i32),
    /// Neither: it is bound anew.
    Bind,
}

/// The order in which a worker looks for its listener. The supervisor is asked only where the
/// environment has none; `received` is its answer.
pub fn acquire_listener(inherited: Option<i32>, received: Option<i32>) -> (a: Acquisition)
    ensures
        a == (match inherited {
            Some(fd) => Acquisition::Inherited(fd),
            None => match received {
                Some(fd) => Acquisition::Received(fd),
                None => Acquisition::Bind,
            },
        }),
{
    match inherited {
        Some(fd) => Acquisition::Inherited(fd),
        None => match received {
            Some(fd) => Acquisition::Received(fd),
            None => Acquisition::Bind,
        },
    }
}

/// Judges the text that came with a listener; `trimmed` is the text without the white space
/// around it.
pub fn judge_reply_text(text: &str, trimmed: &str) -> (r: Result<(), Failure>)
    ensures
        r is Ok <==> starts_with(text@, "ok"@),
        r is Err ==> r->Err_0.shown() == "spawner replied: "@ + trimmed@,
{
    if has_prefix(text, "ok") {
        Ok(())
    } else {
        let mut s = "spawner replied: ".to_owned();
        s.append(trimmed);
        Err(Failure::new(s.as_str()))
    }
}

/// Judges the bytes that came with a listener.
pub fn judge_spawner_reply(payload: &Vec<u8>) -> (r: Result<(), Failure>)
    ensures
        r is Ok <==> starts_with(lossy_text(payload@), "ok"@),
        r is Err ==> r->Err_0.shown() == "spawner replied: "@ + trimmed_text(
            lossy_text(payload@),
        ),
{
    let text = from_utf8_lossy(payload);
    let trimmed = trim(text.as_str());
    judge_reply_text(text.as_str(), trimmed.as_str())
}

/// The message for a descriptor that went out with only part of its text.
pub open spec fn short_send_text(sent: usize, len: usize) -> Seq<char> {
    "short SCM_RIGHTS send: sent "@ + decimal(sent as nat) + " of "@ + decimal(len as nat)
        + " payload bytes"@
}

/// Judges a message with a descriptor that was sent: all of its `len` bytes must have gone out.
pub fn judge_sent(sent: usize, len: usize) -> (r: Result<(), IoError>)
    ensures
        r is Ok <==> sent == len,
        r is Err ==> r->Err_0.kind == ErrorKind::WriteZero && r->Err_0.message@
            == short_send_text(sent, len),
{
    if sent == len {
        return Ok(());
    }
    let mut s = "short SCM_RIGHTS send: sent ".to_owned();
    push_decimal(&mut s, sent as u64);
    s.append(" of ");
    push_decimal(&mut s, len as u64);
    s.append(" payload bytes");
    Err(IoError { kind: ErrorKind::WriteZero, message: s })
}

/// Judges a message that was received: it must not be empty, and must bring a descriptor. An
/// injected fault comes first.
pub fn judge_received(fault: Option<InjectedFault>, bytes: usize, fd: Option<i32>) -> (r: Result<
    i32,
    IoError,
>)
    requires
        fault is Some ==> !(fault->0 is Panic),
    ensures
        match fault {
            Some(f) => {
                &&& r is Err
                &&& r->Err_0.kind == f.error_kind()
                &&& r->Err_0.message@ == f.error_message()
            },
            None => if bytes == 0 {
                r is Err && r->Err_0.kind == ErrorKind::UnexpectedEof && r->Err_0.message@
                    == "spawner closed before sending FD"@
            } else {
                match fd {
                    Some(n) => r == Ok::<i32, IoError>(n),
                    None => r is Err && r->Err_0.kind == ErrorKind::InvalidData
                        && r->Err_0.message@ == "spawner reply missing SCM_RIGHTS attachment"@,
                }
            },
        },
{
    if let Some(f) = fault {
        return Err(f.into_io_error());
    }
    if bytes == 0 {
        return Err(
            IoError {
                kind: ErrorKind::UnexpectedEof,
                message: "spawner closed before sending FD".to_owned(),
            },
        );
    }
    match fd {
        Some(n) => Ok(n),
        None => Err(
            IoError {
                kind: ErrorKind::InvalidData,
                message: "spawner reply missing SCM_RIGHTS attachment".to_owned(),
            },
        ),
    }
}

} // verus!

//! The messages that the daemon's processes exchange, and the versioned envelope around them.

use vstd::prelude::*;

use crate::fault_inject::{Failure, InjectedFault};
use crate::schema::{
    is_schema_compatible, schema_compatible, MIN_COMPATIBLE_VERSION, SCHEMA_VERSION,
};
use crate::text::{decimal, push_decimal};

verus! {

/// A message with the version of the schema that it follows.
#[derive(Debug)]
pub struct Envelope<T> {
    pub version: u32,
    pub msg: T,
}

/// `msg` under the current schema version.
pub open spec fn stamped<T>(msg: T) -> Envelope<T> {
    Envelope { version: SCHEMA_VERSION, msg }
}

/// The message of an envelope whose version is understood.
pub open spec fn understood_msg<T>(e: Envelope<T>) -> Option<T> {
    if schema_compatible(e.version) {
        Some(e.msg)
    } else {
        None
    }
}

/// A frame that carries `json`.
pub open spec fn frame_of(json: Seq<char>) -> Seq<char> {
    json.push('\n')
}

/// What the refusal of version `v` says.
pub open spec fn version_refusal(v: u32) -> Seq<char> {
    "incompatible schema version "@ + decimal(v as nat) + " (supported: "@ + decimal(
        MIN_COMPATIBLE_VERSION as nat,
    ) + "..="@ + decimal(SCHEMA_VERSION as nat) + ")"@
}

impl<T> Envelope<T> {
    /// Puts `msg` under the current schema version.
    pub fn stamp(msg: T) -> (e: Self)
        ensures
            e == stamped(msg),
    {
        Envelope { version: SCHEMA_VERSION, msg }
    }

    /// Hands out the message exactly when its version is understood.
    pub fn into_msg(self) -> (r: Result<T, Failure>)
        ensures
            match r {
                Ok(msg) => understood_msg(self) == Some(msg),
                Err(e) => understood_msg(self) is None && e.contexts@.len() == 0 && e.message@
                    == version_refusal(self.version),
            },
    {
        if is_schema_compatible(self.version) {
            Ok(self.msg)
        } else {
            let mut text = "incompatible schema version ".to_owned();
            push_decimal(&mut text, self.version as u64);
            text.append(" (supported: ");
            push_decimal(&mut text, MIN_COMPATIBLE_VERSION as u64);
            text.append("..=");
            push_decimal(&mut text, SCHEMA_VERSION as u64);
            text.append(")");
            Err(Failure { message: text, contexts: Vec::new() })
        }
    }

    /// Like `into_msg`, after a fault injected at the version check: a fault refuses every
    /// message.
    pub fn into_msg_unless(self, fault: Option<InjectedFault>) -> (r: Result<T, Failure>)
        requires
            fault is Some ==> !(fault->0 is Panic),
        ensures
            match r {
                Ok(msg) => fault is None && understood_msg(self) == Some(msg),
                Err(e) => if fault is Some {
                    &&& e.message@ == fault->0.error_message()
                    &&& e.shown() == "synthetic: forced schema version incompatibility"@
                } else {
                    &&& understood_msg(self) is None
                    &&& e.message@ == version_refusal(self.version)
                    &&& e.shown() == version_refusal(self.version)
                },
            },
    {
        match fault {
            Some(f) => Err(
                f.into_anyhow().context("synthetic: forced schema version incompatibility"),
            ),
            None => self.into_msg(),
        }
    }
}

/// One line-delimited frame: the serialised message and a newline.
pub fn envelope_line(json: String) -> (line: String)
    ensures
        line@ == frame_of(json@),
{
    let mut line = json;
    line.push('\n');
    line
}

/// Supervisor to worker, and command line to the supervisor's admin socket.
#[derive(Debug)]
pub enum ControlMsg {
    Shutdown { grace_ms: u64 },
    Upgrade {
        binary_path: Option<String>,
        /// Walk the TLS acceptor too. Workers ignore it.
        include_tls: bool,
        /// Watch each upgraded role for this many seconds. Workers ignore it.
        canary_secs: Option<u64>,
        /// Upgrade this worker alone. Workers ignore it.
        only_role: Option<String>,
    },
    Status,
    /// Stop accepting connections; keep the sessions that are open.
    Drain,
    /// Read the configuration again.
    Reload,
}

/// Worker to supervisor.
#[derive(Debug)]
pub enum WorkerMsg {
    StatusReport(WorkerStatus),
}

#[derive(Debug)]
pub struct WorkerStatus {
    pub role: String,
    pub pid: u32,
    pub generation: u64,
    pub started_at_unix_ms: u64,
    pub in_flight: u64,
    pub listener_addr: Option<String>,
    pub rate_limiter_stats: Option<RateLimiterStats>,
}

impl Clone for WorkerStatus {
    fn clone(&self) -> (r: Self)
        ensures
            r == *self,
    {
        let listener_addr = match &self.listener_addr {
            Some(a) => Some(a.clone()),
            None => None,
        };
        WorkerStatus {
            role: self.role.clone(),
            pid: self.pid,
            generation: self.generation,
            started_at_unix_ms: self.started_at_unix_ms,
            in_flight: self.in_flight,
            listener_addr,
            rate_limiter_stats: self.rate_limiter_stats,
        }
    }
}

#[derive(Clone, Copy, Debug, PartialEq, Eq, Structural)]
pub struct RateLimiterStats {
    pub tracked_ips: usize,
    pub idle_evictions: u64,
    pub lru_evictions: u64,
    pub cap_refused: u64,
}

/// First line that anyone writes who dials the processor.
#[derive(Debug)]
pub enum ProcessorPreamble {
    /// The rest of the connection is a line-echo session.
    Session { peer: String, role: String, trace_id: String },
    /// The following lines are session metadata from the scanner.
    Sidecar,
}

/// One scan result, from the scanner to the processor.
#[derive(Debug)]
pub struct SessionMetadata {
    pub peer: String,
    pub ident: Option<String>,
    pub trace_id: String,
}

impl Clone for SessionMetadata {
    fn clone(&self) -> (r: Self)
        ensures
            r == *self,
    {
        let ident = match &self.ident {
            Some(i) => Some(i.clone()),
            None => None,
        };
        SessionMetadata { peer: self.peer.clone(), ident, trace_id: self.trace_id.clone() }
    }
}

/// The supervisor's view of a worker role, from how often it has crashed of late.
#[derive(Clone, Copy, Debug, PartialEq, Eq, Structural)]
pub enum HealthState {
    Healthy,
    Backoff,
    Flapping,
    Failed,
}

#[derive(Debug)]
pub struct RoleHealth {
    pub role: String,
    pub state: HealthState,
    pub consecutive_fast_exits: u32,
    pub next_backoff_ms: u64,
    pub total_restarts: u64,
    pub last_restart_at_unix_ms: Option<u64>,
}

/// What a forked TLS drainer reports to the supervisor.
#[derive(Debug)]
pub enum DrainerEvent {
    Hello { role: String, pid: u32, generation: u64, session_count: usize },
    SessionDone { peer: String, outcome: SessionOutcome },
    /// Every session ended by itself.
    Complete,
    /// The drain deadline passed with sessions still open.
    DeadlineExit { remaining: usize },
}

#[derive(Debug)]
pub enum SessionOutcome {
    CleanEof,
    Error { message: String },
}

/// Supervisor's admin socket to the command line.
#[allow(inconsistent_fields)]
#[derive(Debug)]
pub enum AdminResp {
    Okay,
    Status { workers: Vec<WorkerStatus>, health: Vec<RoleHealth> },
    Error { message: String },
    /// Progress of one worker during a rolling upgrade.
    UpgradeStep {
        worker: String,
        phase: UpgradePhase,
        generation_before: Option<u64>,
        generation_after: Option<u64>,
        ok: bool,
        message: Option<String>,
    },
    /// Last frame of a rolling upgrade.
    UpgradeComplete { all_ok: bool },
}

#[derive(Clone, Copy, Debug, PartialEq, Eq, Structural)]
pub enum UpgradePhase {
    Starting,
    Done,
    Timeout,
    Skipped,
    /// The role got worse while it was watched; the rest of the walk was given up.
    CanaryAborted,
}

// Laws
/// A message that this build stamped is understood by it, and is the same message.
pub proof fn stamped_message_comes_back<T>(msg: T)
    ensures
        stamped(msg).version == SCHEMA_VERSION,
        understood_msg(stamped(msg)) == Some(msg),
{
}

/// A frame ends with its only line break, and what stands before it is what was framed.
pub proof fn frame_is_one_line(json: Seq<char>)
    requires
        !json.contains('\n'),
    ensures
        frame_of(json).last() == '\n',
        frame_of(json).drop_last() == json,
        forall|i: int|
            0 <= i < frame_of(json).len() - 1 ==> #[trigger] frame_of(json)[i] != '\n',
{
    assert(frame_of(json).drop_last() =~= json);
    assert forall|i: int| 0 <= i < frame_of(json).len() - 1 implies #[trigger] frame_of(json)[i]
        != '\n' by {
        assert(json[i] == frame_of(json)[i]);
    }
}

/// A message of a version between the oldest that is understood and the current one is handed out
/// as it came; of any other version nothing is.
pub proof fn only_understood_versions_are_read<T>(version: u32, msg: T)
    ensures
        MIN_COMPATIBLE_VERSION <= version <= SCHEMA_VERSION ==> understood_msg(
            Envelope { version, msg },
        ) == Some(msg),
        version < MIN_COMPATIBLE_VERSION || version > SCHEMA_VERSION ==> understood_msg(
            Envelope { version, msg },
        ) is None,
{
}

} // verus!

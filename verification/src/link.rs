//! The supervisor's end of a worker's control connection.

use vstd::prelude::*;

use crate::control::ControlMsg;

verus! {

/// The control link of one role. `W` writes to the connection that is current; `Q` is where the
/// answer to a pending status query goes.
pub struct WorkerLink<W, Q> {
    pub writer: Option<W>,
    pub pending_status: Option<Q>,
    /// Generation in the latest status report.
    pub last_generation: Option<u64>,
    /// Process id in the latest status report.
    pub last_pid: Option<u32>,
    /// Number of the connection that is current. Every connection gets the next one.
    pub conn_epoch: u64,
}

/// The link after a new connection took over.
pub open spec fn connected<W, Q>(l: WorkerLink<W, Q>, writer: W) -> WorkerLink<W, Q> {
    WorkerLink { writer: Some(writer), conn_epoch: l.conn_epoch.wrapping_add(1), ..l }
}

/// The link after a status report.
pub open spec fn reported<W, Q>(l: WorkerLink<W, Q>, generation: u64, pid: u32) -> WorkerLink<
    W,
    Q,
> {
    WorkerLink {
        last_generation: Some(generation),
        last_pid: Some(pid),
        pending_status: None,
        ..l
    }
}

/// The link after connection number `epoch` ended: only the current connection takes its state
/// with it.
pub open spec fn disconnected<W, Q>(l: WorkerLink<W, Q>, epoch: u64) -> WorkerLink<W, Q> {
    if l.conn_epoch == epoch {
        WorkerLink { writer: None, last_generation: None, last_pid: None, ..l }
    } else {
        l
    }
}

/// The message is the last one on its connection: after a shutdown or an upgrade the worker goes.
pub open spec fn is_last(msg: ControlMsg) -> bool {
    msg is Shutdown || msg is Upgrade
}

/// The link after a message was sent: a last message takes the writer and a pending query along,
/// any other leaves everything in place.
pub open spec fn after_send<W, Q>(l: WorkerLink<W, Q>, msg: ControlMsg) -> WorkerLink<W, Q> {
    if is_last(msg) {
        WorkerLink { writer: None, pending_status: None, ..l }
    } else {
        l
    }
}

/// How a message goes out.
pub enum Route<W> {
    /// There is no connection.
    NoConnection,
    /// By the link's writer, which stays in place.
    Stays,
    /// By this writer, which is closed afterwards.
    Last(W),
}

/// How `msg` goes out.
pub open spec fn route_of<W, Q>(l: WorkerLink<W, Q>, msg: ControlMsg) -> Route<W> {
    match l.writer {
        None => Route::NoConnection,
        Some(writer) => if is_last(msg) {
            Route::Last(writer)
        } else {
            Route::Stays
        },
    }
}

/// Whether the message is the last one on its connection.
pub fn ends_connection(msg: &ControlMsg) -> (r: bool)
    ensures
        r == is_last(*msg),
{
    match msg {
        ControlMsg::Shutdown { .. } => true,
        ControlMsg::Upgrade { .. } => true,
        ControlMsg::Status => false,
        ControlMsg::Drain => false,
        ControlMsg::Reload => false,
    }
}

impl<W, Q> WorkerLink<W, Q> {
    /// No connection yet.
    pub fn new() -> (l: Self)
        ensures
            l == (WorkerLink::<W, Q> {
                writer: None,
                pending_status: None,
                last_generation: None,
                last_pid: None,
                conn_epoch: 0,
            }),
    {
        WorkerLink {
            writer: None,
            pending_status: None,
            last_generation: None,
            last_pid: None,
            conn_epoch: 0,
        }
    }

    /// A connection came in and replaces the one before; the result is its number.
    pub fn connect(&mut self, writer: W) -> (epoch: u64)
        ensures
            *final(self) == connected(*old(self), writer),
            epoch == final(self).conn_epoch,
    {
        self.conn_epoch = self.conn_epoch.wrapping_add(1);
        self.writer = Some(writer);
        self.conn_epoch
    }

    /// A status report came in; the result is the query that it answers.
    pub fn record_report(&mut self, generation: u64, pid: u32) -> (answered: Option<Q>)
        ensures
            *final(self) == reported(*old(self), generation, pid),
            answered == old(self).pending_status,
    {
        self.last_generation = Some(generation);
        self.last_pid = Some(pid);
        self.pending_status.take()
    }

    /// Connection number `epoch` ended.
    pub fn disconnect(&mut self, epoch: u64)
        ensures
            *final(self) == disconnected(*old(self), epoch),
    {
        if self.conn_epoch == epoch {
            self.writer = None;
            self.last_generation = None;
            self.last_pid = None;
        }
    }

    /// A status query was sent.
    pub fn begin_query(&mut self, query: Q)
        ensures
            *final(self) == (WorkerLink { pending_status: Some(query), ..*old(self) }),
    {
        self.pending_status = Some(query);
    }

    /// The status query was not answered in time.
    pub fn abandon_query(&mut self)
        ensures
            *final(self) == (WorkerLink { pending_status: None, ..*old(self) }),
    {
        self.pending_status = None;
    }

    /// Hands out the writer for a last message: nothing more is sent on this connection, and no
    /// status is awaited.
    pub fn take_writer(&mut self) -> (writer: Option<W>)
        ensures
            *final(self) == (WorkerLink { writer: None, pending_status: None, ..*old(self) }),
            writer == old(self).writer,
    {
        self.pending_status = None;
        self.writer.take()
    }

    /// A message is to be sent; the result is how.
    pub fn begin_send(&mut self, msg: &ControlMsg) -> (route: Route<W>)
        ensures
            *final(self) == after_send(*old(self), *msg),
            route == route_of(*old(self), *msg),
    {
        if ends_connection(msg) {
            match self.take_writer() {
                Some(writer) => Route::Last(writer),
                None => Route::NoConnection,
            }
        } else if self.writer.is_some() {
            Route::Stays
        } else {
            Route::NoConnection
        }
    }
}

/// The order to upgrade that a worker gets: what concerns the walk over the roles is not for it.
pub fn upgrade_order(binary_path: Option<String>) -> (msg: ControlMsg)
    ensures
        msg == (ControlMsg::Upgrade {
            binary_path,
            include_tls: false,
            canary_secs: None,
            only_role: None,
        }),
{
    ControlMsg::Upgrade { binary_path, include_tls: false, canary_secs: None, only_role: None }
}

/// The end of a connection that was replaced leaves its successor untouched, whatever the
/// successor has reported by then.
pub proof fn replaced_connection_cannot_disturb<W, Q>(
    l: WorkerLink<W, Q>,
    writer: W,
    generation: u64,
    pid: u32,
)
    ensures
        disconnected(connected(l, writer), l.conn_epoch) == connected(l, writer),
        disconnected(reported(connected(l, writer), generation, pid), l.conn_epoch) == reported(
            connected(l, writer),
            generation,
            pid,
        ),
{
}

/// When the current connection ends, nothing of its reports stays behind.
pub proof fn lost_connection_is_forgotten<W, Q>(
    l: WorkerLink<W, Q>,
    writer: W,
    generation: u64,
    pid: u32,
)
    ensures
        ({
            let live = reported(connected(l, writer), generation, pid);
            let after = disconnected(live, live.conn_epoch);
            after.writer is None && after.last_generation is None && after.last_pid is None
        }),
{
}

/// A new connection is the one that is written to, under a number that its predecessor did not
/// have. It knows nothing less than before: reports and a pending query stay.
pub proof fn new_connection_takes_over<W, Q>(l: WorkerLink<W, Q>, writer: W)
    ensures
        connected(l, writer).writer == Some(writer),
        connected(l, writer).conn_epoch != l.conn_epoch,
        l.conn_epoch < u64::MAX ==> connected(l, writer).conn_epoch == l.conn_epoch + 1,
        connected(l, writer).pending_status == l.pending_status,
        connected(l, writer).last_generation == l.last_generation,
        connected(l, writer).last_pid == l.last_pid,
{
}

/// A report is remembered as it came and answers the query that is pending, which is then no
/// longer so. The connection stays.
pub proof fn report_is_remembered<W, Q>(l: WorkerLink<W, Q>, generation: u64, pid: u32)
    ensures
        reported(l, generation, pid).last_generation == Some(generation),
        reported(l, generation, pid).last_pid == Some(pid),
        reported(l, generation, pid).pending_status is None,
        reported(l, generation, pid).writer == l.writer,
        reported(l, generation, pid).conn_epoch == l.conn_epoch,
{
}

/// The end of the current connection takes the writer away. A query that is pending then stays
/// so: it ends with its own time.
pub proof fn ended_connection_leaves_the_query<W, Q>(l: WorkerLink<W, Q>, epoch: u64)
    ensures
        disconnected(l, epoch).pending_status == l.pending_status,
        disconnected(l, epoch).conn_epoch == l.conn_epoch,
        disconnected(l, l.conn_epoch).writer is None,
        epoch != l.conn_epoch ==> disconnected(l, epoch) == l,
{
}

/// Orders to upgrade and to shut down go out by the writer itself and end the connection; a worker
/// that is asked for its status, to drain or to reload stays connected. Without a connection
/// nothing goes out.
pub proof fn parting_orders_end_the_connection<W, Q>(
    l: WorkerLink<W, Q>,
    writer: W,
    grace_ms: u64,
    binary_path: Option<String>,
    include_tls: bool,
    canary_secs: Option<u64>,
    only_role: Option<String>,
)
    requires
        l.writer == Some(writer),
    ensures
        ({
            let shutdown = ControlMsg::Shutdown { grace_ms };
            let upgrade = ControlMsg::Upgrade { binary_path, include_tls, canary_secs, only_role };
            let gone = disconnected(l, l.conn_epoch);
            &&& route_of(l, shutdown) == Route::Last(writer)
            &&& route_of(l, upgrade) == Route::Last(writer)
            &&& after_send(l, shutdown).writer is None
            &&& after_send(l, shutdown).pending_status is None
            &&& after_send(l, upgrade).writer is None
            &&& after_send(l, upgrade).pending_status is None
            &&& route_of(l, ControlMsg::Status) == Route::<W>::Stays
            &&& route_of(l, ControlMsg::Drain) == Route::<W>::Stays
            &&& route_of(l, ControlMsg::Reload) == Route::<W>::Stays
            &&& after_send(l, ControlMsg::Status) == l
            &&& after_send(l, ControlMsg::Drain) == l
            &&& after_send(l, ControlMsg::Reload) == l
            &&& route_of(gone, shutdown) == Route::<W>::NoConnection
            &&& route_of(gone, ControlMsg::Status) == Route::<W>::NoConnection
        }),
{
}

} // verus!

//! Socket activation, readiness and watchdog protocol of the service manager.

use vstd::prelude::*;

use crate::fault_inject::Failure;
use crate::text::{
    decimal, decimal_parses_back, parse_fd, parse_i32, parse_u32, parse_u64, parse_upto,
    pieces_stand_between_separators, same_text, signed_decimal_parses_back, split_on, split_text,
    views,
};
use crate::time::Span;

verus! {

/// First descriptor that is handed over.
pub const SD_LISTEN_FDS_START: i32 = 3;

/// Listeners that were handed over, in order, with their names. A name may occur more than once.
#[derive(Debug)]
pub struct SdListeners {
    inner: Vec<(String, i32)>,
}

/// Names and descriptors.
pub open spec fn listener_views(v: Seq<(String, i32)>) -> Seq<(Seq<char>, i32)> {
    Seq::new(v.len(), |i: int| (v[i].0@, v[i].1))
}

impl View for SdListeners {
    type V = Seq<(Seq<char>, i32)>;

    closed spec fn view(&self) -> Seq<(Seq<char>, i32)> {
        listener_views(self.inner@)
    }
}

/// The names that a list of names gives; an empty list gives none.
pub open spec fn listed_names(names: Seq<char>) -> Seq<Seq<char>> {
    if names.len() == 0 {
        seq![]
    } else {
        split_on(names, ':')
    }
}

/// `count` descriptors from the first on, named by the list; those beyond it are unknown.
pub open spec fn handed_over(count: nat, names: Seq<char>) -> Seq<(Seq<char>, i32)> {
    Seq::new(
        count,
        |i: int|
            (
                if i < listed_names(names).len() {
                    listed_names(names)[i]
                } else {
                    "unknown"@
                },
                (SD_LISTEN_FDS_START + i) as i32,
            ),
    )
}

/// The optional text as characters.
pub open spec fn var_view(v: Option<&str>) -> Option<Seq<char>> {
    match v {
        Some(s) => Some(s@),
        None => None,
    }
}

/// The handover concerns this process, and its size is readable: `count` descriptors.
pub open spec fn activation(
    listen_pid: Option<Seq<char>>,
    listen_fds: Option<Seq<char>>,
    self_pid: u32,
) -> Result<nat, Seq<char>> {
    match listen_pid {
        None => Ok(0),
        Some(p) => match parse_upto(p, u32::MAX as nat) {
            None => Err("parse LISTEN_PID"@),
            Some(pid) => if pid != self_pid {
                Ok(0)
            } else {
                match listen_fds {
                    None => Ok(0),
                    Some(f) => match parse_fd(f) {
                        None => Err("parse LISTEN_FDS"@),
                        Some(count) => if count <= 0 {
                            Ok(0)
                        } else {
                            Ok(count as nat)
                        },
                    },
                }
            },
        },
    }
}

impl SdListeners {
    /// Reads the handover from its three variables. There is none where the variables are unset
    /// or name another process.
    pub fn from_env(
        listen_pid: Option<&str>,
        listen_fds: Option<&str>,
        names: &str,
        self_pid: u32,
    ) -> (r: Result<Self, Failure>)
        requires
            activation(var_view(listen_pid), var_view(listen_fds), self_pid) matches Ok(n) ==> n
                <= i32::MAX - SD_LISTEN_FDS_START,
        ensures
            match activation(var_view(listen_pid), var_view(listen_fds), self_pid) {
                Ok(count) => r is Ok && r->Ok_0@ == handed_over(count, names@),
                Err(context) => r is Err && r->Err_0.shown() == context,
            },
    {
        let pid: u32 = match listen_pid {
            None => return Ok(Self::empty(names)),
            Some(p) => match parse_u32(p) {
                Some(pid) => pid,
                None => return Err(
                    Failure::new("invalid process id").context("parse LISTEN_PID"),
                ),
            },
        };
        if pid != self_pid {
            return Ok(Self::empty(names));
        }
        let count: i32 = match listen_fds {
            None => return Ok(Self::empty(names)),
            Some(f) => match parse_i32(f) {
                Some(count) => count,
                None => return Err(Failure::new("invalid number").context("parse LISTEN_FDS")),
            },
        };
        if count <= 0 {
            return Ok(Self::empty(names));
        }
        let list: Vec<String> = if names.is_empty() {
            Vec::new()
        } else {
            split_text(names, ':')
        };
        proof {
            assert(views(list@) =~= listed_names(names@));
        }
        let mut inner: Vec<(String, i32)> = Vec::new();
        let mut i: i32 = 0;
        while i < count
            invariant
                0 <= i <= count,
                count <= i32::MAX - SD_LISTEN_FDS_START,
                views(list@) == listed_names(names@),
                listener_views(inner@) == handed_over(i as nat, names@),
            decreases count - i,
        {
            let at: usize = i as usize;
            let name = if at < list.len() {
                proof {
                    assert(views(list@)[at as int] == list@[at as int]@);
                }
                list[at].clone()
            } else {
                "unknown".to_owned()
            };
            let ghost before = inner@;
            inner.push((name, SD_LISTEN_FDS_START + i));
            proof {
                assert(listener_views(inner@) =~= listener_views(before).push(
                    (name@, (SD_LISTEN_FDS_START + i) as i32),
                ));
                assert(handed_over((i + 1) as nat, names@) =~= handed_over(
                    i as nat,
                    names@,
                ).push((name@, (SD_LISTEN_FDS_START + i) as i32)));
            }
            i = i + 1;
        }
        Ok(SdListeners { inner })
    }

    fn empty(names: &str) -> (l: Self)
        ensures
            l@ == handed_over(0, names@),
    {
        let l = SdListeners { inner: Vec::new() };
        proof {
            assert(l@ =~= handed_over(0, names@));
        }
        l
    }

    /// Takes the first descriptor of that name.
    pub fn take_by_name(&mut self, name: &str) -> (r: Option<i32>)
        ensures
            match r {
                Some(fd) => exists|i: int|
                    {
                        &&& 0 <= i < old(self)@.len()
                        &&& (#[trigger] old(self)@[i]) == (name@, fd)
                        &&& forall|j: int| 0 <= j < i ==> (#[trigger] old(self)@[j]).0 != name@
                        &&& final(self)@ == old(self)@.remove(i)
                    },
                None => {
                    &&& final(self)@ == old(self)@
                    &&& forall|j: int|
                        0 <= j < old(self)@.len() ==> (#[trigger] old(self)@[j]).0 != name@
                },
            },
    {
        let mut i: usize = 0;
        while i < self.inner.len()
            invariant
                self.inner == old(self).inner,
                i <= self.inner@.len(),
                forall|j: int| 0 <= j < i ==> (#[trigger] self@[j]).0 != name@,
            decreases self.inner.len() - i,
        {
            proof {
                assert(self@[i as int] == (
                    self.inner@[i as int].0@,
                    self.inner@[i as int].1,
                ));
            }
            if same_text(self.inner[i].0.as_str(), name) {
                let (_, fd) = self.inner.remove(i);
                proof {
                    assert(old(self)@[i as int] == (name@, fd));
                    assert(self@ =~= old(self)@.remove(i as int));
                }
                return Some(fd);
            }
            i = i + 1;
        }
        None
    }

    pub fn is_empty(&self) -> (r: bool)
        ensures
            r == (self@.len() == 0),
    {
        self.inner.len() == 0
    }
}

/// Where notifications go.
#[derive(Debug)]
pub enum NotifyTarget {
    /// A name outside the file system.
    Abstract(Vec<u8>),
    /// A path, as it stands in the variable.
    Path,
}

/// A notification that is to be sent.
#[derive(Debug)]
pub struct Notification {
    pub target: NotifyTarget,
    pub message: String,
}

/// `n` carries `message` to where the variable says.
pub open spec fn carries(n: Option<Notification>, socket: Option<Seq<u8>>, message: Seq<char>) -> bool {
    match socket {
        None => n is None,
        Some(s) => n is Some && n->0.message@ == message && match n->0.target {
            NotifyTarget::Abstract(name) => s.len() > 0 && s[0] == 64 && name@ == s.skip(1),
            NotifyTarget::Path => s.len() == 0 || s[0] != 64,
        },
    }
}

/// The bytes of an optional variable.
pub open spec fn bytes_view(v: Option<&Vec<u8>>) -> Option<Seq<u8>> {
    match v {
        Some(b) => Some(b@),
        None => None,
    }
}

/// Addresses a message to the notification socket, if there is one: `@` begins a name outside the
/// file system.
pub fn notify(socket: Option<&Vec<u8>>, message: String) -> (n: Option<Notification>)
    ensures
        carries(n, bytes_view(socket), message@),
{
    match socket {
        None => None,
        Some(s) => {
            if s.len() > 0 && s[0] == 64 {
                let mut name: Vec<u8> = Vec::new();
                let mut i: usize = 1;
                while i < s.len()
                    invariant
                        1 <= i <= s@.len(),
                        name@ == s@.subrange(1, i as int),
                    decreases s.len() - i,
                {
                    name.push(s[i]);
                    proof {
                        assert(name@ =~= s@.subrange(1, i + 1));
                    }
                    i = i + 1;
                }
                proof {
                    assert(name@ =~= s@.skip(1));
                }
                Some(Notification { target: NotifyTarget::Abstract(name), message })
            } else {
                Some(Notification { target: NotifyTarget::Path, message })
            }
        },
    }
}

/// Startup is complete.
pub fn notify_ready(socket: Option<&Vec<u8>>) -> (n: Option<Notification>)
    ensures
        carries(n, bytes_view(socket), "READY=1\n"@),
{
    notify(socket, "READY=1\n".to_owned())
}

/// An orderly shutdown has begun.
pub fn notify_stopping(socket: Option<&Vec<u8>>) -> (n: Option<Notification>)
    ensures
        carries(n, bytes_view(socket), "STOPPING=1\n"@),
{
    notify(socket, "STOPPING=1\n".to_owned())
}

/// A line for whoever looks at the service.
pub fn notify_status(socket: Option<&Vec<u8>>, line: &str) -> (n: Option<Notification>)
    ensures
        carries(n, bytes_view(socket), "STATUS="@ + line@ + "\n"@),
{
    let mut s = "STATUS=".to_owned();
    s.append(line);
    s.append("\n");
    notify(socket, s)
}

/// The service is alive.
pub fn notify_watchdog(socket: Option<&Vec<u8>>) -> (n: Option<Notification>)
    ensures
        carries(n, bytes_view(socket), "WATCHDOG=1\n"@),
{
    notify(socket, "WATCHDOG=1\n".to_owned())
}

/// Counts the turns of the main loop, so that a loop that hangs can be told from one that is idle.
#[derive(Debug)]
pub struct WatchdogBeacon {
    count: u64,
}

impl WatchdogBeacon {
    pub closed spec fn turns(&self) -> u64 {
        self.count
    }

    pub fn new() -> (b: Self)
        ensures
            b.turns() == 0,
    {
        WatchdogBeacon { count: 0 }
    }

    /// The main loop has made a turn.
    pub fn tick(&mut self)
        ensures
            final(self).turns() == old(self).turns().wrapping_add(1),
    {
        self.count = self.count.wrapping_add(1);
    }

    pub fn load(&self) -> (n: u64)
        ensures
            n == self.turns(),
    {
        self.count
    }
}

/// The watchdog interval in microseconds, where the watchdog is on for process `self_pid`.
pub open spec fn watchdog_interval(
    usec: Option<Seq<char>>,
    pid: Option<Seq<char>>,
    self_pid: u32,
) -> Option<nat> {
    match usec {
        None => None,
        Some(u) => match parse_upto(u, u64::MAX as nat) {
            None => None,
            Some(n) => if n == 0 || (pid is Some && parse_upto(pid->0, u32::MAX as nat) != Some(
                self_pid as nat,
            )) {
                None
            } else {
                Some(n)
            },
        },
    }
}

/// Reads the watchdog interval from its two variables: it must not be zero, and the process that
/// it names, if it names one, must be this one.
pub fn watchdog_usec(usec: Option<&str>, pid: Option<&str>, self_pid: u32) -> (r: Option<u64>)
    ensures
        match r {
            Some(n) => n > 0 && watchdog_interval(var_view(usec), var_view(pid), self_pid) == Some(
                n as nat,
            ),
            None => watchdog_interval(var_view(usec), var_view(pid), self_pid) is None,
        },
{
    let n: u64 = match usec {
        None => return None,
        Some(u) => match parse_u64(u) {
            None => return None,
            Some(n) => n,
        },
    };
    if n == 0 {
        return None;
    }
    if let Some(p) = pid {
        match parse_u32(p) {
            None => return None,
            Some(q) => {
                if q != self_pid {
                    return None;
                }
            },
        }
    }
    Some(n)
}

/// `usec / parts`, but at least one.
pub open spec fn share(usec: nat, parts: nat) -> nat
    recommends
        parts > 0,
{
    if usec / parts >= 1 {
        usec / parts
    } else {
        1
    }
}

/// How often the main loop ticks the beacon: four times per watchdog interval, or every ten
/// seconds where the watchdog is off.
pub fn beacon_tick_interval(usec: Option<u64>) -> (s: Span)
    ensures
        s.nanos == (match usec {
            Some(n) => share(n as nat, 4) * 1_000,
            None => 10_000_000_000,
        }),
{
    match usec {
        Some(n) => {
            let q: u64 = n / 4;
            Span::from_micros(
                if q >= 1 {
                    q
                } else {
                    1
                },
            )
        },
        None => Span::from_secs(10),
    }
}

/// How often the watchdog is pinged: twice per watchdog interval.
pub fn ping_interval(usec: u64) -> (s: Span)
    ensures
        s.nanos == share(usec as nat, 2) * 1_000,
{
    let q: u64 = usec / 2;
    Span::from_micros(
        if q >= 1 {
            q
        } else {
            1
        },
    )
}

/// The pinging side of the watchdog.
#[derive(Clone, Copy, Debug, PartialEq, Eq, Structural)]
pub struct PingWatch {
    pub last_seen: u64,
}

impl PingWatch {
    /// Starts from where the beacon stands.
    pub fn new(beacon: u64) -> (p: Self)
        ensures
            p.last_seen == beacon,
    {
        PingWatch { last_seen: beacon }
    }

    /// Whether to ping: only when the beacon has moved since the last time.
    pub fn check(&mut self, beacon: u64) -> (ping: bool)
        ensures
            ping == (beacon != old(self).last_seen),
            final(self).last_seen == beacon,
    {
        if beacon == self.last_seen {
            false
        } else {
            self.last_seen = beacon;
            true
        }
    }
}

// Laws
/// The beacon ticks at least twice between two pings, so a loop that turns is never taken for one
/// that hangs. Intervals under four microseconds are too short for that.
pub proof fn beacon_outpaces_the_pings(usec: nat)
    requires
        usec >= 4,
    ensures
        2 * share(usec, 4) <= share(usec, 2),
{
}

/// The descriptors are numbered from three on. The names stand in the list in the same order; one
/// beyond the list, and every one where the list is empty, is unknown.
pub proof fn descriptors_are_named_in_order(
    count: nat,
    first: Seq<char>,
    others: Seq<char>,
    i: int,
)
    requires
        0 <= i < count <= i32::MAX - 3,
        !first.contains(':'),
    ensures
        handed_over(count, first).len() == count,
        handed_over(count, first)[i].1 == 3 + i,
        first.len() > 0 ==> handed_over(count, first)[0].0 == first,
        i > 0 ==> handed_over(count, first)[i].0 == "unknown"@,
        handed_over(count, Seq::<char>::empty())[i].0 == "unknown"@,
        handed_over(count, first.push(':') + others)[0].0 == first,
        others.len() > 0 && i > 0 ==> handed_over(count, first.push(':') + others)[i].0
            == handed_over(count, others)[i - 1].0,
{
    pieces_stand_between_separators(first, others, ':');
}

/// A handover is for the process that it names, and as large as it says. Without the variables, or
/// for another process, there is none; what cannot be read is an error.
pub proof fn handover_is_for_the_process_named(
    pid: u32,
    other: u32,
    n: u32,
    text: Seq<char>,
    fds: Option<Seq<char>>,
)
    requires
        pid != other,
        n <= i32::MAX,
    ensures
        activation(Some(decimal(pid as nat)), Some(decimal(n as nat)), pid) == Ok::<
            nat,
            Seq<char>,
        >(n as nat),
        activation(Some(decimal(pid as nat)), None, pid) == Ok::<nat, Seq<char>>(0),
        activation(Some(decimal(pid as nat)), fds, other) == Ok::<nat, Seq<char>>(0),
        activation(None, fds, pid) == Ok::<nat, Seq<char>>(0),
        parse_upto(text, u32::MAX as nat) is None ==> activation(Some(text), fds, pid) is Err,
        parse_fd(text) is None ==> activation(Some(decimal(pid as nat)), Some(text), pid) is Err,
{
    decimal_parses_back(pid as nat);
    decimal_parses_back(n as nat);
    signed_decimal_parses_back(n as i32);
}

/// A notification goes out exactly where there is a socket for it, with its message unchanged. An
/// at sign before the name means that it is no path, and is not part of the name.
pub proof fn notification_reaches_its_socket(
    n: Option<Notification>,
    name: Seq<u8>,
    socket: Seq<u8>,
    message: Seq<char>,
)
    ensures
        carries(n, None, message) ==> n is None,
        carries(n, Some(socket), message) ==> n is Some && n->0.message@ == message,
        carries(n, Some(seq![0x40u8] + name), message) ==> n->0.target is Abstract
            && n->0.target->Abstract_0@ == name,
        socket.len() > 0 && socket[0] != 0x40 && carries(n, Some(socket), message)
            ==> n->0.target is Path,
{
    assert((seq![0x40u8] + name).skip(1) =~= name);
    assert((seq![0x40u8] + name)[0] == 0x40);
}

/// The watchdog is on where an interval is set that is not zero, and no other process is named.
pub proof fn watchdog_is_on_for_the_process_named(n: u64, pid: u32, other: u32, text: Seq<char>)
    requires
        n > 0,
        pid != other,
    ensures
        watchdog_interval(Some(decimal(n as nat)), None, pid) == Some(n as nat),
        watchdog_interval(Some(decimal(n as nat)), Some(decimal(pid as nat)), pid) == Some(
            n as nat,
        ),
        watchdog_interval(Some(decimal(n as nat)), Some(decimal(other as nat)), pid) is None,
        watchdog_interval(Some(decimal(0)), None, pid) is None,
        watchdog_interval(None, None, pid) is None,
        parse_upto(text, u64::MAX as nat) is None ==> watchdog_interval(Some(text), None, pid)
            is None,
{
    decimal_parses_back(n as nat);
    decimal_parses_back(0);
    decimal_parses_back(pid as nat);
    decimal_parses_back(other as nat);
}

/// So many shares make up the interval, but for less than one microsecond for each; an interval
/// that is shorter than that has shares of one microsecond.
pub proof fn shares_make_up_the_interval(usec: nat)
    ensures
        share(usec, 2) >= 1,
        share(usec, 4) >= 1,
        usec < 2 ==> share(usec, 2) == 1,
        usec < 4 ==> share(usec, 4) == 1,
        usec >= 2 ==> 2 * share(usec, 2) <= usec < 2 * share(usec, 2) + 2,
        usec >= 4 ==> 4 * share(usec, 4) <= usec < 4 * share(usec, 4) + 4,
{
}

} // verus!

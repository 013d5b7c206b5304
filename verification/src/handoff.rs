//! What one image of the daemon hands to the image that succeeds it: descriptors and numbers in
//! environment variables, live sessions, and the two-phase ready signal.

use vstd::prelude::*;

use crate::config::{SandboxMode, ENV_CONFIG_PATH};
use crate::text::{
    decimal, decimal_parses_back, decimal_text, fd_text, has_prefix, hex_char, hex_padded,
    pair_views, parse_fd, parse_i32, parse_u32, parse_u64, parse_upto, push_hex_padded, same_text,
    signed_decimal, signed_decimal_parses_back, starts_with, views,
};

verus! {

pub const ENV_LISTENER_FD: &'static str = "FDPASS_LISTENER_FD";

pub const ENV_SESSIONS: &'static str = "FDPASS_SESSIONS";

pub const ENV_SESSIONS_FD: &'static str = "FDPASS_SESSIONS_FD";

pub const ENV_UPGRADE_GENERATION: &'static str = "FDPASS_GENERATION";

pub const ENV_CTRL_ADMIN_FD: &'static str = "FDPASS_CTRL_ADMIN_FD";

pub const ENV_CTRL_PROCESSOR_FD: &'static str = "FDPASS_CTRL_PROCESSOR_FD";

pub const ENV_CTRL_PLAIN_FD: &'static str = "FDPASS_CTRL_PLAIN_FD";

pub const ENV_CTRL_TLS_FD: &'static str = "FDPASS_CTRL_TLS_FD";

pub const ENV_CTRL_SCANNER_FD: &'static str = "FDPASS_CTRL_SCANNER_FD";

pub const ENV_CTRL_DRAINER_FD: &'static str = "FDPASS_CTRL_DRAINER_FD";

pub const ENV_CTRL_SPAWNER_FD: &'static str = "FDPASS_CTRL_SPAWNER_FD";

pub const ENV_LISTENER_PLAIN_FD: &'static str = "FDPASS_LISTENER_PLAIN_FD";

pub const ENV_LISTENER_TLS_FD: &'static str = "FDPASS_LISTENER_TLS_FD";

pub const ENV_LISTENER_PROCESSOR_FD: &'static str = "FDPASS_LISTENER_PROCESSOR_FD";

pub const ENV_LISTENER_SCANNER_FD: &'static str = "FDPASS_LISTENER_SCANNER_FD";

pub const ENV_PROCESSOR_PID: &'static str = "FDPASS_PROCESSOR_PID";

pub const ENV_PLAIN_PID: &'static str = "FDPASS_PLAIN_PID";

pub const ENV_TLS_PID: &'static str = "FDPASS_TLS_PID";

pub const ENV_SCANNER_PID: &'static str = "FDPASS_SCANNER_PID";

pub const ENV_PROCESSOR_GEN: &'static str = "FDPASS_PROCESSOR_GEN";

pub const ENV_PLAIN_GEN: &'static str = "FDPASS_PLAIN_GEN";

pub const ENV_TLS_GEN: &'static str = "FDPASS_TLS_GEN";

pub const ENV_SCANNER_GEN: &'static str = "FDPASS_SCANNER_GEN";

pub const ENV_SUP_GENERATION: &'static str = "FDPASS_SUP_GENERATION";

/// Set on a supervisor that runs under the grandparent.
pub const ENV_UNDER_GRANDPARENT: &'static str = "FDPASS_UNDER_GRANDPARENT";

/// Write end of the ready pipe.
pub const ENV_READY_FD: &'static str = "FDPASS_READY_FD";

pub const ENV_CONFIG_JSON: &'static str = "FDPASS_CONFIG_JSON";

pub const ENV_SOCKETS_DIR_FD: &'static str = "FDPASS_SOCKETS_DIR_FD";

pub const ENV_CERT_DIR_FD: &'static str = "FDPASS_CERT_DIR_FD";

pub const ENV_KEY_DIR_FD: &'static str = "FDPASS_KEY_DIR_FD";

pub const ENV_SELF_EXE_FD: &'static str = "FDPASS_SELF_EXE_FD";

pub const ENV_SELF_EXE_PATH: &'static str = "FDPASS_SELF_EXE_PATH";

/// Prefix of every variable that the daemon sets on its children.
pub const ENV_PREFIX: &'static str = "FDPASS_";

/// Log format toggle; like the config path, it concerns the whole process tree.
pub const ENV_LOG_FORMAT: &'static str = "FDPASS_LOG_FORMAT";

/// Exit code of a process that has handed over to its successor.
pub const UPGRADE_COMMIT_EXIT_CODE: i32 = 23;

/// How a handed-over session reaches its client.
#[derive(Clone, Copy, Debug, PartialEq, Eq, Structural)]
pub enum Transport {
    /// Over a Unix socket that an acceptor bridges to the client.
    Uds,
    /// Directly over the client's TCP socket; recognised only to be declined.
    Tcp,
}

impl Default for Transport {
    fn default() -> (t: Self)
        ensures
            t == Transport::Uds,
    {
        Transport::Uds
    }
}

/// A live session, as it travels to the successor.
#[derive(Debug)]
pub struct SessionHandoff {
    pub uds_fd: i32,
    pub transport: Transport,
    /// Received bytes that do not make up a line yet.
    pub partial_line_bytes: Vec<u8>,
    /// Echo bytes that were not written yet.
    pub pending_write_bytes: Vec<u8>,
    pub lines_echoed: u64,
    pub connected_at_unix_ms: u64,
    pub peer: String,
    pub ident: Option<String>,
    pub trace_id: String,
    pub version: u32,
}

/// Descriptors of directories that a sandboxed worker opened before it was confined.
#[derive(Clone, Copy, Debug, PartialEq, Eq, Structural)]
pub struct HandoffDirFds {
    pub sockets: Option<i32>,
    pub cert: Option<i32>,
    pub key: Option<i32>,
}

impl Default for HandoffDirFds {
    fn default() -> (d: Self)
        ensures
            d.sockets is None,
            d.cert is None,
            d.key is None,
    {
        HandoffDirFds { sockets: None, cert: None, key: None }
    }
}

// Trace ids
/// The trace id of the `n`th session of the process `pid`.
pub open spec fn trace_id_text(pid: u32, n: u64) -> Seq<char> {
    hex_padded(pid as nat, 8) + "-"@ + hex_padded(n as nat, 16)
}

/// Source of trace ids: the pid tells processes apart, a counter the sessions of one process.
pub struct TraceIds {
    pub pid: u32,
    pub next: u64,
}

impl TraceIds {
    /// A fresh trace id. The counter starts over after 2^64 of them.
    pub fn new_trace_id(&mut self) -> (id: String)
        ensures
            id@ == trace_id_text(old(self).pid, old(self).next),
            final(self).pid == old(self).pid,
            final(self).next == (if old(self).next == u64::MAX {
                0
            } else {
                (old(self).next + 1) as u64
            }),
    {
        let mut id = String::new();
        push_hex_padded(&mut id, self.pid as u64, 8);
        id.append("-");
        push_hex_padded(&mut id, self.next, 16);
        self.next = if self.next == u64::MAX {
            0
        } else {
            self.next + 1
        };
        id
    }
}

/// 16 to the power of `width`.
pub open spec fn sixteen_to(width: nat) -> nat
    decreases width,
{
    if width == 0 {
        1
    } else {
        16 * sixteen_to((width - 1) as nat)
    }
}

proof fn lemma_hex_padded_len(n: nat, width: nat)
    ensures
        hex_padded(n, width).len() == width,
    decreases width,
{
    if width > 0 {
        lemma_hex_padded_len(n / 16, (width - 1) as nat);
    }
}

proof fn lemma_hex_padded_injective(a: nat, b: nat, width: nat)
    requires
        a < sixteen_to(width),
        b < sixteen_to(width),
        hex_padded(a, width) == hex_padded(b, width),
    ensures
        a == b,
    decreases width,
{
    if width > 0 {
        let w = (width - 1) as nat;
        assert(hex_padded(a, width).last() == hex_char(a % 16));
        assert(hex_padded(b, width).last() == hex_char(b % 16));
        assert(hex_padded(a, width).drop_last() =~= hex_padded(a / 16, w));
        assert(hex_padded(b, width).drop_last() =~= hex_padded(b / 16, w));
        lemma_hex_padded_injective(a / 16, b / 16, w);
    }
}

/// No two sessions share a trace id, of one process or of two.
pub proof fn trace_ids_are_unique(pid_a: u32, n_a: u64, pid_b: u32, n_b: u64)
    requires
        trace_id_text(pid_a, n_a) == trace_id_text(pid_b, n_b),
    ensures
        pid_a == pid_b,
        n_a == n_b,
{
    reveal_strlit("-");
    lemma_hex_padded_len(pid_a as nat, 8);
    lemma_hex_padded_len(pid_b as nat, 8);
    lemma_hex_padded_len(n_a as nat, 16);
    lemma_hex_padded_len(n_b as nat, 16);
    let ta = trace_id_text(pid_a, n_a);
    let tb = trace_id_text(pid_b, n_b);
    assert(ta.take(8) =~= hex_padded(pid_a as nat, 8));
    assert(tb.take(8) =~= hex_padded(pid_b as nat, 8));
    assert(ta.skip(9) =~= hex_padded(n_a as nat, 16));
    assert(tb.skip(9) =~= hex_padded(n_b as nat, 16));
    reveal_with_fuel(sixteen_to, 17);
    lemma_hex_padded_injective(pid_a as nat, pid_b as nat, 8);
    lemma_hex_padded_injective(n_a as nat, n_b as nat, 16);
}

/// A trace id is eight hexadecimal digits, a dash, and sixteen more.
pub proof fn trace_id_has_fixed_width(pid: u32, n: u64)
    ensures
        trace_id_text(pid, n).len() == 25,
        trace_id_text(pid, n)[8] == '-',
{
    reveal_strlit("-");
    lemma_hex_padded_len(pid as nat, 8);
    lemma_hex_padded_len(n as nat, 16);
}

// Environment of a child
/// A child must not inherit this variable: it carries the daemon's prefix and is not one of the
/// two that concern the whole process tree.
pub open spec fn is_stripped(name: Seq<char>) -> bool {
    starts_with(name, ENV_PREFIX@) && name != ENV_CONFIG_PATH@ && name != ENV_LOG_FORMAT@
}

/// The names among `names` that a child must not inherit, in order.
pub open spec fn stripped(names: Seq<Seq<char>>) -> Seq<Seq<char>>
    decreases names.len(),
{
    if names.len() == 0 {
        seq![]
    } else if is_stripped(names.last()) {
        stripped(names.drop_last()).push(names.last())
    } else {
        stripped(names.drop_last())
    }
}

/// Which of the variables called `names` are removed from a child's environment.
pub fn fdpass_env_to_remove(names: &Vec<String>) -> (r: Vec<String>)
    ensures
        views(r@) == stripped(views(names@)),
{
    let mut r: Vec<String> = Vec::new();
    let mut i: usize = 0;
    proof {
        assert(views(r@) =~= stripped(views(names@).take(0)));
    }
    while i < names.len()
        invariant
            i <= names@.len(),
            views(r@) == stripped(views(names@).take(i as int)),
        decreases names.len() - i,
    {
        let name = names[i].as_str();
        proof {
            assert(views(names@).take(i + 1).drop_last() =~= views(names@).take(i as int));
            assert(views(names@).take(i + 1).last() == name@);
        }
        if has_prefix(name, ENV_PREFIX) && !same_text(name, ENV_CONFIG_PATH) && !same_text(
            name,
            ENV_LOG_FORMAT,
        ) {
            let ghost before = r@;
            r.push(name.to_owned());
            proof {
                assert(views(r@) =~= views(before).push(name@));
            }
        }
        i = i + 1;
    }
    proof {
        assert(views(names@).take(names@.len() as int) =~= views(names@));
    }
    r
}

/// A name is removed exactly when it is present and must not be inherited.
pub proof fn stripped_is_exact(names: Seq<Seq<char>>, name: Seq<char>)
    ensures
        stripped(names).contains(name) <==> names.contains(name) && is_stripped(name),
    decreases names.len(),
{
    if names.len() > 0 {
        let rest = names.drop_last();
        stripped_is_exact(rest, name);
        let s = stripped(rest);
        if names.contains(name) {
            let i = choose|i: int| 0 <= i < names.len() && names[i] == name;
            if i < rest.len() {
                assert(rest[i] == name);
            }
        }
        if rest.contains(name) {
            let i = choose|i: int| 0 <= i < rest.len() && rest[i] == name;
            assert(names[i] == name);
        }
        assert(names[names.len() - 1] == names.last());
        if is_stripped(names.last()) {
            let t = s.push(names.last());
            assert(t[s.len() as int] == names.last());
            if s.contains(name) {
                let i = choose|i: int| 0 <= i < s.len() && s[i] == name;
                assert(t[i] == name);
            }
            if t.contains(name) {
                let i = choose|i: int| 0 <= i < t.len() && t[i] == name;
                if i < s.len() {
                    assert(s[i] == name);
                }
            }
        }
    }
}

/// What a list of variables sets `name` to: the last entry of that name counts.
pub open spec fn env_lookup(
    pairs: Seq<(Seq<char>, Seq<char>)>,
    name: Seq<char>,
) -> Option<Seq<char>>
    decreases pairs.len(),
{
    if pairs.len() == 0 {
        None
    } else if pairs.last().0 == name {
        Some(pairs.last().1)
    } else {
        env_lookup(pairs.drop_last(), name)
    }
}

/// Environment for a successor that is started without the help of a process library: what this
/// process has, without the removed names, then the additions.
pub fn successor_env(
    current: &Vec<(String, String)>,
    remove: &Vec<String>,
    extra: &Vec<(String, String)>,
) -> (r: Vec<(String, String)>)
    ensures
        pair_views(r@) == kept(pair_views(current@), views(remove@)) + pair_views(extra@),
{
    let mut r: Vec<(String, String)> = Vec::new();
    let mut i: usize = 0;
    proof {
        assert(pair_views(r@) =~= kept(pair_views(current@).take(0), views(remove@)));
    }
    while i < current.len()
        invariant
            i <= current@.len(),
            pair_views(r@) == kept(pair_views(current@).take(i as int), views(remove@)),
        decreases current.len() - i,
    {
        proof {
            assert(pair_views(current@).take(i + 1).drop_last() =~= pair_views(current@).take(
                i as int,
            ));
            assert(pair_views(current@).take(i + 1).last() == pair_views(current@)[i as int]);
        }
        if !crate::text::lists(remove, current[i].0.as_str()) {
            let ghost before = r@;
            r.push((current[i].0.clone(), current[i].1.clone()));
            proof {
                assert(pair_views(r@) =~= pair_views(before).push(pair_views(current@)[i as int]));
            }
        }
        i = i + 1;
    }
    proof {
        assert(pair_views(current@).take(current@.len() as int) =~= pair_views(current@));
    }
    let ghost base = r@;
    let mut j: usize = 0;
    proof {
        assert(pair_views(r@) =~= pair_views(base) + pair_views(extra@).take(0));
    }
    while j < extra.len()
        invariant
            j <= extra@.len(),
            pair_views(r@) == pair_views(base) + pair_views(extra@).take(j as int),
        decreases extra.len() - j,
    {
        let ghost before = r@;
        r.push((extra[j].0.clone(), extra[j].1.clone()));
        proof {
            assert(pair_views(r@) =~= pair_views(before).push(pair_views(extra@)[j as int]));
            assert(pair_views(extra@).take(j + 1) =~= pair_views(extra@).take(j as int).push(
                pair_views(extra@)[j as int],
            ));
            assert(pair_views(r@) =~= pair_views(base) + pair_views(extra@).take(j + 1));
        }
        j = j + 1;
    }
    proof {
        assert(pair_views(extra@).take(extra@.len() as int) =~= pair_views(extra@));
    }
    r
}

/// The pairs whose name is not among `removed`, in order.
pub open spec fn kept(
    pairs: Seq<(Seq<char>, Seq<char>)>,
    removed: Seq<Seq<char>>,
) -> Seq<(Seq<char>, Seq<char>)>
    decreases pairs.len(),
{
    if pairs.len() == 0 {
        seq![]
    } else if removed.contains(pairs.last().0) {
        kept(pairs.drop_last(), removed)
    } else {
        kept(pairs.drop_last(), removed).push(pairs.last())
    }
}

proof fn lemma_kept_lookup(
    pairs: Seq<(Seq<char>, Seq<char>)>,
    removed: Seq<Seq<char>>,
    name: Seq<char>,
)
    ensures
        env_lookup(kept(pairs, removed), name) == (if removed.contains(name) {
            None
        } else {
            env_lookup(pairs, name)
        }),
    decreases pairs.len(),
{
    if pairs.len() > 0 {
        lemma_kept_lookup(pairs.drop_last(), removed, name);
        if !removed.contains(pairs.last().0) {
            let k = kept(pairs.drop_last(), removed);
            assert(k.push(pairs.last()).drop_last() =~= k);
        }
    }
}

proof fn lemma_lookup_in_sum(
    a: Seq<(Seq<char>, Seq<char>)>,
    b: Seq<(Seq<char>, Seq<char>)>,
    name: Seq<char>,
)
    ensures
        env_lookup(a + b, name) == (match env_lookup(b, name) {
            Some(v) => Some(v),
            None => env_lookup(a, name),
        }),
    decreases b.len(),
{
    if b.len() == 0 {
        assert(a + b =~= a);
    } else {
        lemma_lookup_in_sum(a, b.drop_last(), name);
        assert((a + b).drop_last() =~= a + b.drop_last());
    }
}

/// A successor sees the additions first, then what this process has and did not strip; a stale
/// variable of the daemon never reaches it.
pub proof fn successor_env_is_clean(
    current: Seq<(Seq<char>, Seq<char>)>,
    names: Seq<Seq<char>>,
    extra: Seq<(Seq<char>, Seq<char>)>,
    name: Seq<char>,
)
    requires
        names.contains(name) || env_lookup(current, name) is None,
    ensures
        env_lookup(kept(current, stripped(names)) + extra, name) == (match env_lookup(extra, name) {
            Some(v) => Some(v),
            None => if is_stripped(name) {
                None
            } else {
                env_lookup(current, name)
            },
        }),
{
    lemma_lookup_in_sum(kept(current, stripped(names)), extra, name);
    lemma_kept_lookup(current, stripped(names), name);
    stripped_is_exact(names, name);
}

/// The binary to start: the one that was asked for, else this process's own.
pub fn resolve_upgrade_exe(binary_path: Option<String>, cached_self: &str) -> (exe: String)
    ensures
        exe@ == (match binary_path {
            Some(p) => p@,
            None => cached_self@,
        }),
{
    match binary_path {
        Some(p) => p,
        None => cached_self.to_owned(),
    }
}

/// A descriptor number that an inherited variable holds; nothing where it is unset or no number.
pub fn env_raw_fd(value: Option<&str>) -> (fd: Option<i32>)
    ensures
        fd == (match value {
            Some(v) => parse_fd(v@),
            None => None,
        }),
{
    match value {
        Some(v) => parse_i32(v),
        None => None,
    }
}

/// A pid that an inherited variable holds; nothing where it is unset or no number.
pub fn env_pid(value: Option<&str>) -> (pid: Option<u32>)
    ensures
        match pid {
            Some(p) => value is Some && parse_upto(value->0@, u32::MAX as nat) == Some(p as nat),
            None => value is None || parse_upto(value->0@, u32::MAX as nat) is None,
        },
{
    match value {
        Some(v) => parse_u32(v),
        None => None,
    }
}

/// The generation that a text denotes; zero where it denotes none.
pub open spec fn generation_in(value: Option<Seq<char>>) -> u64 {
    match value {
        Some(v) => match parse_upto(v, u64::MAX as nat) {
            Some(g) => g as u64,
            None => 0,
        },
        None => 0,
    }
}

/// The generation that an inherited variable holds; zero, a fresh start, where it is unset or no
/// number.
pub fn env_generation(value: Option<&str>) -> (generation: u64)
    ensures
        generation == generation_in(match value {
            Some(v) => Some(v@),
            None => None,
        }),
{
    match value {
        Some(v) => match parse_u64(v) {
            Some(g) => g,
            None => 0,
        },
        None => 0,
    }
}

/// Adds one variable to a list.
pub fn push_env(env: &mut Vec<(String, String)>, name: &str, value: String)
    ensures
        pair_views(final(env)@) == pair_views(old(env)@).push((name@, value@)),
{
    let ghost before = env@;
    env.push((name.to_owned(), value));
    proof {
        assert(pair_views(env@) =~= pair_views(before).push((name@, value@)));
    }
}

/// The variables that carry a worker's listener, its sessions where it has any, its generation
/// and the ready pipe to the worker that succeeds it.
pub open spec fn upgrade_env_pairs(
    listener_fd: i32,
    sessions_fd: Option<i32>,
    generation: u64,
    ready_fd: Option<i32>,
) -> Seq<(Seq<char>, Seq<char>)> {
    let a = seq![(ENV_LISTENER_FD@, signed_decimal(listener_fd as int))];
    let b = match sessions_fd {
        Some(fd) => a.push((ENV_SESSIONS_FD@, signed_decimal(fd as int))),
        None => a,
    };
    let c = b.push((ENV_UPGRADE_GENERATION@, decimal((generation + 1) as nat)));
    match ready_fd {
        Some(fd) => c.push((ENV_READY_FD@, signed_decimal(fd as int))),
        None => c,
    }
}

/// Environment that a worker of `generation` sets on its successor.
pub fn upgrade_env(
    listener_fd: i32,
    sessions_fd: Option<i32>,
    generation: u64,
    ready_fd: Option<i32>,
) -> (env: Vec<(String, String)>)
    requires
        generation < u64::MAX,
    ensures
        pair_views(env@) == upgrade_env_pairs(listener_fd, sessions_fd, generation, ready_fd),
{
    let mut env: Vec<(String, String)> = Vec::new();
    proof {
        assert(pair_views(env@) =~= seq![]);
        assert(seq![].push((ENV_LISTENER_FD@, signed_decimal(listener_fd as int))) =~= seq![
            (ENV_LISTENER_FD@, signed_decimal(listener_fd as int)),
        ]);
    }
    push_env(&mut env, ENV_LISTENER_FD, fd_text(listener_fd));
    match sessions_fd {
        Some(fd) => push_env(&mut env, ENV_SESSIONS_FD, fd_text(fd)),
        None => {},
    }
    push_env(&mut env, ENV_UPGRADE_GENERATION, decimal_text(generation + 1));
    match ready_fd {
        Some(fd) => push_env(&mut env, ENV_READY_FD, fd_text(fd)),
        None => {},
    }
    env
}

/// The successor reads back what its predecessor wrote: the listener, the sessions pipe, the
/// ready pipe, and a generation that is one higher.
pub proof fn upgrade_env_reads_back(
    listener_fd: i32,
    sessions_fd: Option<i32>,
    generation: u64,
    ready_fd: Option<i32>,
)
    requires
        generation < u64::MAX,
    ensures
        ({
            let env = upgrade_env_pairs(listener_fd, sessions_fd, generation, ready_fd);
            &&& env_lookup(env, ENV_LISTENER_FD@) matches Some(v) && parse_fd(v) == Some(
                listener_fd,
            )
            &&& match sessions_fd {
                Some(fd) => env_lookup(env, ENV_SESSIONS_FD@) matches Some(v) && parse_fd(v)
                    == Some(fd),
                None => env_lookup(env, ENV_SESSIONS_FD@) is None,
            }
            &&& match ready_fd {
                Some(fd) => env_lookup(env, ENV_READY_FD@) matches Some(v) && parse_fd(v) == Some(
                    fd,
                ),
                None => env_lookup(env, ENV_READY_FD@) is None,
            }
            &&& generation_in(env_lookup(env, ENV_UPGRADE_GENERATION@)) == generation + 1
        }),
{
    reveal_strlit("FDPASS_LISTENER_FD");
    reveal_strlit("FDPASS_SESSIONS_FD");
    reveal_strlit("FDPASS_GENERATION");
    reveal_strlit("FDPASS_READY_FD");
    assert(ENV_LISTENER_FD@.len() == 18);
    assert(ENV_SESSIONS_FD@.len() == 18);
    assert(ENV_LISTENER_FD@[7] != ENV_SESSIONS_FD@[7]);
    assert(ENV_UPGRADE_GENERATION@.len() == 17);
    assert(ENV_READY_FD@.len() == 15);
    signed_decimal_parses_back(listener_fd);
    decimal_parses_back((generation + 1) as nat);
    let a = seq![(ENV_LISTENER_FD@, signed_decimal(listener_fd as int))];
    let b = match sessions_fd {
        Some(fd) => {
            signed_decimal_parses_back(fd);
            a.push((ENV_SESSIONS_FD@, signed_decimal(fd as int)))
        },
        None => a,
    };
    let c = b.push((ENV_UPGRADE_GENERATION@, decimal((generation + 1) as nat)));
    let env = upgrade_env_pairs(listener_fd, sessions_fd, generation, ready_fd);
    if ready_fd is Some {
        signed_decimal_parses_back(ready_fd->0);
        assert(env.drop_last() =~= c);
    }
    assert(c.drop_last() =~= b);
    if sessions_fd is Some {
        assert(b.drop_last() =~= a);
    }
    assert(a.drop_last() =~= seq![]);
    reveal_with_fuel(env_lookup, 5);
}

/// What a successor that inherits the sandbox cannot open for itself.
pub struct CapModeHandoff {
    pub self_exe_fd: i32,
    pub self_exe_path: String,
    pub sockets_fd: Option<i32>,
    pub cert_fd: Option<i32>,
    pub key_fd: Option<i32>,
}

/// `pairs`, and the variable for a descriptor where there is one.
pub open spec fn with_fd(
    pairs: Seq<(Seq<char>, Seq<char>)>,
    name: Seq<char>,
    fd: Option<i32>,
) -> Seq<(Seq<char>, Seq<char>)> {
    match fd {
        Some(fd) => pairs.push((name, signed_decimal(fd as int))),
        None => pairs,
    }
}

/// `fds`, and one more where there is one.
pub open spec fn and_fd(fds: Seq<i32>, fd: Option<i32>) -> Seq<i32> {
    match fd {
        Some(fd) => fds.push(fd),
        None => fds,
    }
}

impl CapModeHandoff {
    /// The variables that name the descriptors, and the path of the image.
    pub open spec fn pairs(&self) -> Seq<(Seq<char>, Seq<char>)> {
        with_fd(
            with_fd(
                with_fd(
                    seq![(ENV_SELF_EXE_FD@, signed_decimal(self.self_exe_fd as int))],
                    ENV_SOCKETS_DIR_FD@,
                    self.sockets_fd,
                ),
                ENV_CERT_DIR_FD@,
                self.cert_fd,
            ),
            ENV_KEY_DIR_FD@,
            self.key_fd,
        ).push((ENV_SELF_EXE_PATH@, self.self_exe_path@))
    }

    /// The descriptors that must survive the exec.
    pub open spec fn fds(&self) -> Seq<i32> {
        and_fd(and_fd(and_fd(seq![self.self_exe_fd], self.sockets_fd), self.cert_fd), self.key_fd)
    }

    /// The variables to set on the successor and the descriptors to keep open across the exec.
    pub fn prepare(&self) -> (r: (Vec<(String, String)>, Vec<i32>))
        ensures
            pair_views(r.0@) == self.pairs(),
            r.1@ == self.fds(),
    {
        let mut env: Vec<(String, String)> = Vec::new();
        let mut fds: Vec<i32> = Vec::new();
        proof {
            assert(pair_views(env@) =~= seq![]);
            assert(seq![].push((ENV_SELF_EXE_FD@, signed_decimal(self.self_exe_fd as int)))
                =~= seq![(ENV_SELF_EXE_FD@, signed_decimal(self.self_exe_fd as int))]);
        }
        push_env(&mut env, ENV_SELF_EXE_FD, fd_text(self.self_exe_fd));
        fds.push(self.self_exe_fd);
        match self.sockets_fd {
            Some(fd) => {
                push_env(&mut env, ENV_SOCKETS_DIR_FD, fd_text(fd));
                fds.push(fd);
            },
            None => {},
        }
        match self.cert_fd {
            Some(fd) => {
                push_env(&mut env, ENV_CERT_DIR_FD, fd_text(fd));
                fds.push(fd);
            },
            None => {},
        }
        match self.key_fd {
            Some(fd) => {
                push_env(&mut env, ENV_KEY_DIR_FD, fd_text(fd));
                fds.push(fd);
            },
            None => {},
        }
        push_env(&mut env, ENV_SELF_EXE_PATH, self.self_exe_path.clone());
        proof {
            assert(fds@ =~= self.fds());
        }
        (env, fds)
    }
}

/// A successor takes over descriptors only where it runs this very image and its role is
/// confined.
pub open spec fn cap_mode_applies(target_overridden: bool, mode: SandboxMode) -> bool {
    !target_overridden && mode != SandboxMode::Off
}

/// Extends `env` by the configuration and the descriptors, where that applies. Hands out the
/// descriptors to keep open across the exec.
pub fn cap_mode_handoff(
    env: &mut Vec<(String, String)>,
    config_json: &str,
    handoff: &CapModeHandoff,
    target_overridden: bool,
    mode: SandboxMode,
) -> (fds: Vec<i32>)
    ensures
        cap_mode_applies(target_overridden, mode) ==> fds@ == handoff.fds() && pair_views(
            final(env)@,
        ) == pair_views(old(env)@).push((ENV_CONFIG_JSON@, config_json@)) + handoff.pairs(),
        !cap_mode_applies(target_overridden, mode) ==> fds@.len() == 0 && final(env)@ == old(
            env,
        )@,
{
    if target_overridden || mode == SandboxMode::Off {
        return Vec::new();
    }
    push_env(env, ENV_CONFIG_JSON, config_json.to_owned());
    let ghost base = pair_views(env@);
    let (mut pairs, fds) = handoff.prepare();
    env.append(&mut pairs);
    proof {
        assert(pair_views(env@) =~= base + handoff.pairs());
    }
    fds
}

/// A confined successor finds all that it cannot open for itself: the configuration, its own
/// image, and the directories that were open. What was not open it sees as it would have without
/// the handover.
pub proof fn confined_successor_finds_everything(
    base: Seq<(Seq<char>, Seq<char>)>,
    config_json: Seq<char>,
    handoff: CapModeHandoff,
)
    ensures
        ({
            let env = base.push((ENV_CONFIG_JSON@, config_json)) + handoff.pairs();
            &&& env_lookup(env, ENV_CONFIG_JSON@) == Some(config_json)
            &&& env_lookup(env, ENV_SELF_EXE_PATH@) == Some(handoff.self_exe_path@)
            &&& finds_fd(env, base, ENV_SELF_EXE_FD@, Some(handoff.self_exe_fd))
            &&& finds_fd(env, base, ENV_SOCKETS_DIR_FD@, handoff.sockets_fd)
            &&& finds_fd(env, base, ENV_CERT_DIR_FD@, handoff.cert_fd)
            &&& finds_fd(env, base, ENV_KEY_DIR_FD@, handoff.key_fd)
        }),
{
    lemma_confined_names();
    let first = base.push((ENV_CONFIG_JSON@, config_json));
    assert(first.drop_last() =~= base);
    lemma_lookup_in_sum(first, handoff.pairs(), ENV_CONFIG_JSON@);
    lemma_lookup_in_sum(first, handoff.pairs(), ENV_SELF_EXE_PATH@);
    lemma_lookup_in_sum(first, handoff.pairs(), ENV_SELF_EXE_FD@);
    lemma_lookup_in_sum(first, handoff.pairs(), ENV_SOCKETS_DIR_FD@);
    lemma_lookup_in_sum(first, handoff.pairs(), ENV_CERT_DIR_FD@);
    lemma_lookup_in_sum(first, handoff.pairs(), ENV_KEY_DIR_FD@);
    let a = seq![(ENV_SELF_EXE_FD@, signed_decimal(handoff.self_exe_fd as int))];
    let b = with_fd(a, ENV_SOCKETS_DIR_FD@, handoff.sockets_fd);
    let c = with_fd(b, ENV_CERT_DIR_FD@, handoff.cert_fd);
    let d = with_fd(c, ENV_KEY_DIR_FD@, handoff.key_fd);
    assert(handoff.pairs().drop_last() =~= d);
    assert(a.drop_last() =~= seq![]);
    if handoff.sockets_fd is Some {
        assert(b.drop_last() =~= a);
        signed_decimal_parses_back(handoff.sockets_fd->0);
    }
    if handoff.cert_fd is Some {
        assert(c.drop_last() =~= b);
        signed_decimal_parses_back(handoff.cert_fd->0);
    }
    if handoff.key_fd is Some {
        assert(d.drop_last() =~= c);
        signed_decimal_parses_back(handoff.key_fd->0);
    }
    signed_decimal_parses_back(handoff.self_exe_fd);
    reveal_with_fuel(env_lookup, 6);
}

/// `env` names the descriptor under `name`, or says there what `base` does where there is none.
pub open spec fn finds_fd(
    env: Seq<(Seq<char>, Seq<char>)>,
    base: Seq<(Seq<char>, Seq<char>)>,
    name: Seq<char>,
    fd: Option<i32>,
) -> bool {
    match fd {
        Some(fd) => env_lookup(env, name) matches Some(v) && parse_fd(v) == Some(fd),
        None => env_lookup(env, name) == env_lookup(base, name),
    }
}

proof fn lemma_confined_names()
    ensures
        ENV_CONFIG_JSON@ != ENV_SELF_EXE_PATH@,
        ENV_CONFIG_JSON@ != ENV_SELF_EXE_FD@,
        ENV_CONFIG_JSON@ != ENV_SOCKETS_DIR_FD@,
        ENV_CONFIG_JSON@ != ENV_CERT_DIR_FD@,
        ENV_CONFIG_JSON@ != ENV_KEY_DIR_FD@,
        ENV_SELF_EXE_PATH@ != ENV_SELF_EXE_FD@,
        ENV_SELF_EXE_PATH@ != ENV_SOCKETS_DIR_FD@,
        ENV_SELF_EXE_PATH@ != ENV_CERT_DIR_FD@,
        ENV_SELF_EXE_PATH@ != ENV_KEY_DIR_FD@,
        ENV_SELF_EXE_FD@ != ENV_SOCKETS_DIR_FD@,
        ENV_SELF_EXE_FD@ != ENV_CERT_DIR_FD@,
        ENV_SELF_EXE_FD@ != ENV_KEY_DIR_FD@,
        ENV_SOCKETS_DIR_FD@ != ENV_CERT_DIR_FD@,
        ENV_SOCKETS_DIR_FD@ != ENV_KEY_DIR_FD@,
        ENV_CERT_DIR_FD@ != ENV_KEY_DIR_FD@,
{
    reveal_strlit("FDPASS_CONFIG_JSON");
    reveal_strlit("FDPASS_SELF_EXE_PATH");
    reveal_strlit("FDPASS_SELF_EXE_FD");
    reveal_strlit("FDPASS_SOCKETS_DIR_FD");
    reveal_strlit("FDPASS_CERT_DIR_FD");
    reveal_strlit("FDPASS_KEY_DIR_FD");
    assert(ENV_CONFIG_JSON@.len() == 18 && ENV_CONFIG_JSON@[7] == 'C' && ENV_CONFIG_JSON@[8]
        == 'O');
    assert(ENV_SELF_EXE_PATH@.len() == 20);
    assert(ENV_SELF_EXE_FD@.len() == 18 && ENV_SELF_EXE_FD@[7] == 'S');
    assert(ENV_SOCKETS_DIR_FD@.len() == 21);
    assert(ENV_CERT_DIR_FD@.len() == 18 && ENV_CERT_DIR_FD@[7] == 'C' && ENV_CERT_DIR_FD@[8]
        == 'E');
    assert(ENV_KEY_DIR_FD@.len() == 17);
}

// Ready signal
/// What came of waiting for the successor.
#[derive(Clone, Copy, Debug, PartialEq, Eq, Structural)]
pub enum ReadyOutcome {
    /// It is ready: this process may exit.
    Ready,
    /// It closed the pipe without a word.
    Closed,
    /// It sent something else.
    NotOk,
}

/// What the bytes on the ready pipe mean: they begin with `ok`, or there are none, or else.
pub open spec fn ready_in(read: Seq<u8>) -> ReadyOutcome {
    if read.len() == 0 {
        ReadyOutcome::Closed
    } else if read.len() >= 2 && read[0] == 0x6f && read[1] == 0x6b {
        ReadyOutcome::Ready
    } else {
        ReadyOutcome::NotOk
    }
}

/// Reads what the successor wrote to the ready pipe, nothing at all where it closed the pipe.
pub fn ready_outcome(read: &[u8]) -> (r: ReadyOutcome)
    ensures
        r == ready_in(read@),
{
    if read.len() == 0 {
        ReadyOutcome::Closed
    } else if read.len() >= 2 && read[0] == 0x6f && read[1] == 0x6b {
        ReadyOutcome::Ready
    } else {
        ReadyOutcome::NotOk
    }
}

/// `ok` and a newline.
pub open spec fn ready_bytes() -> Seq<u8> {
    seq![0x6f, 0x6b, 0x0a]
}

/// What a ready successor writes.
pub fn ready_ack() -> (ack: Vec<u8>)
    ensures
        ack@ == ready_bytes(),
{
    let ack: Vec<u8> = vec![0x6f, 0x6b, 0x0a];
    proof {
        assert(ack@ =~= ready_bytes());
    }
    ack
}

/// A successor that says it is ready is understood, and nothing shorter than that is taken for
/// it: a crash before the second byte rolls back.
pub proof fn ready_signal_is_understood(n: int)
    requires
        0 <= n <= ready_bytes().len(),
    ensures
        ready_in(ready_bytes().take(n)) == ReadyOutcome::Ready <==> n >= 2,
{
}

/// What this process does about its successor.
#[derive(Clone, Copy, Debug, PartialEq, Eq, Structural)]
pub enum UpgradeVerdict {
    /// Leave the successor alone and exit with this code.
    Commit { exit_code: i32 },
    /// Kill the successor and serve on.
    Rollback,
}

/// Commits exactly when the successor has said in time that it is ready; `None` stands for a
/// wait that failed or ran out.
pub fn upgrade_verdict(waited: Option<ReadyOutcome>) -> (v: UpgradeVerdict)
    ensures
        v is Commit <==> waited == Some(ReadyOutcome::Ready),
        v is Commit ==> v == (UpgradeVerdict::Commit { exit_code: UPGRADE_COMMIT_EXIT_CODE }),
{
    match waited {
        Some(ReadyOutcome::Ready) => UpgradeVerdict::Commit {
            exit_code: UPGRADE_COMMIT_EXIT_CODE,
        },
        _ => UpgradeVerdict::Rollback,
    }
}

// Statically linked images
/// The unsigned little-endian number in `width` bytes of `b` from `at` on.
pub open spec fn le_number(b: Seq<u8>, at: int, width: nat) -> nat
    decreases width,
{
    if width == 0 {
        0
    } else {
        b[at] as nat + 256 * le_number(b, at + 1, (width - 1) as nat)
    }
}

/// Length of a 64-bit ELF header.
pub const ELF_HEADER_LEN: usize = 64;

/// Program header type of the interpreter's path.
pub const PT_INTERP: u32 = 3;

/// The image begins with a 64-bit little-endian ELF header.
pub open spec fn is_elf64_le(b: Seq<u8>) -> bool {
    &&& b.len() >= ELF_HEADER_LEN
    &&& b[0] == 0x7f && b[1] == 0x45 && b[2] == 0x4c && b[3] == 0x46
    &&& b[4] == 2
    &&& b[5] == 1
}

/// Offset of the program header table: a signed number, as file offsets are.
pub open spec fn elf_table_offset(b: Seq<u8>) -> int {
    let raw = le_number(b, 32, 8) as int;
    if raw < 0x8000_0000_0000_0000 {
        raw
    } else {
        raw - 0x1_0000_0000_0000_0000
    }
}

/// The `i`th program header lies in the image and names an interpreter.
pub open spec fn names_interpreter(b: Seq<u8>, i: int) -> bool {
    let at = elf_table_offset(b) + i * le_number(b, 54, 2);
    0 <= at && at + 4 <= b.len() && le_number(b, at, 4) == PT_INTERP
}

fn read_le(b: &[u8], at: usize, width: usize) -> (n: u64)
    requires
        width <= 8,
        at + width <= b@.len(),
    ensures
        n == le_number(b@, at as int, width as nat),
        width == 2 ==> n < 0x1_0000,
        width == 4 ==> n < 0x1_0000_0000,
{
    let len: usize = b.len();
    let mut i: usize = width;
    let mut acc: u128 = 0;
    while i > 0
        invariant
            i <= width <= 8,
            len == b@.len(),
            at + width <= len,
            acc == le_number(b@, at + i, (width - i) as nat),
            acc < byte_power((width - i) as nat),
        decreases i,
    {
        i = i - 1;
        proof {
            lemma_byte_power();
            lemma_le_bound(b@, at + i, (width - i) as nat);
            assert(byte_power((width - i) as nat) <= 0x1_0000_0000_0000_0000);
        }
        acc = b[at + i] as u128 + 256 * acc;
    }
    proof {
        lemma_byte_power();
    }
    acc as u64
}

/// 256 to the power of `width`.
pub open spec fn byte_power(width: nat) -> nat
    decreases width,
{
    if width == 0 {
        1
    } else {
        256 * byte_power((width - 1) as nat)
    }
}

proof fn lemma_byte_power()
    ensures
        byte_power(0) == 1,
        byte_power(1) == 0x100,
        byte_power(2) == 0x1_0000,
        byte_power(3) == 0x100_0000,
        byte_power(4) == 0x1_0000_0000,
        byte_power(5) == 0x100_0000_0000,
        byte_power(6) == 0x1_0000_0000_0000,
        byte_power(7) == 0x100_0000_0000_0000,
        byte_power(8) == 0x1_0000_0000_0000_0000,
{
    reveal_with_fuel(byte_power, 9);
}

proof fn lemma_le_bound(b: Seq<u8>, at: int, width: nat)
    ensures
        le_number(b, at, width) < byte_power(width),
    decreases width,
{
    if width > 0 {
        lemma_le_bound(b, at + 1, (width - 1) as nat);
    }
}

/// Whether an executable image needs an interpreter to be loaded, which a confined process
/// cannot open. What is no 64-bit little-endian ELF image is taken not to.
pub fn elf_has_interpreter(image: &[u8]) -> (r: bool)
    ensures
        r == (is_elf64_le(image@) && le_number(image@, 54, 2) != 0 && exists|i: int|
            0 <= i < le_number(image@, 56, 2) && names_interpreter(image@, i)),
{
    if image.len() < ELF_HEADER_LEN {
        return false;
    }
    if image[0] != 0x7f || image[1] != 0x45 || image[2] != 0x4c || image[3] != 0x46 {
        return false;
    }
    if image[4] != 2 || image[5] != 1 {
        return false;
    }
    let raw: u64 = read_le(image, 32, 8);
    let table: i128 = if raw < 0x8000_0000_0000_0000 {
        raw as i128
    } else {
        raw as i128 - 0x1_0000_0000_0000_0000
    };
    let entry: u64 = read_le(image, 54, 2);
    let count: u64 = read_le(image, 56, 2);
    if entry == 0 {
        return false;
    }
    let mut i: u64 = 0;
    let mut at: i128 = table;
    while i < count
        invariant
            i <= count,
            count == le_number(image@, 56, 2),
            count < 0x1_0000,
            entry == le_number(image@, 54, 2),
            entry < 0x1_0000,
            table == elf_table_offset(image@),
            -0x8000_0000_0000_0000 <= table < 0x8000_0000_0000_0000,
            at == table + i * entry,
            at - table <= i * 0x1_0000,
            is_elf64_le(image@),
            entry != 0,
            forall|j: int| 0 <= j < i ==> !names_interpreter(image@, j),
        decreases count - i,
    {
        if at >= 0 && at + 4 <= image.len() as i128 {
            if read_le(image, at as usize, 4) == PT_INTERP as u64 {
                proof {
                    assert(names_interpreter(image@, i as int));
                }
                return true;
            }
        }
        proof {
            assert(!names_interpreter(image@, i as int));
            assert((i + 1) * entry == i * entry + entry) by (nonlinear_arith);
        }
        at = at + entry as i128;
        i = i + 1;
    }
    false
}

/// What the refusal of a dynamically linked image says.
pub const STATIC_REQUIRED: &'static str = "in-place upgrade under FreeBSD Capsicum capability mode requires a statically-linked binary — build with scripts/build-static.sh. A dynamically-linked successor cannot exec because fexecve triggers a path-based load of /libexec/ld-elf.so.1, which ECAPMODE rejects.";

/// Whether an upgrade under confinement must be refused: it would load an interpreter.
pub fn require_static_for_capmode_upgrade(confined: bool, image: &[u8]) -> (r: Result<(), String>)
    ensures
        r is Err <==> confined && is_elf64_le(image@) && le_number(image@, 54, 2) != 0 && exists|
            i: int,
        |
            0 <= i < le_number(image@, 56, 2) && names_interpreter(image@, i),
        r is Err ==> r->Err_0@ == STATIC_REQUIRED@,
{
    if confined && elf_has_interpreter(image) {
        Err(STATIC_REQUIRED.to_owned())
    } else {
        Ok(())
    }
}

// Laws
/// An entry hides every earlier one of its name, and none of another name.
pub proof fn last_entry_of_a_name_counts(
    pairs: Seq<(Seq<char>, Seq<char>)>,
    name: Seq<char>,
    value: Seq<char>,
    other: Seq<char>,
)
    requires
        other != name,
    ensures
        env_lookup(pairs.push((name, value)), name) == Some(value),
        env_lookup(pairs.push((name, value)), other) == env_lookup(pairs, other),
        env_lookup(Seq::<(Seq<char>, Seq<char>)>::empty(), name) is None,
{
    assert(pairs.push((name, value)).drop_last() =~= pairs);
}

/// Of the variables that a process has, those are removed from a child's environment that begin
/// with `FDPASS_`, but for the path of the configuration and the format of the log. All others
/// reach the child, and the order stays.
pub proof fn only_daemon_variables_are_removed(names: Seq<Seq<char>>)
    ensures
        stripped(names) == names.filter(
            |n: Seq<char>|
                n.len() >= 7 && n.take(7) == "FDPASS_"@ && n != "FDPASS_CONFIG_PATH"@ && n
                    != "FDPASS_LOG_FORMAT"@,
        ),
    decreases names.len(),
{
    reveal(Seq::filter);
    reveal_strlit("FDPASS_");
    if names.len() > 0 {
        only_daemon_variables_are_removed(names.drop_last());
    }
}

/// What is not removed stays, in order and with its value.
pub proof fn other_variables_stay(
    pairs: Seq<(Seq<char>, Seq<char>)>,
    removed: Seq<Seq<char>>,
)
    ensures
        kept(pairs, removed) == pairs.filter(
            |p: (Seq<char>, Seq<char>)| !removed.contains(p.0),
        ),
    decreases pairs.len(),
{
    reveal(Seq::filter);
    if pairs.len() > 0 {
        other_variables_stay(pairs.drop_last(), removed);
    }
}

/// A generation in decimal reads back. A variable that is unset or holds no number means a fresh
/// start.
pub proof fn generation_reads_back(generation: u64, text: Seq<char>)
    ensures
        generation_in(Some(decimal(generation as nat))) == generation,
        generation_in(None) == 0,
        parse_upto(text, u64::MAX as nat) is None ==> generation_in(Some(text)) == 0,
{
    decimal_parses_back(generation as nat);
}

/// Whatever follows, `ok` means that the successor is ready. Silence means that it is gone, and
/// any other word that it is not ready.
pub proof fn only_ok_means_ready(read: Seq<u8>, rest: Seq<u8>)
    ensures
        ready_in(seq![0x6fu8, 0x6bu8] + rest) == ReadyOutcome::Ready,
        ready_in(read) == ReadyOutcome::Ready <==> read.len() >= 2 && read.take(2) == seq![
            0x6fu8,
            0x6bu8,
        ],
        ready_in(read) == ReadyOutcome::Closed <==> read == Seq::<u8>::empty(),
{
    if read.len() == 0 {
        assert(read =~= Seq::<u8>::empty());
    }
    if read.len() >= 2 {
        let two = read.take(2);
        assert(two[0] == read[0] && two[1] == read[1]);
        if read[0] == 0x6f && read[1] == 0x6b {
            assert(two =~= seq![0x6fu8, 0x6bu8]);
        }
    }
}

/// A number in an image counts its bytes from the lowest up.
pub proof fn image_numbers_are_little_endian(b: Seq<u8>, at: int)
    ensures
        le_number(b, at, 2) == b[at] + 0x100 * b[at + 1],
        le_number(b, at, 4) == b[at] + 0x100 * b[at + 1] + 0x1_0000 * b[at + 2] + 0x100_0000 * b[at
            + 3],
        le_number(b, at, 8) == le_number(b, at, 4) + 0x1_0000_0000 * le_number(b, at + 4, 4),
{
    reveal_with_fuel(le_number, 9);
}

/// An image is looked into exactly where it begins like a 64-bit little-endian ELF image. A program
/// header in it names an interpreter exactly where its first four bytes hold the number three.
pub proof fn interpreter_is_looked_for_in_the_headers(b: Seq<u8>, i: int)
    requires
        0 <= i,
        b.len() >= 64,
        le_number(b, 32, 8) < 0x8000_0000_0000_0000,
    ensures
        is_elf64_le(b) <==> b.take(6) == seq![0x7fu8, 0x45u8, 0x4cu8, 0x46u8, 2u8, 1u8],
        ({
            let at = le_number(b, 32, 8) + i * (b[54] + 0x100 * b[55]);
            names_interpreter(b, i) <==> at + 4 <= b.len() && b.subrange(at, at + 4) == seq![
                3u8,
                0u8,
                0u8,
                0u8,
            ]
        }),
{
    let head = b.take(6);
    let magic = seq![0x7fu8, 0x45u8, 0x4cu8, 0x46u8, 2u8, 1u8];
    assert(head[0] == b[0] && head[1] == b[1] && head[2] == b[2] && head[3] == b[3] && head[4]
        == b[4] && head[5] == b[5]);
    if is_elf64_le(b) {
        assert(head =~= magic);
    }
    image_numbers_are_little_endian(b, 54);
    let entry = b[54] + 0x100 * b[55];
    assert(i * entry >= 0) by (nonlinear_arith)
        requires
            i >= 0,
            entry >= 0,
    ;
    let at = le_number(b, 32, 8) + i * entry;
    if at + 4 <= b.len() {
        image_numbers_are_little_endian(b, at);
        let four = b.subrange(at, at + 4);
        assert(four[0] == b[at] && four[1] == b[at + 1] && four[2] == b[at + 2] && four[3] == b[at
            + 3]);
        if names_interpreter(b, i) {
            assert(four =~= seq![3u8, 0u8, 0u8, 0u8]);
        }
    }
}

/// Descriptors go along exactly where the successor is this very image and is confined, be it
/// strictly or only by a log.
pub proof fn descriptors_go_along_under_confinement(mode: SandboxMode)
    ensures
        !cap_mode_applies(true, mode),
        !cap_mode_applies(false, SandboxMode::Off),
        cap_mode_applies(false, SandboxMode::Strict),
        cap_mode_applies(false, SandboxMode::Log),
{
}

/// The descriptors that are kept open are the image's and those of the directories that were
/// open, each of them and no other.
pub proof fn every_open_descriptor_is_kept(handoff: CapModeHandoff, fd: i32)
    ensures
        handoff.fds().contains(fd) <==> fd == handoff.self_exe_fd || handoff.sockets_fd == Some(fd)
            || handoff.cert_fd == Some(fd) || handoff.key_fd == Some(fd),
{
    let a = seq![handoff.self_exe_fd];
    let b = and_fd(a, handoff.sockets_fd);
    let c = and_fd(b, handoff.cert_fd);
    lemma_one_more_fd(a, handoff.sockets_fd, fd);
    lemma_one_more_fd(b, handoff.cert_fd, fd);
    lemma_one_more_fd(c, handoff.key_fd, fd);
    assert(a[0] == handoff.self_exe_fd);
}

proof fn lemma_one_more_fd(fds: Seq<i32>, more: Option<i32>, fd: i32)
    ensures
        and_fd(fds, more).contains(fd) <==> fds.contains(fd) || more == Some(fd),
{
    let all = and_fd(fds, more);
    if fds.contains(fd) {
        let k = choose|k: int| 0 <= k < fds.len() && fds[k] == fd;
        assert(all[k] == fd);
    }
    if more == Some(fd) {
        assert(all[fds.len() as int] == fd);
    }
}

/// The offset of the headers is the number in the image, read with a sign: what has the highest
/// bit set lies before the image, where no header is.
pub proof fn header_offset_has_a_sign(b: Seq<u8>)
    ensures
        -0x8000_0000_0000_0000 <= elf_table_offset(b) < 0x8000_0000_0000_0000,
        elf_table_offset(b) >= 0 ==> elf_table_offset(b) == le_number(b, 32, 8),
        elf_table_offset(b) < 0 ==> elf_table_offset(b) + 0x1_0000_0000_0000_0000 == le_number(
            b,
            32,
            8,
        ),
        le_number(b, 32, 8) < 0x8000_0000_0000_0000 <==> elf_table_offset(b) >= 0,
{
    lemma_byte_power();
    lemma_le_bound(b, 32, 8);
}

} // verus!

//! The supervisor's own upgrade: what it hands to its successor, and where listeners come from.

use vstd::prelude::*;

use crate::config::{path_in, socket_file, Config};
use crate::fault_inject::Failure;
use crate::handoff::{
    env_generation, env_lookup, env_pid, generation_in, push_env, ENV_CTRL_ADMIN_FD,
    ENV_CTRL_DRAINER_FD, ENV_CTRL_PLAIN_FD, ENV_CTRL_PROCESSOR_FD, ENV_CTRL_SCANNER_FD,
    ENV_CTRL_SPAWNER_FD, ENV_CTRL_TLS_FD, ENV_LISTENER_PLAIN_FD, ENV_LISTENER_PROCESSOR_FD,
    ENV_LISTENER_SCANNER_FD, ENV_LISTENER_TLS_FD, ENV_PLAIN_GEN, ENV_PLAIN_PID, ENV_PROCESSOR_GEN,
    ENV_PROCESSOR_PID, ENV_READY_FD, ENV_SCANNER_GEN, ENV_SCANNER_PID, ENV_SUP_GENERATION,
    ENV_TLS_GEN, ENV_TLS_PID,
};
use crate::roles::{role_named, WorkerRole};
use crate::systemd::SdListeners;
use crate::text::{
    decimal, decimal_parses_back, decimal_text, fd_text, pair_views, parse_fd, parse_i32,
    parse_upto, same_text, signed_decimal, signed_decimal_parses_back, views,
};

verus! {

/// The workers that run under a supervisor, with their generations. A generation means something
/// only where there is a process.
#[derive(Clone, Copy, Debug, PartialEq, Eq, Structural)]
pub struct AdoptedState {
    pub processor: Option<u32>,
    pub plain: Option<u32>,
    pub tls: Option<u32>,
    pub scanner: Option<u32>,
    pub processor_gen: u64,
    pub plain_gen: u64,
    pub tls_gen: u64,
    pub scanner_gen: u64,
}

/// The descriptors that outlive a supervisor: its own sockets and its workers' listeners.
#[derive(Clone, Copy, Debug, PartialEq, Eq, Structural)]
pub struct ControlFds {
    pub admin: i32,
    pub processor_ctrl: i32,
    pub plain_ctrl: i32,
    pub tls_ctrl: i32,
    pub scanner_ctrl: i32,
    pub drainer: i32,
    pub spawner: i32,
    pub processor_listener: i32,
    pub plain_listener: i32,
    pub tls_listener: i32,
    pub scanner_listener: i32,
}

/// The list with one more variable.
pub open spec fn put(
    p: Seq<(Seq<char>, Seq<char>)>,
    name: Seq<char>,
    value: Seq<char>,
) -> Seq<(Seq<char>, Seq<char>)> {
    p.push((name, value))
}

/// The list with a worker's process and generation, if there is a process.
pub open spec fn put_worker(
    p: Seq<(Seq<char>, Seq<char>)>,
    pid_name: Seq<char>,
    gen_name: Seq<char>,
    pid: Option<u32>,
    generation: u64,
) -> Seq<(Seq<char>, Seq<char>)> {
    match pid {
        Some(n) => put(
            put(p, pid_name, decimal(n as nat)),
            gen_name,
            decimal(generation as nat),
        ),
        None => p,
    }
}

/// The variables for the descriptors.
pub open spec fn fd_pairs(fds: ControlFds) -> Seq<(Seq<char>, Seq<char>)> {
    let a = put(seq![], ENV_CTRL_ADMIN_FD@, signed_decimal(fds.admin as int));
    let b = put(a, ENV_CTRL_PROCESSOR_FD@, signed_decimal(fds.processor_ctrl as int));
    let c = put(b, ENV_CTRL_PLAIN_FD@, signed_decimal(fds.plain_ctrl as int));
    let d = put(c, ENV_CTRL_TLS_FD@, signed_decimal(fds.tls_ctrl as int));
    let e = put(d, ENV_CTRL_SCANNER_FD@, signed_decimal(fds.scanner_ctrl as int));
    let f = put(e, ENV_CTRL_DRAINER_FD@, signed_decimal(fds.drainer as int));
    let g = put(f, ENV_CTRL_SPAWNER_FD@, signed_decimal(fds.spawner as int));
    let h = put(g, ENV_LISTENER_PROCESSOR_FD@, signed_decimal(fds.processor_listener as int));
    let i = put(h, ENV_LISTENER_PLAIN_FD@, signed_decimal(fds.plain_listener as int));
    let j = put(i, ENV_LISTENER_TLS_FD@, signed_decimal(fds.tls_listener as int));
    put(j, ENV_LISTENER_SCANNER_FD@, signed_decimal(fds.scanner_listener as int))
}

/// The variables for the workers.
pub open spec fn worker_pairs(
    p: Seq<(Seq<char>, Seq<char>)>,
    pids: AdoptedState,
) -> Seq<(Seq<char>, Seq<char>)> {
    let a = put_worker(
        p,
        ENV_PROCESSOR_PID@,
        ENV_PROCESSOR_GEN@,
        pids.processor,
        pids.processor_gen,
    );
    let b = put_worker(a, ENV_PLAIN_PID@, ENV_PLAIN_GEN@, pids.plain, pids.plain_gen);
    let c = put_worker(b, ENV_TLS_PID@, ENV_TLS_GEN@, pids.tls, pids.tls_gen);
    put_worker(c, ENV_SCANNER_PID@, ENV_SCANNER_GEN@, pids.scanner, pids.scanner_gen)
}

/// Everything that a supervisor of `generation` tells its successor.
pub open spec fn self_upgrade_pairs(
    fds: ControlFds,
    pids: AdoptedState,
    generation: u64,
    ready_fd: i32,
) -> Seq<(Seq<char>, Seq<char>)> {
    put(
        put(
            worker_pairs(fd_pairs(fds), pids),
            ENV_SUP_GENERATION@,
            decimal((generation + 1) as nat),
        ),
        ENV_READY_FD@,
        signed_decimal(ready_fd as int),
    )
}

fn push_worker(
    env: &mut Vec<(String, String)>,
    pid_name: &str,
    gen_name: &str,
    pid: Option<u32>,
    generation: u64,
)
    ensures
        pair_views(final(env)@) == put_worker(
            pair_views(old(env)@),
            pid_name@,
            gen_name@,
            pid,
            generation,
        ),
{
    if let Some(n) = pid {
        push_env(env, pid_name, decimal_text(n as u64));
        push_env(env, gen_name, decimal_text(generation));
    }
}

/// Environment that a supervisor of `generation` sets on its successor.
pub fn self_upgrade_env(
    fds: &ControlFds,
    pids: &AdoptedState,
    generation: u64,
    ready_fd: i32,
) -> (env: Vec<(String, String)>)
    requires
        generation < u64::MAX,
    ensures
        pair_views(env@) == self_upgrade_pairs(*fds, *pids, generation, ready_fd),
{
    let mut env: Vec<(String, String)> = Vec::new();
    proof {
        assert(pair_views(env@) =~= seq![]);
    }
    push_env(&mut env, ENV_CTRL_ADMIN_FD, fd_text(fds.admin));
    push_env(&mut env, ENV_CTRL_PROCESSOR_FD, fd_text(fds.processor_ctrl));
    push_env(&mut env, ENV_CTRL_PLAIN_FD, fd_text(fds.plain_ctrl));
    push_env(&mut env, ENV_CTRL_TLS_FD, fd_text(fds.tls_ctrl));
    push_env(&mut env, ENV_CTRL_SCANNER_FD, fd_text(fds.scanner_ctrl));
    push_env(&mut env, ENV_CTRL_DRAINER_FD, fd_text(fds.drainer));
    push_env(&mut env, ENV_CTRL_SPAWNER_FD, fd_text(fds.spawner));
    push_env(&mut env, ENV_LISTENER_PROCESSOR_FD, fd_text(fds.processor_listener));
    push_env(&mut env, ENV_LISTENER_PLAIN_FD, fd_text(fds.plain_listener));
    push_env(&mut env, ENV_LISTENER_TLS_FD, fd_text(fds.tls_listener));
    push_env(&mut env, ENV_LISTENER_SCANNER_FD, fd_text(fds.scanner_listener));
    push_worker(
        &mut env,
        ENV_PROCESSOR_PID,
        ENV_PROCESSOR_GEN,
        pids.processor,
        pids.processor_gen,
    );
    push_worker(&mut env, ENV_PLAIN_PID, ENV_PLAIN_GEN, pids.plain, pids.plain_gen);
    push_worker(&mut env, ENV_TLS_PID, ENV_TLS_GEN, pids.tls, pids.tls_gen);
    push_worker(&mut env, ENV_SCANNER_PID, ENV_SCANNER_GEN, pids.scanner, pids.scanner_gen);
    push_env(&mut env, ENV_SUP_GENERATION, decimal_text(generation + 1));
    push_env(&mut env, ENV_READY_FD, fd_text(ready_fd));
    env
}

/// The process id that a variable holds.
pub open spec fn pid_in(value: Option<Seq<char>>) -> Option<u32> {
    match value {
        Some(v) => match parse_upto(v, u32::MAX as nat) {
            Some(n) => Some(n as u32),
            None => None,
        },
        None => None,
    }
}

/// The workers that an environment tells of.
pub open spec fn adopted_in(env: Seq<(Seq<char>, Seq<char>)>) -> AdoptedState {
    AdoptedState {
        processor: pid_in(env_lookup(env, ENV_PROCESSOR_PID@)),
        plain: pid_in(env_lookup(env, ENV_PLAIN_PID@)),
        tls: pid_in(env_lookup(env, ENV_TLS_PID@)),
        scanner: pid_in(env_lookup(env, ENV_SCANNER_PID@)),
        processor_gen: generation_in(env_lookup(env, ENV_PROCESSOR_GEN@)),
        plain_gen: generation_in(env_lookup(env, ENV_PLAIN_GEN@)),
        tls_gen: generation_in(env_lookup(env, ENV_TLS_GEN@)),
        scanner_gen: generation_in(env_lookup(env, ENV_SCANNER_GEN@)),
    }
}

/// What a list of variables sets `name` to.
pub fn env_value<'a>(env: &'a Vec<(String, String)>, name: &str) -> (r: Option<&'a str>)
    ensures
        match r {
            Some(v) => env_lookup(pair_views(env@), name@) == Some(v@),
            None => env_lookup(pair_views(env@), name@) is None,
        },
{
    let mut i: usize = env.len();
    proof {
        assert(pair_views(env@).take(i as int) =~= pair_views(env@));
    }
    while i > 0
        invariant
            i <= env@.len(),
            env_lookup(pair_views(env@).take(i as int), name@) == env_lookup(
                pair_views(env@),
                name@,
            ),
        decreases i,
    {
        proof {
            let t = pair_views(env@).take(i as int);
            assert(t.drop_last() =~= pair_views(env@).take(i - 1));
            assert(t.last() == (env@[i - 1].0@, env@[i - 1].1@));
        }
        i = i - 1;
        if same_text(env[i].0.as_str(), name) {
            return Some(env[i].1.as_str());
        }
    }
    None
}

impl AdoptedState {
    /// Reads the workers from the environment.
    pub fn from_env(env: &Vec<(String, String)>) -> (s: Self)
        ensures
            s == adopted_in(pair_views(env@)),
    {
        AdoptedState {
            processor: env_pid(env_value(env, ENV_PROCESSOR_PID)),
            plain: env_pid(env_value(env, ENV_PLAIN_PID)),
            tls: env_pid(env_value(env, ENV_TLS_PID)),
            scanner: env_pid(env_value(env, ENV_SCANNER_PID)),
            processor_gen: env_generation(env_value(env, ENV_PROCESSOR_GEN)),
            plain_gen: env_generation(env_value(env, ENV_PLAIN_GEN)),
            tls_gen: env_generation(env_value(env, ENV_TLS_GEN)),
            scanner_gen: env_generation(env_value(env, ENV_SCANNER_GEN)),
        }
    }

    /// The same workers, with generation zero where there is none.
    pub open spec fn settled(self) -> AdoptedState {
        AdoptedState {
            processor_gen: (if self.processor is Some {
                self.processor_gen
            } else {
                0
            }),
            plain_gen: (if self.plain is Some {
                self.plain_gen
            } else {
                0
            }),
            tls_gen: (if self.tls is Some {
                self.tls_gen
            } else {
                0
            }),
            scanner_gen: (if self.scanner is Some {
                self.scanner_gen
            } else {
                0
            }),
            ..self
        }
    }
}

/// What is known of one worker: its process, and the generation that it last reported.
#[derive(Clone, Copy, Debug, PartialEq, Eq, Structural)]
pub struct WorkerSlot {
    pub pid: Option<u32>,
    pub last_generation: Option<u64>,
}

impl WorkerSlot {
    /// The last report, or zero.
    pub open spec fn generation(self) -> u64 {
        match self.last_generation {
            Some(g) => g,
            None => 0,
        }
    }

    fn generation_or_zero(&self) -> (g: u64)
        ensures
            g == self.generation(),
    {
        match self.last_generation {
            Some(g) => g,
            None => 0,
        }
    }
}

/// The running workers as they are handed to a successor.
pub fn snapshot_workers(
    processor: WorkerSlot,
    plain: WorkerSlot,
    tls: WorkerSlot,
    scanner: WorkerSlot,
) -> (s: AdoptedState)
    ensures
        s == (AdoptedState {
            processor: processor.pid,
            plain: plain.pid,
            tls: tls.pid,
            scanner: scanner.pid,
            processor_gen: processor.generation(),
            plain_gen: plain.generation(),
            tls_gen: tls.generation(),
            scanner_gen: scanner.generation(),
        }),
{
    AdoptedState {
        processor: processor.pid,
        plain: plain.pid,
        tls: tls.pid,
        scanner: scanner.pid,
        processor_gen: processor.generation_or_zero(),
        plain_gen: plain.generation_or_zero(),
        tls_gen: tls.generation_or_zero(),
        scanner_gen: scanner.generation_or_zero(),
    }
}

/// Whether a hangup starts an upgrade of the supervisor. Under a grandparent it must not: the exit
/// of the old supervisor would make the grandparent kill the new one.
pub fn hangup_upgrades(under_grandparent: bool) -> (r: bool)
    ensures
        r == !under_grandparent,
{
    !under_grandparent
}

/// The supervisor's socket files.
#[derive(Debug)]
pub struct SupervisorPaths {
    pub processor_sock: String,
    pub scanner_sock: String,
    pub admin_sock: String,
    pub drainer_sock: String,
    pub ctrl_processor: String,
    pub ctrl_plain: String,
    pub ctrl_tls: String,
    pub ctrl_scanner: String,
    pub spawner_sock: String,
}

impl SupervisorPaths {
    pub fn from_config(config: &Config) -> (p: Self)
        ensures
            p.processor_sock@ == path_in(config.sockets_dir@, socket_file("proc"@)),
            p.scanner_sock@ == path_in(config.sockets_dir@, socket_file("scanner"@)),
            p.admin_sock@ == path_in(config.sockets_dir@, socket_file("admin"@)),
            p.drainer_sock@ == path_in(config.sockets_dir@, socket_file("drainer"@)),
            p.ctrl_processor@ == path_in(
                config.sockets_dir@,
                socket_file("ctrl-"@ + "processor"@),
            ),
            p.ctrl_plain@ == path_in(config.sockets_dir@, socket_file("ctrl-"@ + "plain"@)),
            p.ctrl_tls@ == path_in(config.sockets_dir@, socket_file("ctrl-"@ + "tls"@)),
            p.ctrl_scanner@ == path_in(config.sockets_dir@, socket_file("ctrl-"@ + "scanner"@)),
            p.spawner_sock@ == path_in(config.sockets_dir@, socket_file("spawner"@)),
    {
        SupervisorPaths {
            processor_sock: config.processor_sock(),
            scanner_sock: config.scanner_sock(),
            admin_sock: config.admin_sock(),
            drainer_sock: config.drainer_sock(),
            ctrl_processor: config.control_sock("processor"),
            ctrl_plain: config.control_sock("plain"),
            ctrl_tls: config.control_sock("tls"),
            ctrl_scanner: config.control_sock("scanner"),
            spawner_sock: config.spawner_sock(),
        }
    }

    /// Every file that is removed at shutdown.
    pub fn cleanup_list(self) -> (v: Vec<String>)
        ensures
            views(v@) == seq![
                self.admin_sock@,
                self.ctrl_processor@,
                self.ctrl_plain@,
                self.ctrl_tls@,
                self.ctrl_scanner@,
                self.drainer_sock@,
                self.spawner_sock@,
                self.processor_sock@,
                self.scanner_sock@,
            ],
    {
        let v: Vec<String> = vec![
            self.admin_sock,
            self.ctrl_processor,
            self.ctrl_plain,
            self.ctrl_tls,
            self.ctrl_scanner,
            self.drainer_sock,
            self.spawner_sock,
            self.processor_sock,
            self.scanner_sock,
        ];
        proof {
            assert(views(v@) =~= seq![
                self.admin_sock@,
                self.ctrl_processor@,
                self.ctrl_plain@,
                self.ctrl_tls@,
                self.ctrl_scanner@,
                self.drainer_sock@,
                self.spawner_sock@,
                self.processor_sock@,
                self.scanner_sock@,
            ]);
        }
        v
    }
}

/// Where a listener comes from.
#[derive(Clone, Copy, Debug, PartialEq, Eq, Structural)]
pub enum ListenerSource {
    /// The service manager handed it over.
    Activated(i32),
    /// The supervisor before this one handed it over.
    Inherited(i32),
    /// It is bound anew; a socket file that is left from before goes first.
    Bind { unlink: bool },
}

/// Decides where a listener comes from: the service manager, the environment, or a new bind, in
/// this order. A variable that holds no descriptor number is an error, reported under its name.
pub fn listener_source(
    sd: &mut SdListeners,
    sd_name: &str,
    env_key: &str,
    env_value: Option<&str>,
    is_upgrade: bool,
) -> (r: Result<ListenerSource, Failure>)
    ensures
        match r {
            Ok(ListenerSource::Activated(fd)) => exists|i: int|
                {
                    &&& 0 <= i < old(sd)@.len()
                    &&& (#[trigger] old(sd)@[i]) == (sd_name@, fd)
                    &&& forall|j: int| 0 <= j < i ==> (#[trigger] old(sd)@[j]).0 != sd_name@
                    &&& final(sd)@ == old(sd)@.remove(i)
                },
            _ => {
                &&& final(sd)@ == old(sd)@
                &&& forall|j: int|
                    0 <= j < old(sd)@.len() ==> (#[trigger] old(sd)@[j]).0 != sd_name@
                &&& match env_value {
                    Some(v) => match parse_fd(v@) {
                        Some(fd) => r == Ok::<ListenerSource, Failure>(
                            ListenerSource::Inherited(fd),
                        ),
                        None => r is Err && r->Err_0.shown() == env_key@,
                    },
                    None => r == Ok::<ListenerSource, Failure>(
                        ListenerSource::Bind { unlink: !is_upgrade },
                    ),
                }
            },
        },
{
    if let Some(fd) = sd.take_by_name(sd_name) {
        return Ok(ListenerSource::Activated(fd));
    }
    match env_value {
        Some(v) => match parse_i32(v) {
            Some(fd) => Ok(ListenerSource::Inherited(fd)),
            None => Err(Failure::new("invalid descriptor number").context(env_key)),
        },
        None => Ok(ListenerSource::Bind { unlink: !is_upgrade }),
    }
}

/// Number of listeners that a supervisor holds.
pub const LISTENERS: usize = 11;

/// Where a listener is bound.
#[derive(Debug)]
pub enum Place {
    /// A Unix socket file.
    Path(String),
    /// A TCP port on the loopback interface.
    Port(u16),
}

/// One listener of the supervisor: the variable and the activation name under which it may be
/// handed over, and where it is bound otherwise.
#[derive(Debug)]
pub struct ListenerSpec {
    pub env_key: &'static str,
    pub sd_name: &'static str,
    pub place: Place,
    /// The socket file is for its owner alone.
    pub owner_only: bool,
}

/// The variable of the `i`th listener.
pub open spec fn slot_key(i: int) -> Seq<char> {
    if i == 0 {
        ENV_CTRL_ADMIN_FD@
    } else if i == 1 {
        ENV_CTRL_PROCESSOR_FD@
    } else if i == 2 {
        ENV_CTRL_PLAIN_FD@
    } else if i == 3 {
        ENV_CTRL_TLS_FD@
    } else if i == 4 {
        ENV_CTRL_SCANNER_FD@
    } else if i == 5 {
        ENV_CTRL_DRAINER_FD@
    } else if i == 6 {
        ENV_CTRL_SPAWNER_FD@
    } else if i == 7 {
        ENV_LISTENER_PROCESSOR_FD@
    } else if i == 8 {
        ENV_LISTENER_SCANNER_FD@
    } else if i == 9 {
        ENV_LISTENER_PLAIN_FD@
    } else {
        ENV_LISTENER_TLS_FD@
    }
}

/// The activation name of the `i`th listener.
pub open spec fn slot_name(i: int) -> Seq<char> {
    if i == 0 {
        "admin"@
    } else if i == 1 {
        "ctrl-processor"@
    } else if i == 2 {
        "ctrl-plain"@
    } else if i == 3 {
        "ctrl-tls"@
    } else if i == 4 {
        "ctrl-scanner"@
    } else if i == 5 {
        "drainer"@
    } else if i == 6 {
        "spawner"@
    } else if i == 7 {
        "processor"@
    } else if i == 8 {
        "scanner"@
    } else if i == 9 {
        "plain"@
    } else {
        "tls"@
    }
}

/// The socket file of the `i`th listener is for its owner alone: those at which the processor and
/// the scanner serve the other workers.
pub open spec fn slot_owner_only(i: int) -> bool {
    i == 7 || i == 8
}

/// `place` is where the `i`th listener is bound.
pub open spec fn slot_place(
    paths: SupervisorPaths,
    plain_port: u16,
    tls_port: u16,
    i: int,
    place: Place,
) -> bool {
    match place {
        Place::Path(p) => 0 <= i < 9 && p@ == (if i == 0 {
            paths.admin_sock@
        } else if i == 1 {
            paths.ctrl_processor@
        } else if i == 2 {
            paths.ctrl_plain@
        } else if i == 3 {
            paths.ctrl_tls@
        } else if i == 4 {
            paths.ctrl_scanner@
        } else if i == 5 {
            paths.drainer_sock@
        } else if i == 6 {
            paths.spawner_sock@
        } else if i == 7 {
            paths.processor_sock@
        } else {
            paths.scanner_sock@
        }),
        Place::Port(p) => i == 9 && p == plain_port || i == 10 && p == tls_port,
    }
}

/// The descriptor of the `i`th listener.
pub open spec fn slot_fd(fds: ControlFds, i: int) -> i32 {
    if i == 0 {
        fds.admin
    } else if i == 1 {
        fds.processor_ctrl
    } else if i == 2 {
        fds.plain_ctrl
    } else if i == 3 {
        fds.tls_ctrl
    } else if i == 4 {
        fds.scanner_ctrl
    } else if i == 5 {
        fds.drainer
    } else if i == 6 {
        fds.spawner
    } else if i == 7 {
        fds.processor_listener
    } else if i == 8 {
        fds.scanner_listener
    } else if i == 9 {
        fds.plain_listener
    } else {
        fds.tls_listener
    }
}

fn path_spec(
    env_key: &'static str,
    sd_name: &'static str,
    path: &String,
    owner_only: bool,
) -> (l: ListenerSpec)
    ensures
        l.env_key@ == env_key@,
        l.sd_name@ == sd_name@,
        l.owner_only == owner_only,
        l.place matches Place::Path(p) && p@ == path@,
{
    ListenerSpec { env_key, sd_name, place: Place::Path(path.clone()), owner_only }
}

/// Every listener of the supervisor, in the order in which they are opened.
pub fn open_supervisor_listeners(
    paths: &SupervisorPaths,
    plain_port: u16,
    tls_port: u16,
) -> (v: Vec<ListenerSpec>)
    ensures
        v@.len() == LISTENERS,
        forall|i: int|
            0 <= i < LISTENERS ==> {
                &&& (#[trigger] v@[i]).env_key@ == slot_key(i)
                &&& v@[i].sd_name@ == slot_name(i)
                &&& slot_place(*paths, plain_port, tls_port, i, v@[i].place)
                &&& v@[i].owner_only == slot_owner_only(i)
            },
{
    vec![
        path_spec(ENV_CTRL_ADMIN_FD, "admin", &paths.admin_sock, false),
        path_spec(ENV_CTRL_PROCESSOR_FD, "ctrl-processor", &paths.ctrl_processor, false),
        path_spec(ENV_CTRL_PLAIN_FD, "ctrl-plain", &paths.ctrl_plain, false),
        path_spec(ENV_CTRL_TLS_FD, "ctrl-tls", &paths.ctrl_tls, false),
        path_spec(ENV_CTRL_SCANNER_FD, "ctrl-scanner", &paths.ctrl_scanner, false),
        path_spec(ENV_CTRL_DRAINER_FD, "drainer", &paths.drainer_sock, false),
        path_spec(ENV_CTRL_SPAWNER_FD, "spawner", &paths.spawner_sock, false),
        path_spec(ENV_LISTENER_PROCESSOR_FD, "processor", &paths.processor_sock, true),
        path_spec(ENV_LISTENER_SCANNER_FD, "scanner", &paths.scanner_sock, true),
        ListenerSpec {
            env_key: ENV_LISTENER_PLAIN_FD,
            sd_name: "plain",
            place: Place::Port(plain_port),
            owner_only: false,
        },
        ListenerSpec {
            env_key: ENV_LISTENER_TLS_FD,
            sd_name: "tls",
            place: Place::Port(tls_port),
            owner_only: false,
        },
    ]
}

impl ControlFds {
    /// The descriptors of the listeners, given in the order in which they were opened.
    pub fn from_opened(opened: &Vec<i32>) -> (fds: Self)
        requires
            opened@.len() == LISTENERS,
        ensures
            forall|i: int| 0 <= i < LISTENERS ==> slot_fd(fds, i) == #[trigger] opened@[i],
    {
        ControlFds {
            admin: opened[0],
            processor_ctrl: opened[1],
            plain_ctrl: opened[2],
            tls_ctrl: opened[3],
            scanner_ctrl: opened[4],
            drainer: opened[5],
            spawner: opened[6],
            processor_listener: opened[7],
            scanner_listener: opened[8],
            plain_listener: opened[9],
            tls_listener: opened[10],
        }
    }
}

/// The descriptors that a new supervisor inherits, each with the label under which a failure to
/// pass it on is reported.
pub open spec fn kept_open(fds: ControlFds) -> Seq<(i32, Seq<char>)> {
    seq![
        (fds.admin, "ctrl-admin"@),
        (fds.processor_ctrl, "ctrl-processor"@),
        (fds.plain_ctrl, "ctrl-plain"@),
        (fds.tls_ctrl, "ctrl-tls"@),
        (fds.scanner_ctrl, "ctrl-scanner"@),
        (fds.drainer, "ctrl-drainer"@),
        (fds.spawner, "ctrl-spawner"@),
        (fds.processor_listener, "listener-processor"@),
        (fds.plain_listener, "listener-plain"@),
        (fds.tls_listener, "listener-tls"@),
        (fds.scanner_listener, "listener-scanner"@),
    ]
}

/// The labels as characters.
pub open spec fn labelled(v: Seq<(i32, &'static str)>) -> Seq<(i32, Seq<char>)> {
    Seq::new(v.len(), |i: int| (v[i].0, v[i].1@))
}

impl ControlFds {
    /// What has to stay open when a new supervisor is started.
    pub fn to_inherit(&self) -> (v: Vec<(i32, &'static str)>)
        ensures
            labelled(v@) == kept_open(*self),
    {
        let v: Vec<(i32, &'static str)> = vec![
            (self.admin, "ctrl-admin"),
            (self.processor_ctrl, "ctrl-processor"),
            (self.plain_ctrl, "ctrl-plain"),
            (self.tls_ctrl, "ctrl-tls"),
            (self.scanner_ctrl, "ctrl-scanner"),
            (self.drainer, "ctrl-drainer"),
            (self.spawner, "ctrl-spawner"),
            (self.processor_listener, "listener-processor"),
            (self.plain_listener, "listener-plain"),
            (self.tls_listener, "listener-tls"),
            (self.scanner_listener, "listener-scanner"),
        ];
        proof {
            assert(labelled(v@) =~= kept_open(*self));
        }
        v
    }
}

/// The workers' listeners.
#[derive(Clone, Copy, Debug, PartialEq, Eq, Structural)]
pub struct SpawnerFds {
    pub processor: i32,
    pub plain: i32,
    pub tls: i32,
    pub scanner: i32,
}

/// What a worker that asks for its listener gets.
#[derive(Debug)]
pub enum SpawnReply {
    Listener(i32),
    Refusal(String),
}

/// Decides what a worker of that name gets.
pub fn handle_spawn_request(role: &str, fds: &SpawnerFds) -> (r: SpawnReply)
    ensures
        match role_named(role@) {
            Some(WorkerRole::Processor) => r == SpawnReply::Listener(fds.processor),
            Some(WorkerRole::Plain) => r == SpawnReply::Listener(fds.plain),
            Some(WorkerRole::Tls) => r == SpawnReply::Listener(fds.tls),
            Some(WorkerRole::Scanner) => r == SpawnReply::Listener(fds.scanner),
            None => r is Refusal && r->Refusal_0@ == "err: unknown role "@ + role@ + "\n"@,
        },
{
    match WorkerRole::named(role) {
        Some(WorkerRole::Processor) => SpawnReply::Listener(fds.processor),
        Some(WorkerRole::Plain) => SpawnReply::Listener(fds.plain),
        Some(WorkerRole::Tls) => SpawnReply::Listener(fds.tls),
        Some(WorkerRole::Scanner) => SpawnReply::Listener(fds.scanner),
        None => {
            let mut s = "err: unknown role ".to_owned();
            s.append(role);
            s.append("\n");
            SpawnReply::Refusal(s)
        },
    }
}

// Laws
broadcast proof fn lemma_lookup_put(
    p: Seq<(Seq<char>, Seq<char>)>,
    k: Seq<char>,
    v: Seq<char>,
    name: Seq<char>,
)
    ensures
        #[trigger] env_lookup(put(p, k, v), name) == (if k == name {
            Some(v)
        } else {
            env_lookup(p, name)
        }),
{
    assert(put(p, k, v).drop_last() =~= p);
}

/// What tells the variables apart.
spec fn mark(s: Seq<char>) -> (nat, char, char) {
    (s.len(), s[13], s[s.len() - 1])
}

proof fn lemma_marks()
    ensures
        mark(ENV_CTRL_ADMIN_FD@) == (20nat, 'D', 'D'),
        mark(ENV_CTRL_PROCESSOR_FD@) == (24nat, 'R', 'D'),
        mark(ENV_CTRL_PLAIN_FD@) == (20nat, 'L', 'D'),
        mark(ENV_CTRL_TLS_FD@) == (18nat, 'L', 'D'),
        mark(ENV_CTRL_SCANNER_FD@) == (22nat, 'C', 'D'),
        mark(ENV_CTRL_DRAINER_FD@) == (22nat, 'R', 'D'),
        mark(ENV_CTRL_SPAWNER_FD@) == (22nat, 'P', 'D'),
        mark(ENV_LISTENER_PROCESSOR_FD@) == (28nat, 'E', 'D'),
        mark(ENV_LISTENER_PLAIN_FD@) == (24nat, 'E', 'D'),
        mark(ENV_LISTENER_TLS_FD@) == (22nat, 'E', 'D'),
        mark(ENV_LISTENER_SCANNER_FD@) == (26nat, 'E', 'D'),
        mark(ENV_PROCESSOR_PID@) == (20nat, 'S', 'D'),
        mark(ENV_PROCESSOR_GEN@) == (20nat, 'S', 'N'),
        mark(ENV_PLAIN_PID@) == (16nat, 'P', 'D'),
        mark(ENV_PLAIN_GEN@) == (16nat, 'G', 'N'),
        mark(ENV_TLS_PID@) == (14nat, 'D', 'D'),
        mark(ENV_TLS_GEN@) == (14nat, 'N', 'N'),
        mark(ENV_SCANNER_PID@) == (18nat, 'R', 'D'),
        mark(ENV_SCANNER_GEN@) == (18nat, 'R', 'N'),
        mark(ENV_SUP_GENERATION@) == (21nat, 'N', 'N'),
        mark(ENV_READY_FD@) == (15nat, 'F', 'D'),
{
    reveal_strlit("FDPASS_CTRL_ADMIN_FD");
    reveal_strlit("FDPASS_CTRL_PROCESSOR_FD");
    reveal_strlit("FDPASS_CTRL_PLAIN_FD");
    reveal_strlit("FDPASS_CTRL_TLS_FD");
    reveal_strlit("FDPASS_CTRL_SCANNER_FD");
    reveal_strlit("FDPASS_CTRL_DRAINER_FD");
    reveal_strlit("FDPASS_CTRL_SPAWNER_FD");
    reveal_strlit("FDPASS_LISTENER_PROCESSOR_FD");
    reveal_strlit("FDPASS_LISTENER_PLAIN_FD");
    reveal_strlit("FDPASS_LISTENER_TLS_FD");
    reveal_strlit("FDPASS_LISTENER_SCANNER_FD");
    reveal_strlit("FDPASS_PROCESSOR_PID");
    reveal_strlit("FDPASS_PROCESSOR_GEN");
    reveal_strlit("FDPASS_PLAIN_PID");
    reveal_strlit("FDPASS_PLAIN_GEN");
    reveal_strlit("FDPASS_TLS_PID");
    reveal_strlit("FDPASS_TLS_GEN");
    reveal_strlit("FDPASS_SCANNER_PID");
    reveal_strlit("FDPASS_SCANNER_GEN");
    reveal_strlit("FDPASS_SUP_GENERATION");
    reveal_strlit("FDPASS_READY_FD");
}

proof fn lemma_lookup_worker(
    p: Seq<(Seq<char>, Seq<char>)>,
    pid_name: Seq<char>,
    gen_name: Seq<char>,
    pid: Option<u32>,
    generation: u64,
    name: Seq<char>,
)
    requires
        pid_name != gen_name,
    ensures
        name != pid_name && name != gen_name ==> env_lookup(
            put_worker(p, pid_name, gen_name, pid, generation),
            name,
        ) == env_lookup(p, name),
        name == pid_name ==> env_lookup(put_worker(p, pid_name, gen_name, pid, generation), name)
            == (match pid {
            Some(n) => Some(decimal(n as nat)),
            None => env_lookup(p, name),
        }),
        name == gen_name ==> env_lookup(put_worker(p, pid_name, gen_name, pid, generation), name)
            == (match pid {
            Some(n) => Some(decimal(generation as nat)),
            None => env_lookup(p, name),
        }),
{
    broadcast use lemma_lookup_put;

}

proof fn lemma_fds_tell_no_worker(fds: ControlFds, name: Seq<char>)
    requires
        mark(name).0 == 20 && mark(name).1 == 'S' || mark(name).0 == 16 || mark(name).0 == 14
            || mark(name).0 == 18 && mark(name).1 == 'R',
    ensures
        env_lookup(fd_pairs(fds), name) is None,
{
    broadcast use lemma_lookup_put;

    lemma_marks();
}

/// One worker's variables, looked up in the whole list.
proof fn lemma_worker_reads_back(
    fds: ControlFds,
    pids: AdoptedState,
    generation: u64,
    ready_fd: i32,
    name: Seq<char>,
)
    requires
        mark(name).0 == 20 && mark(name).1 == 'S' || mark(name).0 == 16 || mark(name).0 == 14
            || mark(name).0 == 18 && mark(name).1 == 'R',
    ensures
        env_lookup(self_upgrade_pairs(fds, pids, generation, ready_fd), name) == ({
            if name == ENV_PROCESSOR_PID@ {
                worker_pid_text(pids.processor)
            } else if name == ENV_PROCESSOR_GEN@ {
                worker_gen_text(pids.processor, pids.processor_gen)
            } else if name == ENV_PLAIN_PID@ {
                worker_pid_text(pids.plain)
            } else if name == ENV_PLAIN_GEN@ {
                worker_gen_text(pids.plain, pids.plain_gen)
            } else if name == ENV_TLS_PID@ {
                worker_pid_text(pids.tls)
            } else if name == ENV_TLS_GEN@ {
                worker_gen_text(pids.tls, pids.tls_gen)
            } else if name == ENV_SCANNER_PID@ {
                worker_pid_text(pids.scanner)
            } else if name == ENV_SCANNER_GEN@ {
                worker_gen_text(pids.scanner, pids.scanner_gen)
            } else {
                None
            }
        }),
{
    lemma_marks();
    lemma_fds_tell_no_worker(fds, name);
    let p = fd_pairs(fds);
    let a = put_worker(
        p,
        ENV_PROCESSOR_PID@,
        ENV_PROCESSOR_GEN@,
        pids.processor,
        pids.processor_gen,
    );
    let b = put_worker(a, ENV_PLAIN_PID@, ENV_PLAIN_GEN@, pids.plain, pids.plain_gen);
    let c = put_worker(b, ENV_TLS_PID@, ENV_TLS_GEN@, pids.tls, pids.tls_gen);
    let d = put_worker(c, ENV_SCANNER_PID@, ENV_SCANNER_GEN@, pids.scanner, pids.scanner_gen);
    lemma_lookup_worker(
        p,
        ENV_PROCESSOR_PID@,
        ENV_PROCESSOR_GEN@,
        pids.processor,
        pids.processor_gen,
        name,
    );
    lemma_lookup_worker(a, ENV_PLAIN_PID@, ENV_PLAIN_GEN@, pids.plain, pids.plain_gen, name);
    lemma_lookup_worker(b, ENV_TLS_PID@, ENV_TLS_GEN@, pids.tls, pids.tls_gen, name);
    lemma_lookup_worker(
        c,
        ENV_SCANNER_PID@,
        ENV_SCANNER_GEN@,
        pids.scanner,
        pids.scanner_gen,
        name,
    );
    let e = put(d, ENV_SUP_GENERATION@, decimal((generation + 1) as nat));
    lemma_lookup_put(d, ENV_SUP_GENERATION@, decimal((generation + 1) as nat), name);
    lemma_lookup_put(e, ENV_READY_FD@, signed_decimal(ready_fd as int), name);
}

spec fn worker_pid_text(pid: Option<u32>) -> Option<Seq<char>> {
    match pid {
        Some(n) => Some(decimal(n as nat)),
        None => None,
    }
}

spec fn worker_gen_text(pid: Option<u32>, generation: u64) -> Option<Seq<char>> {
    match pid {
        Some(_) => Some(decimal(generation as nat)),
        None => None,
    }
}

/// A new supervisor takes over exactly the workers that the old one ran, each with the generation
/// that it had, and its own generation is one higher.
pub proof fn successor_adopts_the_same_workers(
    fds: ControlFds,
    pids: AdoptedState,
    generation: u64,
    ready_fd: i32,
)
    requires
        generation < u64::MAX,
    ensures
        adopted_in(self_upgrade_pairs(fds, pids, generation, ready_fd)) == pids.settled(),
        generation_in(
            env_lookup(
                self_upgrade_pairs(fds, pids, generation, ready_fd),
                ENV_SUP_GENERATION@,
            ),
        ) == generation + 1,
{
    lemma_marks();
    lemma_worker_reads_back(fds, pids, generation, ready_fd, ENV_PROCESSOR_PID@);
    lemma_worker_reads_back(fds, pids, generation, ready_fd, ENV_PROCESSOR_GEN@);
    lemma_worker_reads_back(fds, pids, generation, ready_fd, ENV_PLAIN_PID@);
    lemma_worker_reads_back(fds, pids, generation, ready_fd, ENV_PLAIN_GEN@);
    lemma_worker_reads_back(fds, pids, generation, ready_fd, ENV_TLS_PID@);
    lemma_worker_reads_back(fds, pids, generation, ready_fd, ENV_TLS_GEN@);
    lemma_worker_reads_back(fds, pids, generation, ready_fd, ENV_SCANNER_PID@);
    lemma_worker_reads_back(fds, pids, generation, ready_fd, ENV_SCANNER_GEN@);
    let d = worker_pairs(fd_pairs(fds), pids);
    let e = put(d, ENV_SUP_GENERATION@, decimal((generation + 1) as nat));
    lemma_lookup_put(d, ENV_SUP_GENERATION@, decimal((generation + 1) as nat), ENV_SUP_GENERATION@);
    lemma_lookup_put(e, ENV_READY_FD@, signed_decimal(ready_fd as int), ENV_SUP_GENERATION@);
    decimal_parses_back((generation + 1) as nat);
    decimal_parses_back(pids.processor_gen as nat);
    decimal_parses_back(pids.plain_gen as nat);
    decimal_parses_back(pids.tls_gen as nat);
    decimal_parses_back(pids.scanner_gen as nat);
    if pids.processor is Some {
        decimal_parses_back(pids.processor->0 as nat);
    }
    if pids.plain is Some {
        decimal_parses_back(pids.plain->0 as nat);
    }
    if pids.tls is Some {
        decimal_parses_back(pids.tls->0 as nat);
    }
    if pids.scanner is Some {
        decimal_parses_back(pids.scanner->0 as nat);
    }
}

/// The descriptor that the successor finds under `name`.
pub open spec fn handed_fd(
    fds: ControlFds,
    pids: AdoptedState,
    generation: u64,
    ready_fd: i32,
    name: Seq<char>,
) -> Option<i32> {
    match env_lookup(self_upgrade_pairs(fds, pids, generation, ready_fd), name) {
        Some(v) => parse_fd(v),
        None => None,
    }
}

/// Nothing after the descriptors hides one of them.
proof fn lemma_fds_show_through(
    fds: ControlFds,
    pids: AdoptedState,
    generation: u64,
    ready_fd: i32,
    name: Seq<char>,
)
    requires
        mark(name).0 >= 18,
        mark(name).2 == 'D',
        !(mark(name).0 == 20 && mark(name).1 == 'S'),
        !(mark(name).0 == 18 && mark(name).1 == 'R'),
    ensures
        env_lookup(self_upgrade_pairs(fds, pids, generation, ready_fd), name) == env_lookup(
            fd_pairs(fds),
            name,
        ),
{
    lemma_marks();
    let p = fd_pairs(fds);
    let a = put_worker(
        p,
        ENV_PROCESSOR_PID@,
        ENV_PROCESSOR_GEN@,
        pids.processor,
        pids.processor_gen,
    );
    let b = put_worker(a, ENV_PLAIN_PID@, ENV_PLAIN_GEN@, pids.plain, pids.plain_gen);
    let c = put_worker(b, ENV_TLS_PID@, ENV_TLS_GEN@, pids.tls, pids.tls_gen);
    let d = put_worker(c, ENV_SCANNER_PID@, ENV_SCANNER_GEN@, pids.scanner, pids.scanner_gen);
    lemma_lookup_worker(
        p,
        ENV_PROCESSOR_PID@,
        ENV_PROCESSOR_GEN@,
        pids.processor,
        pids.processor_gen,
        name,
    );
    lemma_lookup_worker(a, ENV_PLAIN_PID@, ENV_PLAIN_GEN@, pids.plain, pids.plain_gen, name);
    lemma_lookup_worker(b, ENV_TLS_PID@, ENV_TLS_GEN@, pids.tls, pids.tls_gen, name);
    lemma_lookup_worker(
        c,
        ENV_SCANNER_PID@,
        ENV_SCANNER_GEN@,
        pids.scanner,
        pids.scanner_gen,
        name,
    );
    let e = put(d, ENV_SUP_GENERATION@, decimal((generation + 1) as nat));
    lemma_lookup_put(d, ENV_SUP_GENERATION@, decimal((generation + 1) as nat), name);
    lemma_lookup_put(e, ENV_READY_FD@, signed_decimal(ready_fd as int), name);
}

proof fn lemma_fds_read_back(fds: ControlFds)
    ensures
        env_lookup(fd_pairs(fds), ENV_CTRL_ADMIN_FD@) == Some(signed_decimal(fds.admin as int)),
        env_lookup(fd_pairs(fds), ENV_CTRL_PROCESSOR_FD@) == Some(signed_decimal(fds.processor_ctrl as int)),
        env_lookup(fd_pairs(fds), ENV_CTRL_PLAIN_FD@) == Some(signed_decimal(fds.plain_ctrl as int)),
        env_lookup(fd_pairs(fds), ENV_CTRL_TLS_FD@) == Some(signed_decimal(fds.tls_ctrl as int)),
        env_lookup(fd_pairs(fds), ENV_CTRL_SCANNER_FD@) == Some(signed_decimal(fds.scanner_ctrl as int)),
        env_lookup(fd_pairs(fds), ENV_CTRL_DRAINER_FD@) == Some(signed_decimal(fds.drainer as int)),
        env_lookup(fd_pairs(fds), ENV_CTRL_SPAWNER_FD@) == Some(signed_decimal(fds.spawner as int)),
        env_lookup(fd_pairs(fds), ENV_LISTENER_PROCESSOR_FD@) == Some(signed_decimal(fds.processor_listener as int)),
        env_lookup(fd_pairs(fds), ENV_LISTENER_PLAIN_FD@) == Some(signed_decimal(fds.plain_listener as int)),
        env_lookup(fd_pairs(fds), ENV_LISTENER_TLS_FD@) == Some(signed_decimal(fds.tls_listener as int)),
        env_lookup(fd_pairs(fds), ENV_LISTENER_SCANNER_FD@) == Some(signed_decimal(fds.scanner_listener as int)),
{
    broadcast use lemma_lookup_put;

    lemma_marks();
}

/// A new supervisor finds every descriptor of the old one.
pub proof fn successor_finds_every_descriptor(
    fds: ControlFds,
    pids: AdoptedState,
    generation: u64,
    ready_fd: i32,
)
    ensures
        handed_fd(fds, pids, generation, ready_fd, ENV_CTRL_ADMIN_FD@) == Some(fds.admin),
        handed_fd(fds, pids, generation, ready_fd, ENV_CTRL_PROCESSOR_FD@) == Some(
            fds.processor_ctrl,
        ),
        handed_fd(fds, pids, generation, ready_fd, ENV_CTRL_PLAIN_FD@) == Some(fds.plain_ctrl),
        handed_fd(fds, pids, generation, ready_fd, ENV_CTRL_TLS_FD@) == Some(fds.tls_ctrl),
        handed_fd(fds, pids, generation, ready_fd, ENV_CTRL_SCANNER_FD@) == Some(
            fds.scanner_ctrl,
        ),
        handed_fd(fds, pids, generation, ready_fd, ENV_CTRL_DRAINER_FD@) == Some(fds.drainer),
        handed_fd(fds, pids, generation, ready_fd, ENV_CTRL_SPAWNER_FD@) == Some(fds.spawner),
        handed_fd(fds, pids, generation, ready_fd, ENV_LISTENER_PROCESSOR_FD@) == Some(
            fds.processor_listener,
        ),
        handed_fd(fds, pids, generation, ready_fd, ENV_LISTENER_PLAIN_FD@) == Some(
            fds.plain_listener,
        ),
        handed_fd(fds, pids, generation, ready_fd, ENV_LISTENER_TLS_FD@) == Some(
            fds.tls_listener,
        ),
        handed_fd(fds, pids, generation, ready_fd, ENV_LISTENER_SCANNER_FD@) == Some(
            fds.scanner_listener,
        ),
        handed_fd(fds, pids, generation, ready_fd, ENV_READY_FD@) == Some(ready_fd),
{
    lemma_marks();
    lemma_fds_read_back(fds);
    lemma_fds_show_through(fds, pids, generation, ready_fd, ENV_CTRL_ADMIN_FD@);
    lemma_fds_show_through(fds, pids, generation, ready_fd, ENV_CTRL_PROCESSOR_FD@);
    lemma_fds_show_through(fds, pids, generation, ready_fd, ENV_CTRL_PLAIN_FD@);
    lemma_fds_show_through(fds, pids, generation, ready_fd, ENV_CTRL_TLS_FD@);
    lemma_fds_show_through(fds, pids, generation, ready_fd, ENV_CTRL_SCANNER_FD@);
    lemma_fds_show_through(fds, pids, generation, ready_fd, ENV_CTRL_DRAINER_FD@);
    lemma_fds_show_through(fds, pids, generation, ready_fd, ENV_CTRL_SPAWNER_FD@);
    lemma_fds_show_through(fds, pids, generation, ready_fd, ENV_LISTENER_PROCESSOR_FD@);
    lemma_fds_show_through(fds, pids, generation, ready_fd, ENV_LISTENER_PLAIN_FD@);
    lemma_fds_show_through(fds, pids, generation, ready_fd, ENV_LISTENER_TLS_FD@);
    lemma_fds_show_through(fds, pids, generation, ready_fd, ENV_LISTENER_SCANNER_FD@);
    let d = worker_pairs(fd_pairs(fds), pids);
    let e = put(d, ENV_SUP_GENERATION@, decimal((generation + 1) as nat));
    lemma_lookup_put(e, ENV_READY_FD@, signed_decimal(ready_fd as int), ENV_READY_FD@);
    signed_decimal_parses_back(fds.admin);
    signed_decimal_parses_back(fds.processor_ctrl);
    signed_decimal_parses_back(fds.plain_ctrl);
    signed_decimal_parses_back(fds.tls_ctrl);
    signed_decimal_parses_back(fds.scanner_ctrl);
    signed_decimal_parses_back(fds.drainer);
    signed_decimal_parses_back(fds.spawner);
    signed_decimal_parses_back(fds.processor_listener);
    signed_decimal_parses_back(fds.plain_listener);
    signed_decimal_parses_back(fds.tls_listener);
    signed_decimal_parses_back(fds.scanner_listener);
    signed_decimal_parses_back(ready_fd);
}

/// A listener is found by the next supervisor under the very variable that it looks at: the `i`th
/// listener of the old one becomes the `i`th of the new one.
pub proof fn every_listener_is_handed_on(
    fds: ControlFds,
    pids: AdoptedState,
    generation: u64,
    ready_fd: i32,
    i: int,
)
    requires
        0 <= i < LISTENERS,
    ensures
        handed_fd(fds, pids, generation, ready_fd, slot_key(i)) == Some(slot_fd(fds, i)),
{
    successor_finds_every_descriptor(fds, pids, generation, ready_fd);
}

/// Whatever listener the new supervisor is told of is among those that were kept open for it.
pub proof fn what_is_handed_on_is_open(
    fds: ControlFds,
    pids: AdoptedState,
    generation: u64,
    ready_fd: i32,
    i: int,
) -> (k: int)
    requires
        0 <= i < LISTENERS,
    ensures
        0 <= k < kept_open(fds).len(),
        handed_fd(fds, pids, generation, ready_fd, slot_key(i)) == Some(kept_open(fds)[k].0),
{
    every_listener_is_handed_on(fds, pids, generation, ready_fd, i);
    if i < 8 {
        i
    } else if i == 8 {
        10
    } else {
        i - 1
    }
}

/// Process by process: a worker that ran is taken over under its process id and with its
/// generation, and one that did not run is not invented.
pub proof fn each_worker_is_taken_over(
    fds: ControlFds,
    pids: AdoptedState,
    generation: u64,
    ready_fd: i32,
)
    requires
        generation < u64::MAX,
    ensures
        ({
            let found = adopted_in(self_upgrade_pairs(fds, pids, generation, ready_fd));
            &&& found.processor == pids.processor
            &&& found.plain == pids.plain
            &&& found.tls == pids.tls
            &&& found.scanner == pids.scanner
            &&& pids.processor is Some ==> found.processor_gen == pids.processor_gen
            &&& pids.plain is Some ==> found.plain_gen == pids.plain_gen
            &&& pids.tls is Some ==> found.tls_gen == pids.tls_gen
            &&& pids.scanner is Some ==> found.scanner_gen == pids.scanner_gen
            &&& pids.processor is None ==> found.processor_gen == 0
            &&& pids.plain is None ==> found.plain_gen == 0
            &&& pids.tls is None ==> found.tls_gen == 0
            &&& pids.scanner is None ==> found.scanner_gen == 0
        }),
{
    successor_adopts_the_same_workers(fds, pids, generation, ready_fd);
}

/// A process id in decimal reads back; anything else in its place is no process.
pub proof fn pid_reads_back(pid: u32, text: Seq<char>)
    ensures
        pid_in(Some(decimal(pid as nat))) == Some(pid),
        pid_in(None) is None,
        parse_upto(text, u32::MAX as nat) is None ==> pid_in(Some(text)) is None,
{
    decimal_parses_back(pid as nat);
}

/// A worker counts with the generation of its last report, and with none before it reported.
pub proof fn last_report_gives_the_generation(pid: Option<u32>, g: u64)
    ensures
        (WorkerSlot { pid, last_generation: Some(g) }).generation() == g,
        (WorkerSlot { pid, last_generation: None }).generation() == 0,
{
}

/// A worker's listener has its variable, its activation name, its place and its descriptor at one
/// and the same turn. The socket files of the two that serve other workers are for their owner
/// alone.
pub proof fn listeners_of_the_workers_stand_together(
    paths: SupervisorPaths,
    plain_port: u16,
    tls_port: u16,
    fds: ControlFds,
    i: int,
    place: Place,
)
    requires
        0 <= i < LISTENERS,
        slot_place(paths, plain_port, tls_port, i, place),
    ensures
        slot_fd(fds, 7) == fds.processor_listener && slot_name(7) == "processor"@ && slot_key(7)
            == "FDPASS_LISTENER_PROCESSOR_FD"@,
        slot_fd(fds, 8) == fds.scanner_listener && slot_name(8) == "scanner"@ && slot_key(8)
            == "FDPASS_LISTENER_SCANNER_FD"@,
        slot_fd(fds, 9) == fds.plain_listener && slot_name(9) == "plain"@ && slot_key(9)
            == "FDPASS_LISTENER_PLAIN_FD"@,
        slot_fd(fds, 10) == fds.tls_listener && slot_name(10) == "tls"@ && slot_key(10)
            == "FDPASS_LISTENER_TLS_FD"@,
        i == 7 ==> place is Path && place->Path_0@ == paths.processor_sock@,
        i == 8 ==> place is Path && place->Path_0@ == paths.scanner_sock@,
        i == 9 ==> place == Place::Port(plain_port),
        i == 10 ==> place == Place::Port(tls_port),
        place is Port ==> !slot_owner_only(i),
        slot_owner_only(i) <==> place is Path && (i == 7 || i == 8),
{
}

/// The sockets of the supervisor itself: the admin socket, one for each role to be controlled by,
/// and those of drainers and of workers that ask for their listener.
pub proof fn sockets_of_the_supervisor_stand_together(
    paths: SupervisorPaths,
    plain_port: u16,
    tls_port: u16,
    fds: ControlFds,
    i: int,
    place: Place,
)
    requires
        0 <= i < 7,
        slot_place(paths, plain_port, tls_port, i, place),
    ensures
        place is Path,
        i == 0 ==> place->Path_0@ == paths.admin_sock@ && slot_name(i) == "admin"@ && slot_fd(
            fds,
            i,
        ) == fds.admin,
        i == 1 ==> place->Path_0@ == paths.ctrl_processor@ && slot_name(i) == "ctrl-processor"@
            && slot_fd(fds, i) == fds.processor_ctrl,
        i == 2 ==> place->Path_0@ == paths.ctrl_plain@ && slot_name(i) == "ctrl-plain"@ && slot_fd(
            fds,
            i,
        ) == fds.plain_ctrl,
        i == 3 ==> place->Path_0@ == paths.ctrl_tls@ && slot_name(i) == "ctrl-tls"@ && slot_fd(
            fds,
            i,
        ) == fds.tls_ctrl,
        i == 4 ==> place->Path_0@ == paths.ctrl_scanner@ && slot_name(i) == "ctrl-scanner"@
            && slot_fd(fds, i) == fds.scanner_ctrl,
        i == 5 ==> place->Path_0@ == paths.drainer_sock@ && slot_name(i) == "drainer"@ && slot_fd(
            fds,
            i,
        ) == fds.drainer,
        i == 6 ==> place->Path_0@ == paths.spawner_sock@ && slot_name(i) == "spawner"@ && slot_fd(
            fds,
            i,
        ) == fds.spawner,
        !slot_owner_only(i),
{
}

} // verus!

//! Runtime configuration. Every section and field has a default, so an empty file is a valid
//! configuration. Paths are held as text.
//!
//! Discovery order: an explicit path, then the `FDPASS_CONFIG_PATH` variable, then pure defaults.

use vstd::prelude::*;

use crate::fault_inject::Failure;
use crate::text::{
    chars_of, pieces_stand_between_separators, same_text, split_on, split_text, views,
};
use crate::text_map::TextMap;
use crate::time::{Span, NANOS_PER_SEC};

verus! {

/// Variable that points spawned children at the config file the supervisor used.
pub const ENV_CONFIG_PATH: &'static str = "FDPASS_CONFIG_PATH";

/// A single named fault-injection point.
#[derive(Debug)]
pub struct FaultPointConfig {
    pub name: String,
    /// `"io_error"` (also anything unknown), `"skip"`, or `"panic"`.
    pub kind: String,
    /// Message carried by the fault when it fires.
    pub message: String,
    /// How many times this point may fire; 0 is unlimited.
    pub trigger_budget: u32,
}

impl Default for FaultPointConfig {
    fn default() -> (c: Self)
        ensures
            c.name@ == Seq::<char>::empty(),
            c.kind@ == Seq::<char>::empty(),
            c.message@ == Seq::<char>::empty(),
            c.trigger_budget == 0,
    {
        FaultPointConfig {
            name: String::new(),
            kind: String::new(),
            message: String::new(),
            trigger_budget: 0,
        }
    }
}

/// The fault-injection table.
#[derive(Debug)]
pub struct FaultInjectConfig {
    pub points: Vec<FaultPointConfig>,
}

impl Default for FaultInjectConfig {
    fn default() -> (c: Self)
        ensures
            c.points@.len() == 0,
    {
        FaultInjectConfig { points: Vec::new() }
    }
}

/// Syscall sandbox mode. `Log` reports what `Strict` would kill.
#[derive(Clone, Copy, Debug, PartialEq, Eq, Structural)]
pub enum SandboxMode {
    Off,
    Strict,
    Log,
}

impl Default for SandboxMode {
    fn default() -> (m: Self)
        ensures
            m == SandboxMode::Off,
    {
        SandboxMode::Off
    }
}

/// Worker privilege drop and sandboxing.
pub struct SecurityConfig {
    /// Uid to drop to: a number or a user name.
    pub drop_uid: Option<String>,
    /// Gid to drop to: a number or a group name.
    pub drop_gid: Option<String>,
    pub sandbox: SandboxMode,
    /// Per-role overrides of `sandbox`, by role name.
    pub sandbox_overrides: TextMap<SandboxMode>,
}

impl Default for SecurityConfig {
    fn default() -> (c: Self)
        ensures
            c.drop_uid is None,
            c.drop_gid is None,
            c.sandbox == SandboxMode::Off,
            c.sandbox_overrides@ == Map::<Seq<char>, SandboxMode>::empty(),
    {
        SecurityConfig {
            drop_uid: None,
            drop_gid: None,
            sandbox: SandboxMode::Off,
            sandbox_overrides: TextMap::new(),
        }
    }
}

impl SecurityConfig {
    /// The mode in effect for `role`: its override where there is one, else the global mode.
    pub open spec fn sandbox_for(&self, role: Seq<char>) -> SandboxMode {
        if self.sandbox_overrides@.dom().contains(role) {
            self.sandbox_overrides@[role]
        } else {
            self.sandbox
        }
    }

    /// Sandbox mode in effect for `role`.
    pub fn effective_sandbox(&self, role: &str) -> (mode: SandboxMode)
        ensures
            mode == self.sandbox_for(role@),
    {
        match self.sandbox_overrides.get(role) {
            Some(mode) => *mode,
            None => self.sandbox,
        }
    }
}

/// The health endpoint; an empty address disables it.
#[derive(Debug)]
pub struct HealthConfig {
    pub bind_addr: String,
}

impl Default for HealthConfig {
    fn default() -> (c: Self)
        ensures
            c.bind_addr@ == "127.0.0.1:7079"@,
    {
        HealthConfig { bind_addr: "127.0.0.1:7079".to_owned() }
    }
}

/// Textfile metrics; an empty path disables them.
#[derive(Debug)]
pub struct MetricsConfig {
    pub path: String,
    pub interval_secs: u64,
}

impl Default for MetricsConfig {
    fn default() -> (c: Self)
        ensures
            c.path@ == Seq::<char>::empty(),
            c.interval_secs == 15,
    {
        MetricsConfig { path: String::new(), interval_secs: 15 }
    }
}

impl MetricsConfig {
    /// Seconds between two writes: the configured interval, but at least one.
    pub fn write_interval_secs(&self) -> (secs: u64)
        ensures
            secs == (if self.interval_secs == 0 {
                1
            } else {
                self.interval_secs
            }),
    {
        if self.interval_secs == 0 {
            1
        } else {
            self.interval_secs
        }
    }
}

/// Who may connect to a control socket.
#[derive(Debug)]
pub struct AuthConfig {
    /// Empty means only the effective uid of the running process.
    pub allowed_uids: Vec<u32>,
}

impl Default for AuthConfig {
    fn default() -> (c: Self)
        ensures
            c.allowed_uids@.len() == 0,
    {
        AuthConfig { allowed_uids: Vec::new() }
    }
}

#[derive(Debug)]
pub struct TlsConfig {
    pub cert_path: String,
    pub key_path: String,
}

impl Default for TlsConfig {
    fn default() -> (c: Self)
        ensures
            c.cert_path@ == "certs/server.crt"@,
            c.key_path@ == "certs/server.key"@,
    {
        TlsConfig {
            cert_path: "certs/server.crt".to_owned(),
            key_path: "certs/server.key".to_owned(),
        }
    }
}

/// Load-bounding knobs, one set per acceptor; 0 disables a check.
#[derive(Clone, Copy, Debug, PartialEq, Eq, Structural)]
pub struct LimitsConfig {
    /// Cap on live sessions per acceptor.
    pub max_in_flight_per_role: u64,
    /// Idle seconds after which a TLS session is closed.
    pub tls_idle_timeout_secs: u64,
    /// Per-address token bucket: sustained accepts per second.
    pub accept_rate_per_ip: u32,
    /// Per-address token bucket: burst capacity.
    pub accept_rate_burst: u32,
    /// Hard cap on tracked addresses.
    pub rate_limit_max_tracked_ips: usize,
    /// Idle seconds after which a bucket is dropped.
    pub rate_limit_bucket_idle_ttl_secs: u64,
}

/// The limits that hold where nothing is configured.
pub open spec fn default_limits() -> LimitsConfig {
    LimitsConfig {
        max_in_flight_per_role: 1024,
        tls_idle_timeout_secs: 300,
        accept_rate_per_ip: 50,
        accept_rate_burst: 100,
        rate_limit_max_tracked_ips: 65536,
        rate_limit_bucket_idle_ttl_secs: 300,
    }
}

impl Default for LimitsConfig {
    fn default() -> (c: Self)
        ensures
            c == default_limits(),
    {
        LimitsConfig {
            max_in_flight_per_role: 1024,
            tls_idle_timeout_secs: 300,
            accept_rate_per_ip: 50,
            accept_rate_burst: 100,
            rate_limit_max_tracked_ips: 65536,
            rate_limit_bucket_idle_ttl_secs: 300,
        }
    }
}

/// The whole configuration.
pub struct Config {
    pub sockets_dir: String,
    pub plain_port: u16,
    pub tls_port: u16,
    pub ready_timeout_secs: u64,
    pub identd_port: u16,
    pub auth: AuthConfig,
    pub tls: TlsConfig,
    pub limits: LimitsConfig,
    pub metrics: MetricsConfig,
    pub health: HealthConfig,
    pub security: SecurityConfig,
    pub fault_inject: FaultInjectConfig,
}

/// `c` is the configuration where nothing is configured.
pub open spec fn is_default_config(c: Config) -> bool {
    &&& c.sockets_dir@ == "/tmp"@
    &&& c.plain_port == 7070
    &&& c.tls_port == 7071
    &&& c.ready_timeout_secs == 3
    &&& c.identd_port == 113
    &&& c.auth.allowed_uids@.len() == 0
    &&& c.tls.cert_path@ == "certs/server.crt"@
    &&& c.tls.key_path@ == "certs/server.key"@
    &&& c.limits == default_limits()
    &&& c.metrics.path@ == Seq::<char>::empty()
    &&& c.metrics.interval_secs == 15
    &&& c.health.bind_addr@ == "127.0.0.1:7079"@
    &&& c.security.drop_uid is None
    &&& c.security.drop_gid is None
    &&& c.security.sandbox == SandboxMode::Off
    &&& c.security.sandbox_overrides@ == Map::<Seq<char>, SandboxMode>::empty()
    &&& c.fault_inject.points@.len() == 0
}

impl Default for Config {
    fn default() -> (c: Self)
        ensures
            is_default_config(c),
    {
        Config {
            sockets_dir: "/tmp".to_owned(),
            plain_port: 7070,
            tls_port: 7071,
            ready_timeout_secs: 3,
            identd_port: 113,
            auth: AuthConfig::default(),
            tls: TlsConfig::default(),
            limits: LimitsConfig::default(),
            metrics: MetricsConfig::default(),
            health: HealthConfig::default(),
            security: SecurityConfig::default(),
            fault_inject: FaultInjectConfig::default(),
        }
    }
}

/// File name of the socket called `name`.
pub open spec fn socket_file(name: Seq<char>) -> Seq<char> {
    "fdpass-"@ + name + ".sock"@
}

/// `name` inside `dir`: a separator goes between them unless `dir` is empty or ends in one.
pub open spec fn path_in(dir: Seq<char>, name: Seq<char>) -> Seq<char> {
    if dir.len() == 0 || dir.last() == '/' {
        dir + name
    } else {
        dir.push('/') + name
    }
}

/// The parts of a path that was split at its separators: empty ones do not count, and neither does
/// a dot that is not the beginning.
pub open spec fn path_parts(pieces: Seq<Seq<char>>) -> Seq<Seq<char>>
    decreases pieces.len(),
{
    if pieces.len() == 0 {
        seq![]
    } else {
        let before = path_parts(pieces.drop_last());
        if pieces.last().len() == 0 || (pieces.last() == "."@ && pieces.len() > 1) {
            before
        } else {
            before.push(pieces.last())
        }
    }
}

/// The path begins at the root.
pub open spec fn is_rooted(path: Seq<char>) -> bool {
    path.len() > 0 && path[0] == '/'
}

/// The two texts are the same path: `a//b`, `a/./b` and `a/b/` are `a/b`, but `./a` is not `a`.
pub open spec fn same_path(a: Seq<char>, b: Seq<char>) -> bool {
    &&& is_rooted(a) == is_rooted(b)
    &&& path_parts(split_on(a, '/')) == path_parts(split_on(b, '/'))
}

fn parts_of(path: &str) -> (v: Vec<String>)
    ensures
        views(v@) == path_parts(split_on(path@, '/')),
{
    let pieces = split_text(path, '/');
    let mut v: Vec<String> = Vec::new();
    let mut i: usize = 0;
    proof {
        assert(views(pieces@).take(0) =~= seq![]);
        assert(views(v@) =~= path_parts(views(pieces@).take(0)));
    }
    while i < pieces.len()
        invariant
            i <= pieces@.len(),
            views(v@) == path_parts(views(pieces@).take(i as int)),
        decreases pieces.len() - i,
    {
        let ghost next = views(pieces@).take(i + 1);
        let ghost kept = v@;
        proof {
            assert(next.drop_last() =~= views(pieces@).take(i as int));
            assert(next.last() == pieces@[i as int]@);
        }
        if !pieces[i].as_str().is_empty() && !(i > 0 && same_text(pieces[i].as_str(), ".")) {
            v.push(pieces[i].clone());
            proof {
                assert(views(v@) =~= views(kept).push(pieces@[i as int]@));
            }
        }
        i = i + 1;
    }
    proof {
        assert(views(pieces@).take(pieces@.len() as int) =~= views(pieces@));
    }
    v
}

/// Whether the two texts are the same path.
pub fn is_same_path(a: &str, b: &str) -> (r: bool)
    ensures
        r == same_path(a@, b@),
{
    let ca = chars_of(a);
    let cb = chars_of(b);
    if (ca.len() > 0 && ca[0] == '/') != (cb.len() > 0 && cb[0] == '/') {
        return false;
    }
    let pa = parts_of(a);
    let pb = parts_of(b);
    if pa.len() != pb.len() {
        proof {
            assert(views(pa@).len() != views(pb@).len());
        }
        return false;
    }
    let mut i: usize = 0;
    while i < pa.len()
        invariant
            i <= pa@.len(),
            pa@.len() == pb@.len(),
            views(pa@) == path_parts(split_on(a@, '/')),
            views(pb@) == path_parts(split_on(b@, '/')),
            forall|j: int| 0 <= j < i ==> (#[trigger] pa@[j])@ == pb@[j]@,
        decreases pa.len() - i,
    {
        if !same_text(pa[i].as_str(), pb[i].as_str()) {
            proof {
                assert(views(pa@)[i as int] != views(pb@)[i as int]);
            }
            return false;
        }
        i = i + 1;
    }
    proof {
        assert(views(pa@) =~= views(pb@));
    }
    true
}

/// Where a configuration comes from.
pub enum ConfigSource {
    /// Already parsed by the process that started this one, and handed over as JSON.
    Inherited(String),
    /// To be read from this file.
    File(String),
    /// No file: the defaults.
    Defaults,
}

/// Picks the source of the configuration: an inherited JSON blob, else the explicit path, else
/// the path from the environment, else the defaults.
pub fn config_source(
    inherited: Option<String>,
    explicit: Option<String>,
    from_env: Option<String>,
) -> (source: ConfigSource)
    ensures
        match source {
            ConfigSource::Inherited(json) => inherited == Some(json),
            ConfigSource::File(path) => inherited is None && (explicit == Some(path) || (
            explicit is None && from_env == Some(path))),
            ConfigSource::Defaults => inherited is None && explicit is None && from_env is None,
        },
{
    match inherited {
        Some(json) => ConfigSource::Inherited(json),
        None => match explicit {
            Some(path) => ConfigSource::File(path),
            None => match from_env {
                Some(path) => ConfigSource::File(path),
                None => ConfigSource::Defaults,
            },
        },
    }
}

/// What reading a file of configuration gave.
pub enum FileContent {
    /// It could not be read, for this reason.
    Unreadable(String),
    /// It is no configuration, for this reason.
    Malformed(String),
    Parsed(Config),
}

/// What came of the source of a configuration.
pub enum ConfigRead {
    /// What was handed over, or the reason why it is no configuration.
    Inherited(Result<Config, String>),
    File { path: String, content: FileContent },
    /// There is nothing to read.
    Defaults,
}

/// The service manager's runtime directory differs from where the sockets are.
pub open spec fn overrides_sockets(c: Config, runtime_directory: Option<String>) -> bool {
    runtime_directory is Some && !same_path(c.sockets_dir@, runtime_directory->0@)
}

/// The configuration with the service manager's runtime directory in force.
pub open spec fn with_runtime_directory(c: Config, runtime_directory: Option<String>) -> Config {
    if overrides_sockets(c, runtime_directory) {
        Config { sockets_dir: runtime_directory->0, ..c }
    } else {
        c
    }
}

/// `r` is what loading comes to: what was handed over is resolved already and stays as it is;
/// over what a file holds, and over the defaults, the runtime directory has its say.
pub open spec fn load_outcome(
    read: ConfigRead,
    runtime_directory: Option<String>,
    r: Result<(Config, bool), Failure>,
) -> bool {
    match read {
        ConfigRead::Inherited(Ok(c)) => r == Ok::<(Config, bool), Failure>((c, false)),
        ConfigRead::Inherited(Err(text)) => r is Err && r->Err_0.says_under(
            text@,
            "parse inherited config JSON"@,
        ),
        ConfigRead::File { path, content } => match content {
            FileContent::Unreadable(text) => r is Err && r->Err_0.says_under(
                text@,
                "read config "@ + path@,
            ),
            FileContent::Malformed(text) => r is Err && r->Err_0.says_under(
                text@,
                "parse config "@ + path@,
            ),
            FileContent::Parsed(c) => r == Ok::<(Config, bool), Failure>(
                (with_runtime_directory(c, runtime_directory), overrides_sockets(
                    c,
                    runtime_directory,
                )),
            ),
        },
        ConfigRead::Defaults => exists|c: Config| #[trigger]
            is_default_config(c) && r == Ok::<(Config, bool), Failure>(
                (with_runtime_directory(c, runtime_directory), overrides_sockets(
                    c,
                    runtime_directory,
                )),
            ),
    }
}

impl Config {
    /// The configuration, from what came of its source, and whether the runtime directory changed
    /// it.
    pub fn load(read: ConfigRead, runtime_directory: Option<String>) -> (r: Result<
        (Config, bool),
        Failure,
    >)
        ensures
            load_outcome(read, runtime_directory, r),
    {
        let mut config = match read {
            ConfigRead::Inherited(Ok(c)) => return Ok((c, false)),
            ConfigRead::Inherited(Err(e)) => return Err(
                Failure::new(e.as_str()).context("parse inherited config JSON"),
            ),
            ConfigRead::File { path, content } => match content {
                FileContent::Unreadable(e) => {
                    let mut context = "read config ".to_owned();
                    context.append(path.as_str());
                    return Err(Failure::new(e.as_str()).context(context.as_str()));
                },
                FileContent::Malformed(e) => {
                    let mut context = "parse config ".to_owned();
                    context.append(path.as_str());
                    return Err(Failure::new(e.as_str()).context(context.as_str()));
                },
                FileContent::Parsed(c) => c,
            },
            ConfigRead::Defaults => Config::default(),
        };
        let ghost base = config;
        let changed = config.apply_runtime_directory(runtime_directory);
        proof {
            if read is Defaults {
                assert(is_default_config(base));
            }
        }
        Ok((config, changed))
    }

    /// Lets the service manager's runtime directory override `sockets_dir`. Returns whether the
    /// directory changed.
    pub fn apply_runtime_directory(&mut self, runtime_directory: Option<String>) -> (changed: bool)
        ensures
            changed == overrides_sockets(*old(self), runtime_directory),
            *final(self) == with_runtime_directory(*old(self), runtime_directory),
    {
        match runtime_directory {
            Some(dir) => {
                if is_same_path(self.sockets_dir.as_str(), dir.as_str()) {
                    false
                } else {
                    self.sockets_dir = dir;
                    true
                }
            },
            None => false,
        }
    }

    /// Path of the socket with the short name `name`.
    pub fn socket_path(&self, name: &str) -> (path: String)
        ensures
            path@ == path_in(self.sockets_dir@, socket_file(name@)),
    {
        let mut path = self.sockets_dir.clone();
        let dir = chars_of(self.sockets_dir.as_str());
        if dir.len() > 0 && dir[dir.len() - 1] != '/' {
            path.push('/');
        }
        path.append(Self::socket_basename(name).as_str());
        path
    }

    /// File name of the socket with the short name `name`.
    pub fn socket_basename(name: &str) -> (base: String)
        ensures
            base@ == socket_file(name@),
    {
        let mut base = "fdpass-".to_owned();
        base.append(name);
        base.append(".sock");
        base
    }

    pub fn processor_sock(&self) -> (path: String)
        ensures
            path@ == path_in(self.sockets_dir@, socket_file("proc"@)),
    {
        self.socket_path("proc")
    }

    pub fn scanner_sock(&self) -> (path: String)
        ensures
            path@ == path_in(self.sockets_dir@, socket_file("scanner"@)),
    {
        self.socket_path("scanner")
    }

    pub fn admin_sock(&self) -> (path: String)
        ensures
            path@ == path_in(self.sockets_dir@, socket_file("admin"@)),
    {
        self.socket_path("admin")
    }

    pub fn drainer_sock(&self) -> (path: String)
        ensures
            path@ == path_in(self.sockets_dir@, socket_file("drainer"@)),
    {
        self.socket_path("drainer")
    }

    pub fn spawner_sock(&self) -> (path: String)
        ensures
            path@ == path_in(self.sockets_dir@, socket_file("spawner"@)),
    {
        self.socket_path("spawner")
    }

    /// Control socket of `role`.
    pub fn control_sock(&self, role: &str) -> (path: String)
        ensures
            path@ == path_in(self.sockets_dir@, socket_file("ctrl-"@ + role@)),
    {
        let mut name = "ctrl-".to_owned();
        name.append(role);
        self.socket_path(name.as_str())
    }

    /// How long an upgrade waits for the successor's ready signal.
    pub fn ready_timeout(&self) -> (span: Span)
        ensures
            span.nanos == self.ready_timeout_secs * NANOS_PER_SEC,
    {
        Span::from_secs(self.ready_timeout_secs)
    }

    /// The health endpoint is wanted.
    pub fn health_enabled(&self) -> (r: bool)
        ensures
            r == (self.health.bind_addr@.len() > 0),
    {
        !self.health.bind_addr.as_str().is_empty()
    }

    /// The metrics file is wanted.
    pub fn metrics_enabled(&self) -> (r: bool)
        ensures
            r == (self.metrics.path@.len() > 0),
    {
        !self.metrics.path.as_str().is_empty()
    }
}

/// Two sockets in one directory share a path only if they share a name.
pub proof fn socket_paths_are_distinct(dir: Seq<char>, a: Seq<char>, b: Seq<char>)
    requires
        path_in(dir, socket_file(a)) == path_in(dir, socket_file(b)),
    ensures
        a == b,
{
    let p = if dir.len() == 0 || dir.last() == '/' {
        dir
    } else {
        dir.push('/')
    };
    let fa = socket_file(a);
    let fb = socket_file(b);
    assert((p + fa).len() == (p + fb).len());
    assert(fa =~= fb) by {
        assert forall|i: int| 0 <= i < fa.len() implies fa[i] == fb[i] by {
            assert((p + fa)[p.len() + i] == (p + fb)[p.len() + i]);
        }
    }
    let h = "fdpass-"@;
    assert(a.len() == b.len());
    assert forall|i: int| 0 <= i < a.len() implies a[i] == b[i] by {
        assert(fa[h.len() + i] == fb[h.len() + i]);
    }
    assert(a =~= b);
}

/// Between a directory and a file name stands one separator, which the directory may bring along;
/// without a directory the file name stands alone.
pub proof fn one_separator_before_a_file_name(dir: Seq<char>, name: Seq<char>)
    requires
        dir.len() > 0,
        dir.last() != '/',
    ensures
        path_in(dir, name) == dir + seq!['/'] + name,
        path_in(dir.push('/'), name) == path_in(dir, name),
        path_in(Seq::<char>::empty(), name) == name,
{
    assert(dir.push('/') =~= dir + seq!['/']);
    assert(Seq::<char>::empty() + name =~= name);
}

/// The parts of a path are its pieces in order, without those that are empty; a dot counts only
/// at the beginning.
pub proof fn empty_pieces_and_dots_do_not_count(first: Seq<char>, rest: Seq<Seq<char>>)
    ensures
        path_parts(seq![first] + rest) == (if first.len() > 0 {
            seq![first]
        } else {
            Seq::<Seq<char>>::empty()
        }) + rest.filter(|p: Seq<char>| p.len() > 0 && p != "."@),
    decreases rest.len(),
{
    reveal(Seq::filter);
    let all = seq![first] + rest;
    let keep = |p: Seq<char>| p.len() > 0 && p != "."@;
    let head = if first.len() > 0 {
        seq![first]
    } else {
        Seq::<Seq<char>>::empty()
    };
    if rest.len() == 0 {
        assert(all =~= seq![first]);
        assert(all.drop_last() =~= Seq::<Seq<char>>::empty());
        reveal_with_fuel(path_parts, 2);
        assert(path_parts(all) =~= head + rest.filter(keep));
    } else {
        empty_pieces_and_dots_do_not_count(first, rest.drop_last());
        assert(all.drop_last() =~= seq![first] + rest.drop_last());
        assert(all.last() == rest.last());
        assert(path_parts(all) =~= head + rest.filter(keep));
    }
}

proof fn lemma_pieces_have_a_first(s: Seq<char>, sep: char)
    ensures
        split_on(s, sep).len() > 0,
    decreases s.len(),
{
    if s.len() > 0 {
        lemma_pieces_have_a_first(s.drop_last(), sep);
    }
}

/// The parts of `a/b` for any two texts: those of `a`, and what counts of `b` behind a separator.
proof fn lemma_parts_of_joined(a: Seq<char>, b: Seq<char>)
    ensures
        path_parts(split_on(a.push('/') + b, '/')) == path_parts(split_on(a, '/')) + split_on(
            b,
            '/',
        ).filter(|p: Seq<char>| p.len() > 0 && p != "."@),
{
    let keep = |p: Seq<char>| p.len() > 0 && p != "."@;
    pieces_stand_between_separators(a, b, '/');
    lemma_pieces_have_a_first(a, '/');
    let pa = split_on(a, '/');
    let pb = split_on(b, '/');
    let rest = pa.skip(1);
    assert(pa =~= seq![pa[0]] + rest);
    assert(pa + pb =~= seq![pa[0]] + (rest + pb));
    empty_pieces_and_dots_do_not_count(pa[0], rest);
    empty_pieces_and_dots_do_not_count(pa[0], rest + pb);
    Seq::filter_distributes_over_add(rest, pb, keep);
    assert(path_parts(pa + pb) =~= path_parts(pa) + pb.filter(keep));
}

/// A separator twice in a row, a dot between two separators, and a separator at the end make no
/// other path.
pub proof fn idle_separators_make_no_other_path(a: Seq<char>, b: Seq<char>)
    ensures
        same_path(a + seq!['/', '/'] + b, a + seq!['/'] + b),
        same_path(a + seq!['/', '.', '/'] + b, a + seq!['/'] + b),
        a.len() > 0 ==> same_path(a + seq!['/'], a),
        same_path(a, b) == same_path(b, a),
        same_path(a, a),
{
    reveal_strlit(".");
    reveal(Seq::filter);
    let keep = |p: Seq<char>| p.len() > 0 && p != "."@;
    let empty = Seq::<char>::empty();
    let dot = seq!['.'];
    let plain = a + seq!['/'] + b;
    assert(plain =~= a.push('/') + b);
    lemma_parts_of_joined(a, b);
    let twice = a + seq!['/', '/'] + b;
    assert(twice =~= a.push('/') + (empty.push('/') + b));
    lemma_parts_of_joined(a, empty.push('/') + b);
    pieces_stand_between_separators(empty, b, '/');
    Seq::filter_distributes_over_add(seq![empty], split_on(b, '/'), keep);
    assert(seq![empty].drop_last() =~= Seq::<Seq<char>>::empty());
    reveal_with_fuel(Seq::filter, 2);
    assert(seq![empty].filter(keep) =~= Seq::<Seq<char>>::empty());
    assert(Seq::<Seq<char>>::empty() + split_on(b, '/').filter(keep) =~= split_on(b, '/').filter(
        keep,
    ));
    let dotted = a + seq!['/', '.', '/'] + b;
    assert(dotted =~= a.push('/') + (dot.push('/') + b));
    lemma_parts_of_joined(a, dot.push('/') + b);
    assert(!dot.contains('/'));
    pieces_stand_between_separators(dot, b, '/');
    Seq::filter_distributes_over_add(seq![dot], split_on(b, '/'), keep);
    assert(seq![dot].drop_last() =~= Seq::<Seq<char>>::empty());
    assert(dot =~= "."@);
    assert(seq![dot].filter(keep) =~= Seq::<Seq<char>>::empty());
    if a.len() > 0 {
        let open = a + seq!['/'];
        assert(open =~= a.push('/') + empty);
        lemma_parts_of_joined(a, empty);
        assert(split_on(empty, '/') =~= seq![empty]);
        assert(path_parts(split_on(a, '/')) + Seq::<Seq<char>>::empty() =~= path_parts(
            split_on(a, '/'),
        ));
        assert(open[0] == a[0]);
    }
}

/// Two names of one directory or file, without separators, are the same path only if they are the
/// same name; and a path from the root is never one that does not begin there.
pub proof fn other_names_are_other_paths(a: Seq<char>, b: Seq<char>)
    requires
        !a.contains('/'),
        !b.contains('/'),
    ensures
        same_path(a, b) <==> a == b,
        a.len() > 0 ==> !same_path(seq!['/'] + a, a),
{
    pieces_stand_between_separators(a, b, '/');
    pieces_stand_between_separators(b, a, '/');
    let none = Seq::<Seq<char>>::empty();
    reveal(Seq::filter);
    empty_pieces_and_dots_do_not_count(a, none);
    empty_pieces_and_dots_do_not_count(b, none);
    assert(seq![a] + none =~= seq![a]);
    assert(seq![b] + none =~= seq![b]);
    if same_path(a, b) {
        if a.len() > 0 {
            assert(path_parts(seq![a]) =~= seq![a]);
        } else {
            assert(path_parts(seq![a]) =~= none);
        }
        if b.len() > 0 {
            assert(path_parts(seq![b]) =~= seq![b]);
        } else {
            assert(path_parts(seq![b]) =~= none);
        }
        if a.len() > 0 && b.len() > 0 {
            assert(seq![a][0] == seq![b][0]);
        }
        if a.len() > 0 && b.len() == 0 {
            assert(seq![a].len() == none.len());
        }
        if a.len() == 0 && b.len() > 0 {
            assert(seq![b].len() == none.len());
        }
        assert(a =~= b);
    }
    if a.len() > 0 {
        assert(a[0] != '/');
    }
}

/// With a runtime directory the sockets are there, whatever was configured; nothing else changes.
/// Without one nothing changes at all.
pub proof fn runtime_directory_moves_the_sockets(c: Config, dir: String)
    ensures
        ({
            let moved = with_runtime_directory(c, Some(dir));
            &&& same_path(moved.sockets_dir@, dir@)
            &&& !same_path(c.sockets_dir@, dir@) ==> moved.sockets_dir == dir
            &&& moved == (Config { sockets_dir: moved.sockets_dir, ..c })
            &&& overrides_sockets(c, Some(dir)) <==> moved.sockets_dir != c.sockets_dir
            &&& with_runtime_directory(c, None) == c
            &&& !overrides_sockets(c, None)
        }),
{
}

/// What a predecessor handed over is taken as it is; what a file holds is moved to the runtime
/// directory, if there is one, and is otherwise taken as it is.
pub proof fn loaded_configuration_is_the_one_given(
    c: Config,
    path: String,
    dir: String,
    r: Result<(Config, bool), Failure>,
)
    ensures
        load_outcome(ConfigRead::Inherited(Ok(c)), Some(dir), r) ==> r == Ok::<
            (Config, bool),
            Failure,
        >((c, false)),
        load_outcome(
            ConfigRead::File { path, content: FileContent::Parsed(c) },
            None,
            r,
        ) ==> r == Ok::<(Config, bool), Failure>((c, false)),
        load_outcome(ConfigRead::File { path, content: FileContent::Parsed(c) }, Some(dir), r)
            ==> r is Ok && same_path(r->Ok_0.0.sockets_dir@, dir@) && r->Ok_0.0 == (Config {
            sockets_dir: r->Ok_0.0.sockets_dir,
            ..c
        }) && (r->Ok_0.1 <==> !same_path(c.sockets_dir@, dir@)),
        load_outcome(ConfigRead::Defaults, None, r) ==> r is Ok && r->Ok_0.0.sockets_dir@
            == "/tmp"@ && r->Ok_0.0.plain_port == 7070 && r->Ok_0.0.tls_port == 7071,
{
}

/// A role is confined as its own entry says, and as all others are where it has none.
pub proof fn own_entry_decides_confinement(c: SecurityConfig, role: Seq<char>)
    ensures
        c.sandbox_overrides@.contains_key(role) ==> c.sandbox_for(role)
            == c.sandbox_overrides@[role],
        !c.sandbox_overrides@.contains_key(role) ==> c.sandbox_for(role) == c.sandbox,
{
}

/// Where nothing is configured, these are the ports, the paths and the limits; nobody is confined,
/// no id is dropped to, and no fault is injected.
pub proof fn defaults_are_these(c: Config)
    requires
        is_default_config(c),
    ensures
        c.sockets_dir@ == "/tmp"@,
        c.plain_port == 7070 && c.tls_port == 7071 && c.identd_port == 113,
        c.ready_timeout_secs == 3,
        c.auth.allowed_uids@ == Seq::<u32>::empty(),
        c.tls.cert_path@ == "certs/server.crt"@ && c.tls.key_path@ == "certs/server.key"@,
        c.limits.max_in_flight_per_role == 1024,
        c.limits.tls_idle_timeout_secs == 300,
        c.limits.accept_rate_per_ip == 50 && c.limits.accept_rate_burst == 100,
        c.limits.rate_limit_max_tracked_ips == 65536,
        c.limits.rate_limit_bucket_idle_ttl_secs == 300,
        c.metrics.path@ == Seq::<char>::empty() && c.metrics.interval_secs == 15,
        c.health.bind_addr@ == "127.0.0.1:7079"@,
        c.security.drop_uid is None && c.security.drop_gid is None,
        forall|role: Seq<char>| #[trigger] c.security.sandbox_for(role) == SandboxMode::Off,
        c.fault_inject.points@.len() == 0,
{
}

/// What cannot be read or is no configuration is refused, with the reason and the file.
pub proof fn unusable_configuration_is_refused(
    text: String,
    path: String,
    dir: Option<String>,
    r: Result<(Config, bool), Failure>,
)
    ensures
        load_outcome(ConfigRead::Inherited(Err(text)), dir, r) ==> r is Err && r->Err_0.message@
            == text@ && r->Err_0.shown() == "parse inherited config JSON"@,
        load_outcome(ConfigRead::File { path, content: FileContent::Unreadable(text) }, dir, r)
            ==> r is Err && r->Err_0.message@ == text@ && r->Err_0.shown() == "read config "@
            + path@,
        load_outcome(ConfigRead::File { path, content: FileContent::Malformed(text) }, dir, r)
            ==> r is Err && r->Err_0.message@ == text@ && r->Err_0.shown() == "parse config "@
            + path@,
{
}

/// A path begins at the root exactly where it begins with a separator.
pub proof fn rooted_paths_begin_with_a_separator(c: char, rest: Seq<char>)
    ensures
        is_rooted(seq![c] + rest) <==> c == '/',
        !is_rooted(Seq::<char>::empty()),
{
    assert((seq![c] + rest)[0] == c);
}

/// The file of a socket carries the daemon's prefix, its name, and what marks it as a socket.
pub proof fn socket_file_carries_its_name(name: Seq<char>)
    ensures
        socket_file(name).len() == name.len() + 12,
        socket_file(name).subrange(7, 7int + name.len()) == name,
        socket_file(name).take(7) == "fdpass-"@,
        socket_file(name).skip(7int + name.len()) == ".sock"@,
{
    reveal_strlit("fdpass-");
    reveal_strlit(".sock");
    let f = socket_file(name);
    assert(f.subrange(7, 7int + name.len()) =~= name);
    assert(f.take(7) =~= "fdpass-"@);
    assert(f.skip(7int + name.len()) =~= ".sock"@);
}

} // verus!

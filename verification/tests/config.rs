//! The configuration.

use echod::auth::PeerAllowlist;
use echod::config::{
    config_source, is_same_path, AuthConfig, Config, ConfigRead, ConfigSource, FileContent,
    MetricsConfig, SandboxMode, SecurityConfig,
};
use echod::text_map::TextMap;
use echod::time::Span;

fn overrides(list: &[(&str, SandboxMode)]) -> TextMap<SandboxMode> {
    let mut map = TextMap::new();
    for (role, mode) in list {
        map.insert((*role).to_string(), *mode);
    }
    map
}

#[test]
fn effective_sandbox_uses_override_then_global() {
    let sec = SecurityConfig {
        sandbox: SandboxMode::Strict,
        sandbox_overrides: overrides(&[("scanner", SandboxMode::Off)]),
        ..Default::default()
    };
    assert_eq!(sec.effective_sandbox("scanner"), SandboxMode::Off);
    assert_eq!(sec.effective_sandbox("processor"), SandboxMode::Strict);
    assert_eq!(sec.effective_sandbox("tls"), SandboxMode::Strict);
}

#[test]
fn empty_configuration_is_the_default() {
    let d = Config::default();
    assert_eq!(d.sockets_dir, "/tmp");
    assert_eq!(d.plain_port, 7070);
    assert_eq!(d.tls_port, 7071);
    assert_eq!(d.ready_timeout_secs, 3);
    assert_eq!(d.identd_port, 113);
    assert_eq!(d.limits.max_in_flight_per_role, 1024);
    assert_eq!(d.limits.tls_idle_timeout_secs, 300);
    assert_eq!(d.limits.accept_rate_per_ip, 50);
    assert_eq!(d.limits.accept_rate_burst, 100);
    assert_eq!(d.limits.rate_limit_max_tracked_ips, 65536);
    assert_eq!(d.limits.rate_limit_bucket_idle_ttl_secs, 300);
    assert_eq!(d.health.bind_addr, "127.0.0.1:7079");
    assert!(d.metrics.path.is_empty());
    assert_eq!(d.metrics.interval_secs, 15);
    assert_eq!(d.tls.cert_path, "certs/server.crt");
    assert_eq!(d.tls.key_path, "certs/server.key");
    assert!(d.health_enabled());
    assert!(!d.metrics_enabled());
}

#[test]
fn auth_empty_list_means_current_user() {
    let c = AuthConfig::default();
    assert!(c.allowed_uids.is_empty());
    let allow = PeerAllowlist::from_config(&c.allowed_uids);
    assert!(allow.contains(nix::unistd::Uid::effective().as_raw()));
}

#[test]
fn auth_explicit_list_is_used_verbatim() {
    let c = AuthConfig { allowed_uids: vec![42, 7] };
    let allow = PeerAllowlist::from_config_for(&c.allowed_uids, 1);
    assert!(allow.contains(42) && allow.contains(7) && !allow.contains(1));
}

#[test]
fn socket_path_helpers_use_sockets_dir() {
    let c = Config { sockets_dir: "/var/run/fdpass".into(), ..Config::default() };
    assert_eq!(c.processor_sock(), "/var/run/fdpass/fdpass-proc.sock");
    assert_eq!(c.admin_sock(), "/var/run/fdpass/fdpass-admin.sock");
    assert_eq!(c.control_sock("tls"), "/var/run/fdpass/fdpass-ctrl-tls.sock");
}

#[test]
fn socket_paths_join_like_paths() {
    let c = Config { sockets_dir: "/run/".into(), ..Config::default() };
    assert_eq!(c.scanner_sock(), "/run/fdpass-scanner.sock");
    let c = Config { sockets_dir: String::new(), ..Config::default() };
    assert_eq!(c.drainer_sock(), "fdpass-drainer.sock");
    let c = Config { sockets_dir: "/tmp".into(), ..Config::default() };
    assert_eq!(c.spawner_sock(), "/tmp/fdpass-spawner.sock");
    assert_eq!(Config::socket_basename("ctrl-plain"), "fdpass-ctrl-plain.sock");
}

#[test]
fn ready_timeout_converts_secs_to_duration() {
    let c = Config { ready_timeout_secs: 9, ..Config::default() };
    assert_eq!(c.ready_timeout(), Span::from_secs(9));
    assert_eq!(c.ready_timeout().nanos, 9_000_000_000);
}

#[test]
fn source_prefers_inherited_then_explicit_then_environment() {
    let s = |x: &str| Some(x.to_string());
    assert!(matches!(
        config_source(s("{}"), s("a"), s("b")),
        ConfigSource::Inherited(j) if j == "{}"
    ));
    assert!(matches!(config_source(None, s("a"), s("b")), ConfigSource::File(p) if p == "a"));
    assert!(matches!(config_source(None, None, s("b")), ConfigSource::File(p) if p == "b"));
    assert!(matches!(config_source(None, None, None), ConfigSource::Defaults));
}

#[test]
fn runtime_directory_overrides_the_sockets_directory() {
    let mut c = Config::default();
    assert!(!c.apply_runtime_directory(None));
    assert!(!c.apply_runtime_directory(Some("/tmp".into())));
    assert!(c.apply_runtime_directory(Some("/run/fdpass".into())));
    assert_eq!(c.sockets_dir, "/run/fdpass");
}

#[test]
fn spelling_of_a_path_does_not_count() {
    for same in ["/run/x", "/run//x", "/run/x/", "/run/./x", "//run/x/."] {
        assert!(is_same_path("/run/x", same), "{same}");
        assert_eq!(std::path::Path::new("/run/x"), std::path::Path::new(same));
    }
    for (a, b) in [("/x", "x"), ("./x", "x"), ("", "."), ("", "/"), ("a/../b", "b"), ("a", "ab")] {
        assert!(!is_same_path(a, b), "{a} {b}");
        assert_ne!(std::path::Path::new(a), std::path::Path::new(b));
    }
    let mut c = Config { sockets_dir: "/run/x".into(), ..Config::default() };
    assert!(!c.apply_runtime_directory(Some("/run//x".into())));
    assert_eq!(c.sockets_dir, "/run/x");
}

#[test]
fn inherited_configuration_is_taken_as_it_is() {
    let rd = || Some("/run/fdpass".to_string());
    let at = |dir: &str| Config { sockets_dir: dir.into(), plain_port: 9, ..Config::default() };
    let load = |read| match Config::load(read, rd()) {
        Ok((config, changed)) => Ok((config.sockets_dir, config.plain_port, changed)),
        Err(e) => Err((e.message, e.contexts)),
    };
    assert_eq!(load(ConfigRead::Inherited(Ok(at("/a")))), Ok(("/a".into(), 9, false)));
    let file = |content| ConfigRead::File { path: "c.toml".into(), content };
    assert_eq!(load(file(FileContent::Parsed(at("/a")))), Ok(("/run/fdpass".into(), 9, true)));
    assert_eq!(
        load(file(FileContent::Parsed(at("/run/fdpass/")))),
        Ok(("/run/fdpass/".into(), 9, false))
    );
    assert_eq!(load(ConfigRead::Defaults), Ok(("/run/fdpass".into(), 7070, true)));
    let failed = |context: &str| Err(("odd".to_string(), vec![context.to_string()]));
    assert_eq!(
        load(ConfigRead::Inherited(Err("odd".into()))),
        failed("parse inherited config JSON")
    );
    assert_eq!(load(file(FileContent::Unreadable("odd".into()))), failed("read config c.toml"));
    assert_eq!(load(file(FileContent::Malformed("odd".into()))), failed("parse config c.toml"));
}

#[test]
fn metrics_are_written_at_least_a_second_apart() {
    assert_eq!(MetricsConfig { path: "x".into(), interval_secs: 0 }.write_interval_secs(), 1);
    assert_eq!(MetricsConfig { path: "x".into(), interval_secs: 30 }.write_interval_secs(), 30);
}

//! Privileges and the system call filter.

use echod::config::{SandboxMode, SecurityConfig};
use echod::security::{
    apply_sandbox, drop_privileges, drop_step_label, drop_steps, judge_drop_step, judge_lookup,
    judge_program, judge_regain, must_probe_regain, normalize_ids, resolve_gid, resolve_targets,
    resolve_uid, target_arch, worker_filter, DropStep, DropTargets, Principal,
};
use echod::syscalls::{worker_syscall_numbers, worker_syscalls, Arch, Syscall};
use echod::text_map::TextMap;

fn effective_uid() -> u32 {
    nix::unistd::Uid::effective().as_raw()
}

fn effective_gid() -> u32 {
    nix::unistd::Gid::effective().as_raw()
}

#[test]
fn empty_config_is_noop() {
    let mut cfg = SecurityConfig::default();
    assert!(drop_privileges("test", &mut cfg).is_ok(), "no-op drop should succeed");
}

#[test]
fn resolve_uid_accepts_numeric() {
    assert_eq!(resolve_uid("0").unwrap(), 0);
    assert_eq!(resolve_uid("65534").unwrap(), 65534);
}

#[test]
fn resolve_uid_rejects_unknown_name() {
    let err = resolve_uid("this-user-does-not-exist-fdpass").unwrap_err();
    assert!(err.to_text().contains("no such user"));
}

#[test]
fn resolve_uid_finds_root_by_name() {
    let uid = resolve_uid("root").expect("root user lookup");
    assert_eq!(uid, 0);
}

#[test]
fn resolve_gid_accepts_numeric() {
    assert_eq!(resolve_gid("0").unwrap(), 0);
}

#[test]
fn resolve_gid_rejects_unknown_name() {
    let err = resolve_gid("this-group-does-not-exist-fdpass").unwrap_err();
    assert!(err.to_text().contains("no such group"));
}

#[test]
fn resolve_gid_finds_root_by_name() {
    assert_eq!(resolve_gid("root").unwrap(), 0);
}

#[test]
fn lookup_that_fails_is_told_from_one_that_finds_nobody() {
    assert_eq!(judge_lookup(Principal::User, "x", Ok(Some(7))).unwrap(), 7);
    let none = judge_lookup(Principal::Group, "x", Ok(None)).unwrap_err();
    assert!(none.to_text().contains("no such group"));
    let broken = judge_lookup(Principal::User, "x", Err("EIO".into())).unwrap_err();
    assert!(!broken.to_text().contains("no such user"));
    assert_eq!(broken.message, "EIO");
}

#[test]
fn drop_to_current_uid_is_safe_noop() {
    let cur = effective_uid();
    let mut cfg = SecurityConfig {
        drop_uid: Some(cur.to_string()),
        drop_gid: None,
        ..Default::default()
    };
    assert!(drop_privileges("test", &mut cfg).is_ok(), "drop to self should succeed");
    assert_eq!(effective_uid(), cur);
}

#[test]
fn drop_privileges_normalizes_name_to_numeric() {
    let cur = effective_uid();
    let gid = effective_gid();
    let mut cfg = SecurityConfig {
        drop_uid: Some(cur.to_string()),
        drop_gid: Some(gid.to_string()),
        ..Default::default()
    };
    assert!(drop_privileges("test", &mut cfg).is_ok(), "drop to self should succeed");
    let uid_str = cfg.drop_uid.as_deref().expect("drop_uid must be set after drop");
    let gid_str = cfg.drop_gid.as_deref().expect("drop_gid must be set after drop");
    assert!(
        uid_str.parse::<u32>().is_ok(),
        "drop_uid must be numeric after drop: {uid_str:?}"
    );
    assert!(
        gid_str.parse::<u32>().is_ok(),
        "drop_gid must be numeric after drop: {gid_str:?}"
    );
    assert_eq!(uid_str, cur.to_string());
    assert_eq!(gid_str, gid.to_string());
}

#[test]
fn names_become_numbers() {
    let mut cfg = SecurityConfig {
        drop_uid: Some("root".into()),
        drop_gid: Some("root".into()),
        ..Default::default()
    };
    let t = resolve_targets(&cfg).unwrap();
    assert_eq!(t, DropTargets { uid: Some(0), gid: Some(0) });
    normalize_ids(&mut cfg, t);
    assert_eq!(cfg.drop_uid.as_deref(), Some("0"));
    assert_eq!(cfg.drop_gid.as_deref(), Some("0"));
}

#[test]
fn user_is_dropped_last() {
    let both = DropTargets { uid: Some(5), gid: Some(6) };
    assert_eq!(
        drop_steps(both, true),
        vec![DropStep::ClearGroups, DropStep::SetGid(6), DropStep::SetUid(5)]
    );
    assert_eq!(drop_steps(both, false), vec![DropStep::SetGid(6), DropStep::SetUid(5)]);
    assert!(drop_steps(DropTargets { uid: None, gid: None }, true).is_empty());
    assert_eq!(drop_step_label(DropStep::SetUid(5)), "setuid(5)");
    assert_eq!(drop_step_label(DropStep::SetGid(6)), "setgid(6)");
}

#[test]
fn refused_drop_step_is_named() {
    assert!(judge_drop_step(DropStep::ClearGroups, Ok(())).is_ok());
    let refused = |step: DropStep| {
        let failure = judge_drop_step(step, Err("EPERM".into())).unwrap_err();
        (failure.message, failure.contexts)
    };
    assert_eq!(
        refused(DropStep::ClearGroups),
        ("EPERM".to_string(), vec!["setgroups(0, NULL)".to_string()])
    );
    assert_eq!(refused(DropStep::SetGid(6)), ("EPERM".to_string(), vec!["setgid(6)".to_string()]));
    assert_eq!(refused(DropStep::SetUid(5)), ("EPERM".to_string(), vec!["setuid(5)".to_string()]));
}

#[test]
fn unknown_names_fail_and_leave_the_settings_alone() {
    let mut cfg = SecurityConfig {
        drop_uid: Some("no_such_user_here".into()),
        drop_gid: Some("no_such_group_here".into()),
        ..Default::default()
    };
    let user = "no such user: no_such_user_here";
    assert_eq!(resolve_targets(&cfg).unwrap_err().to_text(), user);
    assert_eq!(drop_privileges("plain", &mut cfg).unwrap_err().to_text(), user);
    assert_eq!(cfg.drop_uid.as_deref(), Some("no_such_user_here"));
    assert_eq!(cfg.drop_gid.as_deref(), Some("no_such_group_here"));
    cfg.drop_uid = None;
    assert_eq!(
        drop_privileges("plain", &mut cfg).unwrap_err().to_text(),
        "no such group: no_such_group_here"
    );
    assert_eq!(cfg.drop_uid, None);
    assert_eq!(cfg.drop_gid.as_deref(), Some("no_such_group_here"));
}

#[test]
fn regaining_root_is_a_failure() {
    assert!(must_probe_regain(true, 5));
    assert!(!must_probe_regain(true, 0));
    assert!(!must_probe_regain(false, 5));
    assert!(judge_regain(false).is_ok());
    assert!(judge_regain(true).is_err());
}

#[test]
fn system_call_numbers_are_the_machine_s() {
    let known = [
        (Syscall::SysRead, nix::libc::SYS_read),
        (Syscall::SysWrite, nix::libc::SYS_write),
        (Syscall::SysMmap, nix::libc::SYS_mmap),
        (Syscall::SysOpenat, nix::libc::SYS_openat),
        (Syscall::SysFaccessat2, nix::libc::SYS_faccessat2),
        (Syscall::SysRenameat2, nix::libc::SYS_renameat2),
        (Syscall::SysAccept4, nix::libc::SYS_accept4),
        (Syscall::SysSendmsg, nix::libc::SYS_sendmsg),
        (Syscall::SysRecvmsg, nix::libc::SYS_recvmsg),
        (Syscall::SysEpollPwait2, nix::libc::SYS_epoll_pwait2),
        (Syscall::SysRtSigtimedwait, nix::libc::SYS_rt_sigtimedwait),
        (Syscall::SysClone3, nix::libc::SYS_clone3),
        (Syscall::SysFutex, nix::libc::SYS_futex),
        (Syscall::SysRseq, nix::libc::SYS_rseq),
        (Syscall::SysExecve, nix::libc::SYS_execve),
        (Syscall::SysPidfdOpen, nix::libc::SYS_pidfd_open),
        (Syscall::SysPidfdSendSignal, nix::libc::SYS_pidfd_send_signal),
        (Syscall::SysSeccomp, nix::libc::SYS_seccomp),
        (Syscall::SysSetgroups, nix::libc::SYS_setgroups),
        (Syscall::SysGetrandom, nix::libc::SYS_getrandom),
        (Syscall::SysMembarrier, nix::libc::SYS_membarrier),
        (Syscall::SysRestartSyscall, nix::libc::SYS_restart_syscall),
        (Syscall::SysOpen, nix::libc::SYS_open),
        (Syscall::SysPoll, nix::libc::SYS_poll),
        (Syscall::SysFork, nix::libc::SYS_fork),
        (Syscall::SysArchPrctl, nix::libc::SYS_arch_prctl),
    ];
    for (call, number) in known {
        assert_eq!(call.number(Arch::X86_64), Some(number), "{call:?}");
    }
    assert_eq!(Syscall::SysRead.number(Arch::Aarch64), Some(63));
    assert_eq!(Syscall::SysExecve.number(Arch::Aarch64), Some(221));
    assert_eq!(Syscall::SysOpen.number(Arch::Aarch64), None);
    assert_eq!(Syscall::SysFork.number(Arch::Aarch64), None);
}

#[test]
fn every_allowed_call_has_its_own_number() {
    assert_eq!(worker_syscalls().len(), 103);
    let mut numbers = worker_syscall_numbers(Arch::X86_64);
    assert_eq!(numbers.len(), 103);
    numbers.sort_unstable();
    numbers.dedup();
    assert_eq!(numbers.len(), 103);
    assert_eq!(worker_syscall_numbers(Arch::Aarch64).len(), 94);
}

#[test]
fn filter_is_compiled_where_it_is_wanted() {
    assert!(worker_filter(SandboxMode::Off, Arch::X86_64).unwrap().is_none());
    let strict = worker_filter(SandboxMode::Strict, Arch::X86_64).unwrap().unwrap();
    let log = worker_filter(SandboxMode::Log, Arch::X86_64).unwrap().unwrap();
    assert!(!strict.is_empty());
    assert_ne!(strict, log);
    assert!(worker_filter(SandboxMode::Strict, Arch::Aarch64).unwrap().is_some());
}

#[test]
fn sandbox_follows_the_role() {
    let mut overrides = TextMap::new();
    overrides.insert("scanner".to_string(), SandboxMode::Off);
    let cfg = SecurityConfig {
        sandbox: SandboxMode::Strict,
        sandbox_overrides: overrides,
        ..Default::default()
    };
    assert!(apply_sandbox("scanner", &cfg, "riscv64").unwrap().is_none());
    assert!(apply_sandbox("plain", &cfg, "x86_64").unwrap().is_some());
    assert_eq!(
        apply_sandbox("plain", &cfg, "riscv64").unwrap_err().to_text(),
        "seccomp filter not configured for this arch"
    );
    assert_eq!(target_arch("aarch64").unwrap(), Arch::Aarch64);
}

#[test]
fn filter_that_does_not_compile_is_reported() {
    let err = judge_program(Err("too big".into())).unwrap_err();
    assert_eq!(err.to_text(), "compile seccomp filter");
    assert_eq!(err.message, "too big");
}

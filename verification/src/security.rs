//! Privilege drop and system-call confinement of the workers.

use vstd::prelude::*;

use crate::auth::effective_uid;
use crate::config::{SandboxMode, SecurityConfig};
use crate::fault_inject::Failure;
use crate::syscalls::{allowed_calls, numbers_on, worker_syscall_numbers, Arch};
use crate::text::{
    decimal, decimal_parses_back, decimal_text, opt_view, parse_u32, parse_upto, same_text,
};

verus! {

/// `nix::unistd::User::from_name`: the uid that the user database gives the name, nothing where
/// it has no such user, or the error of the lookup. What the database holds is left unsaid.
#[verifier::external_body]
fn find_user(name: &str) -> (r: Result<Option<u32>, String>) {
    match nix::unistd::User::from_name(name) {
        Ok(user) => Ok(user.map(|u| u.uid.as_raw())),
        Err(e) => Err(e.to_string()),
    }
}

/// `nix::unistd::Group::from_name`: the gid that the group database gives the name, nothing where
/// it has no such group, or the error of the lookup. What the database holds is left unsaid.
#[verifier::external_body]
fn find_group(name: &str) -> (r: Result<Option<u32>, String>) {
    match nix::unistd::Group::from_name(name) {
        Ok(group) => Ok(group.map(|g| g.gid.as_raw())),
        Err(e) => Err(e.to_string()),
    }
}

/// A user or a group.
#[derive(Clone, Copy, Debug, PartialEq, Eq, Structural)]
pub enum Principal {
    User,
    Group,
}

/// What a principal is called in messages.
pub open spec fn principal_label(p: Principal) -> Seq<char> {
    match p {
        Principal::User => "user"@,
        Principal::Group => "group"@,
    }
}

/// `r` is the outcome for a name that was looked up with the result `found`.
pub open spec fn lookup_outcome(
    p: Principal,
    name: Seq<char>,
    found: Result<Option<u32>, String>,
    r: Result<u32, Failure>,
) -> bool {
    match found {
        Ok(Some(id)) => r == Ok::<u32, Failure>(id),
        Ok(None) => r is Err && r->Err_0.shown() == "no such "@ + principal_label(p) + ": "@ + name,
        Err(text) => r is Err && r->Err_0.message@ == text@ && r->Err_0.shown() == "lookup "@
            + principal_label(p) + " "@ + name,
    }
}

/// Judges what the lookup of a name came back with.
pub fn judge_lookup(p: Principal, name: &str, found: Result<Option<u32>, String>) -> (r: Result<
    u32,
    Failure,
>)
    ensures
        lookup_outcome(p, name@, found, r),
{
    let label = match p {
        Principal::User => "user",
        Principal::Group => "group",
    };
    match found {
        Ok(Some(id)) => Ok(id),
        Ok(None) => {
            let mut text = "no such ".to_owned();
            text.append(label);
            text.append(": ");
            text.append(name);
            Err(Failure::new(text.as_str()))
        },
        Err(e) => {
            let mut text = "lookup ".to_owned();
            text.append(label);
            text.append(" ");
            text.append(name);
            Err(Failure::new(e.as_str()).context(text.as_str()))
        },
    }
}

/// `r` is the outcome for a setting: a number stands for itself, anything else is looked up.
pub open spec fn id_outcome(p: Principal, setting: Seq<char>, r: Result<u32, Failure>) -> bool {
    match parse_upto(setting, u32::MAX as nat) {
        Some(n) => r is Ok && r->Ok_0 == n,
        None => exists|found: Result<Option<u32>, String>| #[trigger]
            lookup_outcome(p, setting, found, r),
    }
}

/// The uid that a setting means: a number stands for itself, anything else is looked up.
pub fn resolve_uid(spec: &str) -> (r: Result<u32, Failure>)
    ensures
        id_outcome(Principal::User, spec@, r),
{
    if let Some(n) = parse_u32(spec) {
        return Ok(n);
    }
    let found = find_user(spec);
    let ghost seen = found;
    let r = judge_lookup(Principal::User, spec, found);
    proof {
        assert(lookup_outcome(Principal::User, spec@, seen, r));
    }
    r
}

/// The gid that a setting means: a number stands for itself, anything else is looked up.
pub fn resolve_gid(spec: &str) -> (r: Result<u32, Failure>)
    ensures
        id_outcome(Principal::Group, spec@, r),
{
    if let Some(n) = parse_u32(spec) {
        return Ok(n);
    }
    let found = find_group(spec);
    let ghost seen = found;
    let r = judge_lookup(Principal::Group, spec, found);
    proof {
        assert(lookup_outcome(Principal::Group, spec@, seen, r));
    }
    r
}

/// The ids to drop to.
#[derive(Clone, Copy, Debug, PartialEq, Eq, Structural)]
pub struct DropTargets {
    pub uid: Option<u32>,
    pub gid: Option<u32>,
}

/// `r` is the outcome for a setting that may be unset: unset stays unset.
pub open spec fn target_outcome(
    p: Principal,
    setting: Option<String>,
    r: Result<Option<u32>, Failure>,
) -> bool {
    match setting {
        None => r == Ok::<Option<u32>, Failure>(None),
        Some(spec) => match r {
            Ok(id) => id is Some && id_outcome(p, spec@, Ok(id->0)),
            Err(e) => id_outcome(p, spec@, Err(e)),
        },
    }
}

/// `r` is the outcome for the two settings of `cfg`. A failure is that of the user; it is that of
/// the group only where the user was found.
pub open spec fn targets_outcome(cfg: SecurityConfig, r: Result<DropTargets, Failure>) -> bool {
    match r {
        Ok(t) => {
            &&& target_outcome(Principal::User, cfg.drop_uid, Ok(t.uid))
            &&& target_outcome(Principal::Group, cfg.drop_gid, Ok(t.gid))
        },
        Err(e) => {
            ||| target_outcome(Principal::User, cfg.drop_uid, Err(e))
            ||| {
                &&& exists|uid: Option<u32>| #[trigger]
                    target_outcome(Principal::User, cfg.drop_uid, Ok(uid))
                &&& target_outcome(Principal::Group, cfg.drop_gid, Err(e))
            }
        },
    }
}

/// Every setting that is there is a number.
pub open spec fn is_numeric(setting: Option<String>) -> bool {
    setting is Some ==> parse_upto(setting->0@, u32::MAX as nat) is Some
}

/// Finds the ids to drop to. Only a name can fail.
pub fn resolve_targets(cfg: &SecurityConfig) -> (r: Result<DropTargets, Failure>)
    ensures
        targets_outcome(*cfg, r),
        is_numeric(cfg.drop_uid) && is_numeric(cfg.drop_gid) ==> r is Ok,
{
    let uid = match &cfg.drop_uid {
        Some(spec) => match resolve_uid(spec.as_str()) {
            Ok(n) => Some(n),
            Err(e) => return Err(e),
        },
        None => None,
    };
    proof {
        assert(target_outcome(Principal::User, cfg.drop_uid, Ok(uid)));
    }
    let gid = match &cfg.drop_gid {
        Some(spec) => match resolve_gid(spec.as_str()) {
            Ok(n) => Some(n),
            Err(e) => return Err(e),
        },
        None => None,
    };
    Ok(DropTargets { uid, gid })
}

/// One step of a privilege drop.
#[derive(Clone, Copy, Debug, PartialEq, Eq, Structural)]
pub enum DropStep {
    /// Leave all supplementary groups.
    ClearGroups,
    SetGid(u32),
    SetUid(u32),
}

/// The steps of a drop. The uid goes last, since without it the others are not permitted any
/// more; only root may leave its supplementary groups.
pub open spec fn drop_plan(t: DropTargets, root: bool) -> Seq<DropStep> {
    if t.uid is None && t.gid is None {
        seq![]
    } else {
        (if root {
            seq![DropStep::ClearGroups]
        } else {
            seq![]
        }) + (match t.gid {
            Some(gid) => seq![DropStep::SetGid(gid)],
            None => seq![],
        }) + (match t.uid {
            Some(uid) => seq![DropStep::SetUid(uid)],
            None => seq![],
        })
    }
}

/// The steps of a drop.
pub fn drop_steps(t: DropTargets, root: bool) -> (v: Vec<DropStep>)
    ensures
        v@ == drop_plan(t, root),
{
    let mut v: Vec<DropStep> = Vec::new();
    if t.uid.is_none() && t.gid.is_none() {
        return v;
    }
    if root {
        v.push(DropStep::ClearGroups);
    }
    if let Some(gid) = t.gid {
        v.push(DropStep::SetGid(gid));
    }
    if let Some(uid) = t.uid {
        v.push(DropStep::SetUid(uid));
    }
    proof {
        assert(v@ =~= drop_plan(t, root));
    }
    v
}

/// What a step is called when it fails.
pub open spec fn step_label(step: DropStep) -> Seq<char> {
    match step {
        DropStep::ClearGroups => "setgroups(0, NULL)"@,
        DropStep::SetGid(gid) => "setgid("@ + decimal(gid as nat) + ")"@,
        DropStep::SetUid(uid) => "setuid("@ + decimal(uid as nat) + ")"@,
    }
}

/// What a step is called when it fails.
pub fn drop_step_label(step: DropStep) -> (s: String)
    ensures
        s@ == step_label(step),
{
    match step {
        DropStep::ClearGroups => "setgroups(0, NULL)".to_owned(),
        DropStep::SetGid(gid) => {
            let mut s = "setgid(".to_owned();
            s.append(decimal_text(gid as u64).as_str());
            s.append(")");
            s
        },
        DropStep::SetUid(uid) => {
            let mut s = "setuid(".to_owned();
            s.append(decimal_text(uid as u64).as_str());
            s.append(")");
            s
        },
    }
}

/// The setting after a drop: the number of the id in place of its name.
pub open spec fn normalized(setting: Option<Seq<char>>, id: Option<u32>) -> Option<Seq<char>> {
    match id {
        Some(n) => Some(decimal(n as nat)),
        None => setting,
    }
}

/// Puts the numbers in place of the names, so that a successor needs no lookup.
pub fn normalize_ids(cfg: &mut SecurityConfig, t: DropTargets)
    ensures
        opt_view(final(cfg).drop_uid) == normalized(opt_view(old(cfg).drop_uid), t.uid),
        opt_view(final(cfg).drop_gid) == normalized(opt_view(old(cfg).drop_gid), t.gid),
        final(cfg).sandbox == old(cfg).sandbox,
        final(cfg).sandbox_overrides == old(cfg).sandbox_overrides,
{
    if let Some(uid) = t.uid {
        cfg.drop_uid = Some(decimal_text(uid as u64));
    }
    if let Some(gid) = t.gid {
        cfg.drop_gid = Some(decimal_text(gid as u64));
    }
}

/// Whether regaining root is to be tried after a drop: only where root was given up.
pub fn must_probe_regain(started_as_root: bool, new_uid: u32) -> (r: bool)
    ensures
        r == (started_as_root && new_uid != 0),
{
    started_as_root && new_uid != 0
}

/// What a drop that could be undone is reported as.
pub open spec fn reversible_text() -> Seq<char> {
    "privilege drop appears reversible (setuid(0) succeeded); refusing to continue"@
}

/// Judges the attempt to regain root: it must have failed.
pub fn judge_regain(regained: bool) -> (r: Result<(), Failure>)
    ensures
        r is Err <==> regained,
        r is Err ==> r->Err_0.shown() == reversible_text(),
{
    if regained {
        Err(
            Failure::new(
                "privilege drop appears reversible (setuid(0) succeeded); refusing to continue",
            ),
        )
    } else {
        Ok(())
    }
}

/// `nix::unistd::setgroups` with no groups: leaves all supplementary groups, or tells why not in
/// the words of the I/O error. What the system permits is left unsaid.
#[verifier::external_body]
fn clear_groups() -> (r: Result<(), String>) {
    nix::unistd::setgroups(&[]).map_err(|e| std::io::Error::from(e).to_string())
}

/// `nix::unistd::setgid`: takes the group, or tells why not. What the system permits is left
/// unsaid.
#[verifier::external_body]
fn set_gid(gid: u32) -> (r: Result<(), String>) {
    nix::unistd::setgid(nix::unistd::Gid::from_raw(gid)).map_err(|e| e.to_string())
}

/// `nix::unistd::setuid`: takes the user, or tells why not. What the system permits is left unsaid.
#[verifier::external_body]
fn set_uid(uid: u32) -> (r: Result<(), String>) {
    nix::unistd::setuid(nix::unistd::Uid::from_raw(uid)).map_err(|e| e.to_string())
}

/// `r` is what a step of a drop comes to when the system answers `done`: a refusal keeps the
/// system's words, with the step's label around them.
pub open spec fn step_outcome(
    step: DropStep,
    done: Result<(), String>,
    r: Result<(), Failure>,
) -> bool {
    match done {
        Ok(()) => r is Ok,
        Err(text) => {
            &&& r is Err
            &&& r->Err_0.message@ == text@
            &&& r->Err_0.contexts@.len() == 1
            &&& r->Err_0.contexts@[0]@ == step_label(step)
        },
    }
}

/// Judges what the system answered to a step of a drop.
pub fn judge_drop_step(step: DropStep, done: Result<(), String>) -> (r: Result<(), Failure>)
    ensures
        step_outcome(step, done, r),
{
    match done {
        Ok(()) => Ok(()),
        Err(e) => Err(Failure::new(e.as_str()).context(drop_step_label(step).as_str())),
    }
}

/// Takes one step of a drop; a refusal is reported under the step's label.
fn take_drop_step(step: DropStep) -> (r: Result<(), Failure>)
    ensures
        exists|done: Result<(), String>| #[trigger] step_outcome(step, done, r),
{
    let done = match step {
        DropStep::ClearGroups => clear_groups(),
        DropStep::SetGid(gid) => set_gid(gid),
        DropStep::SetUid(uid) => set_uid(uid),
    };
    let ghost answer = done;
    let r = judge_drop_step(step, done);
    proof {
        assert(step_outcome(step, answer, r));
    }
    r
}

/// `after` is what a drop to `t` makes of the settings `before`, which mean `t`.
pub open spec fn settings_dropped(
    before: SecurityConfig,
    after: SecurityConfig,
    t: DropTargets,
) -> bool {
    &&& targets_outcome(before, Ok(t))
    &&& opt_view(after.drop_uid) == normalized(opt_view(before.drop_uid), t.uid)
    &&& opt_view(after.drop_gid) == normalized(opt_view(before.drop_gid), t.gid)
}

/// `e` reports that step `i` of the drop that `cfg` calls for was refused with `text`.
pub open spec fn step_refused(
    cfg: SecurityConfig,
    t: DropTargets,
    root: bool,
    i: int,
    text: String,
    e: Failure,
) -> bool {
    &&& targets_outcome(cfg, Ok(t))
    &&& 0 <= i < drop_plan(t, root).len()
    &&& step_outcome(drop_plan(t, root)[i], Err(text), Err(e))
}

/// `e` reports an id that was not found, or a step that was refused.
pub open spec fn drop_refused(cfg: SecurityConfig, e: Failure) -> bool {
    ||| targets_outcome(cfg, Err(e))
    ||| exists|t: DropTargets, root: bool, i: int, text: String| #[trigger]
        step_refused(cfg, t, root, i, text, e)
}

/// No failed lookup and no refused step reads like a drop that could be undone.
proof fn lemma_refusals_read_otherwise(cfg: SecurityConfig, e: Failure)
    requires
        drop_refused(cfg, e),
    ensures
        e.shown() != reversible_text(),
{
    reveal_strlit("privilege drop appears reversible (setuid(0) succeeded); refusing to continue");
    reveal_strlit("no such ");
    reveal_strlit("lookup ");
    reveal_strlit("setgroups(0, NULL)");
    reveal_strlit("setgid(");
    reveal_strlit("setuid(");
    assert(reversible_text()[0] == 'p');
    if targets_outcome(cfg, Err(e)) {
        assert(e.shown()[0] == 'n' || e.shown()[0] == 'l');
    } else {
        let (t, root, i, text) = choose|t: DropTargets, root: bool, i: int, text: String| #[trigger]
            step_refused(cfg, t, root, i, text, e);
        assert(e.shown() == step_label(drop_plan(t, root)[i]));
        assert(e.shown()[0] == 's');
    }
}

/// Drops to the configured ids, in the order that the system asks for, and puts their numbers
/// into the configuration. Nothing happens where no id is configured. A drop that could be
/// undone is a failure; any other failure leaves the configuration as it was. That the process
/// then has these ids rests on the system, and is left unsaid.
pub fn drop_privileges(_role: &str, cfg: &mut SecurityConfig) -> (r: Result<(), Failure>)
    ensures
        old(cfg).drop_uid is None && old(cfg).drop_gid is None ==> r is Ok && *final(cfg) == *old(
            cfg,
        ),
        r is Ok ==> exists|t: DropTargets| #[trigger] settings_dropped(*old(cfg), *final(cfg), t),
        r is Err && r->Err_0.shown() != reversible_text() ==> *final(cfg) == *old(cfg)
            && drop_refused(*old(cfg), r->Err_0),
        r is Err && r->Err_0.shown() == reversible_text() ==> exists|t: DropTargets| #[trigger]
            settings_dropped(*old(cfg), *final(cfg), t),
        final(cfg).sandbox == old(cfg).sandbox,
        final(cfg).sandbox_overrides == old(cfg).sandbox_overrides,
{
    let targets = match resolve_targets(cfg) {
        Ok(t) => t,
        Err(e) => {
            proof {
                lemma_refusals_read_otherwise(*old(cfg), e);
            }
            return Err(e);
        },
    };
    if targets.uid.is_none() && targets.gid.is_none() {
        proof {
            assert(settings_dropped(*old(cfg), *cfg, targets));
        }
        return Ok(());
    }
    let root = effective_uid() == 0;
    let steps = drop_steps(targets, root);
    let mut i: usize = 0;
    while i < steps.len()
        invariant
            i <= steps@.len(),
            steps@ == drop_plan(targets, root),
            targets_outcome(*old(cfg), Ok(targets)),
            *cfg == *old(cfg),
            old(cfg).drop_uid is Some || old(cfg).drop_gid is Some,
        decreases steps.len() - i,
    {
        match take_drop_step(steps[i]) {
            Ok(()) => {},
            Err(e) => {
                proof {
                    let answer = choose|done: Result<(), String>| #[trigger]
                        step_outcome(steps@[i as int], done, Err(e));
                    assert(step_refused(*old(cfg), targets, root, i as int, answer->Err_0, e));
                    lemma_refusals_read_otherwise(*old(cfg), e);
                }
                return Err(e);
            },
        }
        i = i + 1;
    }
    normalize_ids(cfg, targets);
    proof {
        assert(settings_dropped(*old(cfg), *cfg, targets));
    }
    if must_probe_regain(root, effective_uid()) {
        return judge_regain(set_uid(0).is_ok());
    }
    Ok(())
}

/// What a filter does to a call.
#[derive(Clone, Copy, Debug, PartialEq, Eq, Structural)]
pub enum FilterAction {
    Allow,
    KillProcess,
    Log,
}

/// One instruction of a filter program.
#[derive(Clone, Copy, Debug, PartialEq, Eq, Structural)]
pub struct BpfInsn {
    pub code: u16,
    pub jt: u8,
    pub jf: u8,
    pub k: u32,
}

/// The program that `seccompiler` makes of a filter that does `listed` to `calls` and `other` to
/// every other call, or the text of its error.
pub uninterp spec fn seccomp_program(
    calls: Seq<i64>,
    listed: FilterAction,
    other: FilterAction,
    arch: Arch,
) -> Result<Seq<(u16, u8, u8, u32)>, Seq<char>>;

/// The instructions as plain values.
pub open spec fn insn_views(v: Seq<BpfInsn>) -> Seq<(u16, u8, u8, u32)> {
    Seq::new(v.len(), |i: int| (v[i].code, v[i].jt, v[i].jf, v[i].k))
}

/// `seccompiler::SeccompFilter::new` and its conversion into a `BpfProgram`: the program, or the
/// error, depends on the arguments alone. A filter is refused where its two actions are the same;
/// a program grows by five instructions per call and is too large from 4096 on, so up to 800 calls
/// always make one.
#[verifier::external_body]
fn compile_filter(calls: &Vec<i64>, listed: FilterAction, other: FilterAction, arch: Arch) -> (r:
    Result<Vec<BpfInsn>, String>)
    requires
        forall|i: int| 0 <= i < calls@.len() ==> 0 <= #[trigger] calls@[i] <= u32::MAX,
    ensures
        match r {
            Ok(v) => seccomp_program(calls@, listed, other, arch) == Ok::<
                Seq<(u16, u8, u8, u32)>,
                Seq<char>,
            >(insn_views(v@)),
            Err(e) => seccomp_program(calls@, listed, other, arch) == Err::<
                Seq<(u16, u8, u8, u32)>,
                Seq<char>,
            >(e@),
        },
        calls@.len() <= 800 && listed != other ==> r is Ok,
{
    let action = |a: FilterAction| match a {
        FilterAction::Allow => seccompiler::SeccompAction::Allow,
        FilterAction::KillProcess => seccompiler::SeccompAction::KillProcess,
        FilterAction::Log => seccompiler::SeccompAction::Log,
    };
    let target = match arch {
        Arch::X86_64 => seccompiler::TargetArch::x86_64,
        Arch::Aarch64 => seccompiler::TargetArch::aarch64,
    };
    let rules = calls.iter().map(|n| (*n, vec![])).collect();
    seccompiler::SeccompFilter::new(rules, action(other), action(listed), target)
        .and_then(|f| seccompiler::BpfProgram::try_from(f))
        .map(|p| p.iter().map(|i| BpfInsn { code: i.code, jt: i.jt, jf: i.jf, k: i.k }).collect())
        .map_err(|e| e.to_string())
}

/// The architecture of that name, where there is one.
pub open spec fn named_arch(name: Seq<char>) -> Arch {
    if name == "x86_64"@ {
        Arch::X86_64
    } else {
        Arch::Aarch64
    }
}

/// The architecture of that name.
pub fn target_arch(name: &str) -> (r: Result<Arch, Failure>)
    ensures
        name@ == "x86_64"@ ==> r == Ok::<Arch, Failure>(Arch::X86_64),
        name@ != "x86_64"@ && name@ == "aarch64"@ ==> r == Ok::<Arch, Failure>(Arch::Aarch64),
        name@ != "x86_64"@ && name@ != "aarch64"@ ==> r is Err && r->Err_0.shown()
            == "seccomp filter not configured for this arch"@,
{
    if same_text(name, "x86_64") {
        Ok(Arch::X86_64)
    } else if same_text(name, "aarch64") {
        Ok(Arch::Aarch64)
    } else {
        Err(Failure::new("seccomp filter not configured for this arch"))
    }
}

/// What a mode does to a call that the filter does not allow; nothing where there is no filter.
pub open spec fn mismatch_of(mode: SandboxMode) -> Option<FilterAction> {
    match mode {
        SandboxMode::Strict => Some(FilterAction::KillProcess),
        SandboxMode::Log => Some(FilterAction::Log),
        SandboxMode::Off => None,
    }
}

/// The filter program for a worker in `mode` on `arch`; there is none where the mode is off.
pub fn worker_filter(mode: SandboxMode, arch: Arch) -> (r: Result<Option<Vec<BpfInsn>>, Failure>)
    ensures
        r is Ok,
        match mismatch_of(mode) {
            None => r->Ok_0 is None,
            Some(m) => r->Ok_0 is Some && seccomp_program(
                numbers_on(allowed_calls(), arch),
                FilterAction::Allow,
                m,
                arch,
            ) == Ok::<Seq<(u16, u8, u8, u32)>, Seq<char>>(insn_views(r->Ok_0->0@)),
        },
{
    let mismatch = match mode {
        SandboxMode::Strict => FilterAction::KillProcess,
        SandboxMode::Log => FilterAction::Log,
        SandboxMode::Off => return Ok(None),
    };
    let calls = worker_syscall_numbers(arch);
    judge_program(compile_filter(&calls, FilterAction::Allow, mismatch, arch))
}

/// Judges what came of making a filter program.
pub fn judge_program(compiled: Result<Vec<BpfInsn>, String>) -> (r: Result<
    Option<Vec<BpfInsn>>,
    Failure,
>)
    ensures
        match compiled {
            Ok(program) => r == Ok::<Option<Vec<BpfInsn>>, Failure>(Some(program)),
            Err(e) => r is Err && r->Err_0.message@ == e@ && r->Err_0.shown()
                == "compile seccomp filter"@,
        },
{
    match compiled {
        Ok(program) => Ok(Some(program)),
        Err(e) => Err(Failure::new(e.as_str()).context("compile seccomp filter")),
    }
}

/// The filter that a role's configuration calls for, on a machine of the named architecture.
pub fn apply_sandbox(role: &str, cfg: &SecurityConfig, arch_name: &str) -> (r: Result<
    Option<Vec<BpfInsn>>,
    Failure,
>)
    ensures
        cfg.sandbox_for(role@) is Off ==> r == Ok::<Option<Vec<BpfInsn>>, Failure>(None),
        !(cfg.sandbox_for(role@) is Off) ==> (r is Ok <==> arch_name@ == "x86_64"@ || arch_name@
            == "aarch64"@),
        r is Err ==> r->Err_0.shown() == "seccomp filter not configured for this arch"@,
        r is Ok && r->Ok_0 is Some ==> seccomp_program(
            numbers_on(allowed_calls(), named_arch(arch_name@)),
            FilterAction::Allow,
            mismatch_of(cfg.sandbox_for(role@))->0,
            named_arch(arch_name@),
        ) == Ok::<Seq<(u16, u8, u8, u32)>, Seq<char>>(insn_views(r->Ok_0->0@)),
        r is Ok ==> (r->Ok_0 is Some <==> !(cfg.sandbox_for(role@) is Off)),
{
    let mode = cfg.effective_sandbox(role);
    match mode {
        SandboxMode::Off => Ok(None),
        _ => match target_arch(arch_name) {
            Ok(arch) => worker_filter(mode, arch),
            Err(e) => Err(e),
        },
    }
}

// Laws
/// In a drop, no group is changed after the uid.
pub proof fn uid_is_dropped_last(t: DropTargets, root: bool, i: int)
    requires
        0 <= i < drop_plan(t, root).len(),
        drop_plan(t, root)[i] is SetUid,
    ensures
        i == drop_plan(t, root).len() - 1,
{
}

/// A drop leaves numbers behind, and each stands for the id that was dropped to: a successor finds
/// the same ids without a lookup.
pub proof fn normalized_ids_need_no_lookup(setting: Option<Seq<char>>, id: u32)
    ensures
        normalized(setting, Some(id)) is Some,
        parse_upto(normalized(setting, Some(id))->0, u32::MAX as nat) == Some(id as nat),
{
    decimal_parses_back(id as nat);
}

/// A drop goes to every id that is wanted and to no other, leaves the supplementary groups exactly
/// where root can, and does nothing where no id is wanted.
pub proof fn drop_goes_to_every_wanted_id(t: DropTargets, root: bool, id: u32)
    ensures
        drop_plan(t, root).contains(DropStep::SetUid(id)) <==> t.uid == Some(id),
        drop_plan(t, root).contains(DropStep::SetGid(id)) <==> t.gid == Some(id),
        drop_plan(t, root).contains(DropStep::ClearGroups) <==> root && (t.uid is Some || t.gid
            is Some),
        drop_plan(t, root).contains(DropStep::ClearGroups) ==> drop_plan(t, root)[0]
            is ClearGroups,
        drop_plan(t, root).no_duplicates(),
{
    let plan = drop_plan(t, root);
    let g: int = if root {
        1
    } else {
        0
    };
    let u: int = g + (if t.gid is Some {
        1int
    } else {
        0int
    });
    if t.uid is Some || t.gid is Some {
        if root {
            assert(plan[0] == DropStep::ClearGroups);
        }
        if t.gid is Some {
            assert(plan[g] == DropStep::SetGid(t.gid->0));
        }
        if t.uid is Some {
            assert(plan[u] == DropStep::SetUid(t.uid->0));
        }
    }
}

/// An id that nothing was found for leaves the setting as it is.
pub proof fn unset_id_changes_no_setting(setting: Option<Seq<char>>)
    ensures
        normalized(setting, None) == setting,
{
}

/// A setting that is a number is that id, whatever the user database holds; for a name the id is
/// the one that was found, and without one there is no id.
pub proof fn numbers_stand_for_themselves(
    p: Principal,
    id: u32,
    name: Seq<char>,
    text: String,
    r: Result<u32, Failure>,
)
    ensures
        id_outcome(p, decimal(id as nat), r) ==> r == Ok::<u32, Failure>(id),
        lookup_outcome(p, name, Ok(Some(id)), r) ==> r == Ok::<u32, Failure>(id),
        lookup_outcome(p, name, Ok(None), r) ==> r is Err,
        lookup_outcome(p, name, Err(text), r) ==> r is Err && r->Err_0.message@ == text@,
{
    decimal_parses_back(id as nat);
}

/// Settings that are numbers give these very ids, each in its own place; a setting that is not
/// there gives none.
pub proof fn numeric_settings_give_their_ids(
    cfg: SecurityConfig,
    uid: u32,
    gid: u32,
    t: DropTargets,
)
    requires
        targets_outcome(cfg, Ok(t)),
    ensures
        opt_view(cfg.drop_uid) == Some(decimal(uid as nat)) ==> t.uid == Some(uid),
        opt_view(cfg.drop_gid) == Some(decimal(gid as nat)) ==> t.gid == Some(gid),
        cfg.drop_uid is None ==> t.uid is None,
        cfg.drop_gid is None ==> t.gid is None,
{
    decimal_parses_back(uid as nat);
    decimal_parses_back(gid as nat);
}

/// A strict filter kills, a filter that logs only logs, and without confinement there is no filter.
pub proof fn mode_decides_what_a_filter_does()
    ensures
        mismatch_of(SandboxMode::Strict) == Some(FilterAction::KillProcess),
        mismatch_of(SandboxMode::Log) == Some(FilterAction::Log),
        mismatch_of(SandboxMode::Off) is None,
        named_arch("x86_64"@) is X86_64,
        named_arch("aarch64"@) is Aarch64,
{
    reveal_strlit("x86_64");
    reveal_strlit("aarch64");
    assert("x86_64"@.len() != "aarch64"@.len());
}

/// After a drop the settings read as the ids that were dropped to; a setting that was not there
/// is still not there.
pub proof fn settings_read_as_what_was_dropped_to(
    before: SecurityConfig,
    after: SecurityConfig,
    t: DropTargets,
)
    requires
        settings_dropped(before, after, t),
    ensures
        t.uid is Some ==> after.drop_uid is Some && parse_upto(
            after.drop_uid->0@,
            u32::MAX as nat,
        ) == Some(t.uid->0 as nat),
        t.gid is Some ==> after.drop_gid is Some && parse_upto(
            after.drop_gid->0@,
            u32::MAX as nat,
        ) == Some(t.gid->0 as nat),
        before.drop_uid is None ==> after.drop_uid is None,
        before.drop_gid is None ==> after.drop_gid is None,
        before.drop_uid is Some <==> t.uid is Some,
        before.drop_gid is Some <==> t.gid is Some,
{
    if t.uid is Some {
        decimal_parses_back(t.uid->0 as nat);
    }
    if t.gid is Some {
        decimal_parses_back(t.gid->0 as nat);
    }
}

/// A step that the system takes is no failure. One that it refuses is reported under the call that
/// was made, with the id, and keeps the system's words.
pub proof fn refused_step_is_named(
    id: u32,
    step: DropStep,
    text: String,
    r: Result<(), Failure>,
)
    ensures
        step_outcome(step, Ok(()), r) ==> r is Ok,
        step_outcome(step, Err(text), r) ==> r is Err && r->Err_0.message@ == text@,
        step_outcome(DropStep::SetGid(id), Err(text), r) ==> r->Err_0.shown() == "setgid("@
            + decimal(id as nat) + ")"@,
        step_outcome(DropStep::SetUid(id), Err(text), r) ==> r->Err_0.shown() == "setuid("@
            + decimal(id as nat) + ")"@,
        step_outcome(DropStep::ClearGroups, Err(text), r) ==> r->Err_0.shown()
            == "setgroups(0, NULL)"@,
{
}

/// A drop that is refused at a step is refused at one of the steps that it consists of.
pub proof fn refusal_belongs_to_the_drop(
    cfg: SecurityConfig,
    t: DropTargets,
    root: bool,
    i: int,
    text: String,
    e: Failure,
)
    requires
        step_refused(cfg, t, root, i, text, e),
    ensures
        targets_outcome(cfg, Ok(t)),
        0 <= i < drop_plan(t, root).len(),
        e.message@ == text@,
        e.shown() == step_label(drop_plan(t, root)[i]),
{
}

/// A name that is not in the database is reported as such; a lookup that fails keeps its reason.
pub proof fn missing_names_are_reported(name: Seq<char>, text: String, r: Result<u32, Failure>)
    ensures
        lookup_outcome(Principal::User, name, Ok(None), r) ==> r->Err_0.shown() == "no such "@
            + "user"@ + ": "@ + name,
        lookup_outcome(Principal::Group, name, Ok(None), r) ==> r->Err_0.shown() == "no such "@
            + "group"@ + ": "@ + name,
        lookup_outcome(Principal::User, name, Err(text), r) ==> r->Err_0.message@ == text@,
{
}

/// Settings are numeric where each that is there is a number.
pub proof fn numbers_are_numeric(setting: Option<String>, id: u32)
    ensures
        is_numeric(None),
        opt_view(setting) == Some(decimal(id as nat)) ==> is_numeric(setting),
        setting is Some && parse_upto(setting->0@, u32::MAX as nat) is None ==> !is_numeric(
            setting,
        ),
{
    decimal_parses_back(id as nat);
}

} // verus!

//! Deterministic fault injection: named points that fire a configured number of times.

use vstd::prelude::*;

use crate::config::FaultPointConfig;
use crate::text::same_text;

verus! {

/// The classes of I/O error that the daemon tells apart.
#[derive(Clone, Copy, Debug, PartialEq, Eq, Structural)]
pub enum ErrorKind {
    Other,
    ConnectionRefused,
    TimedOut,
    WouldBlock,
    UnexpectedEof,
    InvalidData,
    InvalidInput,
    WriteZero,
}

/// An I/O error: its class and its message.
#[derive(Debug)]
pub struct IoError {
    pub kind: ErrorKind,
    pub message: String,
}

/// Any other failure, with what its report says: the message and the contexts put around it, the
/// outermost last.
#[derive(Debug)]
pub struct Failure {
    pub message: String,
    pub contexts: Vec<String>,
}

impl Failure {
    /// A failure that says `message`.
    pub fn new(message: &str) -> (f: Failure)
        ensures
            f.message@ == message@,
            f.contexts@.len() == 0,
    {
        Failure { message: message.to_owned(), contexts: Vec::new() }
    }

    /// The same failure, reported under `context`.
    pub fn context(self, context: &str) -> (f: Failure)
        ensures
            f.message == self.message,
            f.contexts@.len() == self.contexts@.len() + 1,
            f.contexts@.drop_last() == self.contexts@,
            f.contexts@.last()@ == context@,
    {
        let mut contexts = self.contexts;
        contexts.push(context.to_owned());
        proof {
            assert(contexts@.drop_last() =~= self.contexts@);
        }
        Failure { message: self.message, contexts }
    }

    /// What a one-line report shows: the outermost context, or the message where there is none.
    pub open spec fn shown(&self) -> Seq<char> {
        if self.contexts@.len() > 0 {
            self.contexts@.last()@
        } else {
            self.message@
        }
    }

    /// The failure says `message`, and is reported as `context` and nothing more.
    pub open spec fn says_under(&self, message: Seq<char>, context: Seq<char>) -> bool {
        &&& self.message@ == message
        &&& self.contexts@.len() == 1
        &&& self.contexts@[0]@ == context
    }

    /// The one-line report.
    pub fn to_text(&self) -> (s: String)
        ensures
            s@ == self.shown(),
    {
        if self.contexts.len() > 0 {
            self.contexts[self.contexts.len() - 1].clone()
        } else {
            self.message.clone()
        }
    }
}

/// What a point hands to its call site when it fires.
#[derive(Debug)]
pub enum InjectedFault {
    IoError(ErrorKind, String),
    Skip,
    Panic(String),
}

impl InjectedFault {
    /// The I/O error that this fault stands for. A `Panic` fault stands for none.
    pub open spec fn error_kind(&self) -> ErrorKind {
        match *self {
            InjectedFault::IoError(kind, _) => kind,
            _ => ErrorKind::Other,
        }
    }

    pub open spec fn error_message(&self) -> Seq<char> {
        match *self {
            InjectedFault::IoError(_, message) => message@,
            InjectedFault::Skip => "fault: skip"@,
            InjectedFault::Panic(message) => message@,
        }
    }

    /// The fault as an I/O error. A `Panic` fault is not for this: its call site aborts.
    pub fn into_io_error(self) -> (e: IoError)
        requires
            !(self is Panic),
        ensures
            e.kind == self.error_kind(),
            e.message@ == self.error_message(),
    {
        match self {
            InjectedFault::IoError(kind, message) => IoError { kind, message },
            InjectedFault::Skip => IoError {
                kind: ErrorKind::Other,
                message: "fault: skip".to_owned(),
            },
            InjectedFault::Panic(message) => IoError { kind: ErrorKind::Other, message },
        }
    }

    /// The fault as a general failure. A `Panic` fault is not for this: its call site aborts.
    pub fn into_anyhow(self) -> (f: Failure)
        requires
            !(self is Panic),
        ensures
            f.message@ == self.error_message(),
            f.contexts@.len() == 0,
            f.shown() == self.error_message(),
    {
        let e = self.into_io_error();
        Failure { message: e.message, contexts: Vec::new() }
    }
}

/// What a point does when it fires.
#[derive(Debug)]
pub enum StoredKind {
    IoError(ErrorKind, String),
    Skip,
    Panic(String),
}

/// A point that may fire.
#[derive(Debug)]
pub struct ActivePoint {
    pub name: String,
    pub kind: StoredKind,
    /// Shots left; `u32::MAX` never runs out.
    pub budget: u32,
}

impl ActivePoint {
    /// The fault that this point hands out.
    pub open spec fn gives(&self, f: InjectedFault) -> bool {
        match (self.kind, f) {
            (StoredKind::IoError(kind, message), InjectedFault::IoError(k, m)) => k == kind && m@
                == message@,
            (StoredKind::Skip, InjectedFault::Skip) => true,
            (StoredKind::Panic(message), InjectedFault::Panic(m)) => m@ == message@,
            _ => false,
        }
    }

    pub fn to_fault(&self) -> (f: InjectedFault)
        ensures
            self.gives(f),
    {
        match &self.kind {
            StoredKind::IoError(kind, message) => InjectedFault::IoError(*kind, message.clone()),
            StoredKind::Skip => InjectedFault::Skip,
            StoredKind::Panic(message) => InjectedFault::Panic(message.clone()),
        }
    }
}

/// `a` is the active form of the configured point `p`: an unknown kind is an I/O error, and a
/// budget of 0 never runs out.
pub open spec fn activates(p: FaultPointConfig, a: ActivePoint) -> bool {
    &&& a.name@ == p.name@
    &&& a.budget == (if p.trigger_budget == 0 {
        u32::MAX
    } else {
        p.trigger_budget
    })
    &&& match a.kind {
        StoredKind::Panic(message) => p.kind@ == "panic"@ && message@ == p.message@,
        StoredKind::Skip => p.kind@ == "skip"@,
        StoredKind::IoError(kind, message) => {
            &&& p.kind@ != "panic"@ && p.kind@ != "skip"@
            &&& kind == ErrorKind::Other && message@ == p.message@
        },
    }
}

/// Activates a configured point.
pub fn build_active_point(p: &FaultPointConfig) -> (a: ActivePoint)
    ensures
        activates(*p, a),
{
    let kind = if same_text(p.kind.as_str(), "panic") {
        StoredKind::Panic(p.message.clone())
    } else if same_text(p.kind.as_str(), "skip") {
        StoredKind::Skip
    } else {
        StoredKind::IoError(ErrorKind::Other, p.message.clone())
    };
    let budget: u32 = if p.trigger_budget == 0 {
        u32::MAX
    } else {
        p.trigger_budget
    };
    ActivePoint { name: p.name.clone(), kind, budget }
}

/// The budget after one attempt to fire.
pub open spec fn budget_after(budget: u32) -> u32 {
    if budget == 0 || budget == u32::MAX {
        budget
    } else {
        (budget - 1) as u32
    }
}

/// Takes one shot from `budget`. Says whether there was one to take.
pub fn try_fire(budget: &mut u32) -> (fired: bool)
    ensures
        fired == (*old(budget) > 0),
        *final(budget) == budget_after(*old(budget)),
{
    if *budget == 0 {
        false
    } else {
        if *budget != u32::MAX {
            *budget = *budget - 1;
        }
        true
    }
}

/// The active points, in configured order.
pub struct FaultTable {
    pub points: Vec<ActivePoint>,
}

/// The place of the first point called `name`, or the number of points.
pub open spec fn first_point(points: Seq<ActivePoint>, name: Seq<char>) -> int
    decreases points.len(),
{
    if points.len() == 0 {
        0
    } else if points[0].name@ == name {
        0
    } else {
        1 + first_point(points.skip(1), name)
    }
}

proof fn lemma_first_point(points: Seq<ActivePoint>, name: Seq<char>, i: int)
    requires
        0 <= i <= points.len(),
        forall|j: int| 0 <= j < i ==> (#[trigger] points[j]).name@ != name,
        i < points.len() ==> points[i].name@ == name,
    ensures
        first_point(points, name) == i,
    decreases points.len(),
{
    if points.len() > 0 && i > 0 {
        assert(points[0].name@ != name);
        let rest = points.skip(1);
        assert forall|j: int| 0 <= j < i - 1 implies (#[trigger] rest[j]).name@ != name by {
            assert(rest[j] == points[j + 1]);
        }
        if i < points.len() {
            assert(rest[i - 1] == points[i]);
        }
        lemma_first_point(rest, name, i - 1);
    }
}

/// `active` holds the active form of each of `points`, in order.
pub open spec fn all_active(points: Seq<FaultPointConfig>, active: Seq<ActivePoint>) -> bool {
    &&& active.len() == points.len()
    &&& forall|i: int| 0 <= i < points.len() ==> activates(points[i], #[trigger] active[i])
}

/// Activates every configured point.
pub fn init(points: &Vec<FaultPointConfig>) -> (t: FaultTable)
    ensures
        all_active(points@, t.points@),
{
    let mut active: Vec<ActivePoint> = Vec::new();
    let mut i: usize = 0;
    while i < points.len()
        invariant
            i <= points@.len(),
            active@.len() == i,
            forall|j: int| 0 <= j < i ==> activates(points@[j], #[trigger] active@[j]),
        decreases points.len() - i,
    {
        let a = build_active_point(&points[i]);
        active.push(a);
        i = i + 1;
    }
    FaultTable { points: active }
}

/// Activates the configured points, unless some were activated before: then nothing changes. Says
/// whether they were activated.
pub fn install(table: &mut Option<FaultTable>, points: &Vec<FaultPointConfig>) -> (done: bool)
    ensures
        done == (*old(table) is None),
        *old(table) is Some ==> *final(table) == *old(table),
        *old(table) is None ==> *final(table) is Some && all_active(
            points@,
            final(table)->0.points@,
        ),
{
    if table.is_some() {
        return false;
    }
    *table = Some(init(points));
    true
}

/// A check of `name` fires.
pub open spec fn fires(points: Seq<ActivePoint>, name: Seq<char>) -> bool {
    let i = first_point(points, name);
    i < points.len() && points[i].budget > 0
}

/// The points after a check of `name`.
pub open spec fn after_check(points: Seq<ActivePoint>, name: Seq<char>) -> Seq<ActivePoint> {
    let i = first_point(points, name);
    if i < points.len() {
        points.update(i, ActivePoint { budget: budget_after(points[i].budget), ..points[i] })
    } else {
        points
    }
}

/// Asks whether `point` fires now. The first point of that name decides: it fires while it has a
/// shot left, and each firing takes one.
pub fn check(table: &mut FaultTable, point: &str) -> (fault: Option<InjectedFault>)
    ensures
        ({
            let before = old(table).points@;
            &&& fault is Some <==> fires(before, point@)
            &&& fault is Some ==> before[first_point(before, point@)].gives(fault->0)
            &&& final(table).points@ == after_check(before, point@)
        }),
{
    let mut i: usize = 0;
    let ghost before = table.points@;
    while i < table.points.len()
        invariant
            i <= table.points@.len(),
            before == old(table).points@,
            table.points@ == before,
            forall|j: int| 0 <= j < i ==> (#[trigger] before[j]).name@ != point@,
        decreases table.points.len() - i,
    {
        if same_text(table.points[i].name.as_str(), point) {
            proof {
                lemma_first_point(before, point@, i as int);
            }
            let fault = table.points[i].to_fault();
            let mut budget: u32 = table.points[i].budget;
            let fired = try_fire(&mut budget);
            table.points[i].budget = budget;
            proof {
                assert(table.points@ =~= before.update(
                    i as int,
                    ActivePoint { budget: budget_after(before[i as int].budget), ..before[i as int]
                    },
                ));
            }
            if fired {
                return Some(fault);
            }
            return None;
        }
        i = i + 1;
    }
    proof {
        lemma_first_point(before, point@, i as int);
    }
    None
}

/// Asks whether `point` fires now; it does not where nothing was activated.
pub fn check_installed(table: &mut Option<FaultTable>, point: &str) -> (fault: Option<
    InjectedFault,
>)
    ensures
        match *old(table) {
            None => fault is None && *final(table) is None,
            Some(t) => {
                let before = t.points@;
                &&& *final(table) is Some
                &&& fault is Some <==> fires(before, point@)
                &&& fault is Some ==> before[first_point(before, point@)].gives(fault->0)
                &&& final(table)->0.points@ == after_check(before, point@)
            },
        },
{
    match table.take() {
        None => None,
        Some(t) => {
            let mut t = t;
            let fault = check(&mut t, point);
            *table = Some(t);
            fault
        },
    }
}

/// The budget after `shots` attempts to fire.
pub open spec fn budget_after_shots(budget: u32, shots: nat) -> u32
    decreases shots,
{
    if shots == 0 {
        budget
    } else {
        budget_after(budget_after_shots(budget, (shots - 1) as nat))
    }
}

/// A point with a budget of `n` shots fires at exactly its first `n` attempts.
pub proof fn budget_of_n_fires_n_times(n: u32, attempt: nat)
    requires
        n < u32::MAX,
    ensures
        (budget_after_shots(n, attempt) > 0) == (attempt < n),
    decreases attempt,
{
    lemma_budget_countdown(n, attempt);
}

proof fn lemma_budget_countdown(n: u32, shots: nat)
    requires
        n < u32::MAX,
    ensures
        budget_after_shots(n, shots) == (if shots < n {
            n - shots
        } else {
            0
        }),
    decreases shots,
{
    if shots > 0 {
        lemma_budget_countdown(n, (shots - 1) as nat);
    }
}

/// A point without a limit fires at every attempt.
pub proof fn unlimited_budget_never_runs_out(attempt: nat)
    ensures
        budget_after_shots(u32::MAX, attempt) == u32::MAX,
    decreases attempt,
{
    if attempt > 0 {
        unlimited_budget_never_runs_out((attempt - 1) as nat);
    }
}

/// The points after a series of checks.
pub open spec fn after_checks(points: Seq<ActivePoint>, names: Seq<Seq<char>>) -> Seq<ActivePoint>
    decreases names.len(),
{
    if names.len() == 0 {
        points
    } else {
        after_check(after_checks(points, names.drop_last()), names.last())
    }
}

/// How often `name` occurs.
pub open spec fn times(names: Seq<Seq<char>>, name: Seq<char>) -> nat
    decreases names.len(),
{
    if names.len() == 0 {
        0
    } else {
        times(names.drop_last(), name) + (if names.last() == name {
            1nat
        } else {
            0
        })
    }
}

/// A first point called `name` has this place.
proof fn lemma_first_point_found(points: Seq<ActivePoint>, name: Seq<char>)
    ensures
        0 <= first_point(points, name) <= points.len(),
        first_point(points, name) < points.len() ==> points[first_point(points, name)].name@
            == name,
        forall|j: int|
            0 <= j < first_point(points, name) ==> (#[trigger] points[j]).name@ != name,
    decreases points.len(),
{
    if points.len() > 0 && points[0].name@ != name {
        let rest = points.skip(1);
        lemma_first_point_found(rest, name);
        assert forall|j: int| 0 <= j < first_point(points, name) implies (
        #[trigger] points[j]).name@ != name by {
            if j > 0 {
                assert(points[j] == rest[j - 1]);
            }
        }
        if first_point(points, name) < points.len() {
            assert(points[first_point(points, name)] == rest[first_point(rest, name)]);
        }
    }
}

/// Whatever is checked in between, the first point of a name has lost one shot for each check of
/// that name; a later point of the same name is never reached; and nothing else of a point
/// changes.
pub proof fn checks_draw_on_their_own_point(points: Seq<ActivePoint>, names: Seq<Seq<char>>, j: int)
    requires
        0 <= j < points.len(),
    ensures
        after_checks(points, names).len() == points.len(),
        after_checks(points, names)[j] == (ActivePoint {
            budget: (if first_point(points, points[j].name@) == j {
                budget_after_shots(points[j].budget, times(names, points[j].name@))
            } else {
                points[j].budget
            }),
            ..points[j]
        }),
    decreases names.len(),
{
    if names.len() > 0 {
        let before = after_checks(points, names.drop_last());
        checks_draw_on_their_own_point(points, names.drop_last(), j);
        assert forall|k: int| 0 <= k < points.len() implies (#[trigger] before[k]).name@
            == points[k].name@ by {
            checks_draw_on_their_own_point(points, names.drop_last(), k);
        }
        lemma_same_first_point(points, before, names.last());
        lemma_first_point_found(points, names.last());
        lemma_first_point_found(points, points[j].name@);
    }
}

/// The first point of a name depends on the names alone.
proof fn lemma_same_first_point(a: Seq<ActivePoint>, b: Seq<ActivePoint>, name: Seq<char>)
    requires
        a.len() == b.len(),
        forall|k: int| 0 <= k < a.len() ==> (#[trigger] b[k]).name@ == a[k].name@,
    ensures
        first_point(a, name) == first_point(b, name),
{
    lemma_first_point_found(a, name);
    let i = first_point(a, name);
    assert forall|j: int| 0 <= j < i implies (#[trigger] b[j]).name@ != name by {
        assert(a[j].name@ != name);
    }
    lemma_first_point(b, name, i);
}

/// No point is called `name`.
pub open spec fn unconfigured(points: Seq<FaultPointConfig>, name: Seq<char>) -> bool {
    forall|j: int| 0 <= j < points.len() ==> (#[trigger] points[j]).name@ != name
}

/// The point at `i` is the first one called `name`.
pub open spec fn configured_at(points: Seq<FaultPointConfig>, name: Seq<char>, i: int) -> bool {
    &&& 0 <= i < points.len()
    &&& points[i].name@ == name
    &&& forall|j: int| 0 <= j < i ==> (#[trigger] points[j]).name@ != name
}

/// After any series of checks, a name that is not configured does not fire; the first point of a
/// name fires without end where its budget is 0, and otherwise as long as the name was checked
/// less often than the budget says.
pub proof fn configured_point_fires_within_its_budget(
    points: Seq<FaultPointConfig>,
    active: Seq<ActivePoint>,
    names: Seq<Seq<char>>,
    name: Seq<char>,
    i: int,
)
    requires
        all_active(points, active),
    ensures
        unconfigured(points, name) ==> !fires(after_checks(active, names), name),
        configured_at(points, name, i) && points[i].trigger_budget == 0 ==> fires(
            after_checks(active, names),
            name,
        ),
        configured_at(points, name, i) && 0 < points[i].trigger_budget < u32::MAX ==> (fires(
            after_checks(active, names),
            name,
        ) <==> times(names, name) < points[i].trigger_budget),
{
    let now = after_checks(active, names);
    if active.len() > 0 {
        checks_draw_on_their_own_point(active, names, 0);
    } else {
        lemma_no_points(active, names);
    }
    assert forall|k: int| 0 <= k < active.len() implies (#[trigger] now[k]).name@
        == active[k].name@ by {
        checks_draw_on_their_own_point(active, names, k);
    }
    lemma_same_first_point(active, now, name);
    lemma_first_point_found(active, name);
    if unconfigured(points, name) {
        if first_point(active, name) < active.len() {
            assert(points[first_point(active, name)].name@ != name);
        }
    }
    if configured_at(points, name, i) {
        assert forall|j: int| 0 <= j < i implies (#[trigger] active[j]).name@ != name by {
            assert(points[j].name@ != name);
        }
        assert(active[i].name@ == name);
        lemma_first_point(active, name, i);
        checks_draw_on_their_own_point(active, names, i);
        if points[i].trigger_budget == 0 {
            unlimited_budget_never_runs_out(times(names, name));
        } else if points[i].trigger_budget < u32::MAX {
            budget_of_n_fires_n_times(points[i].trigger_budget, times(names, name));
        }
    }
}

proof fn lemma_no_points(points: Seq<ActivePoint>, names: Seq<Seq<char>>)
    requires
        points.len() == 0,
    ensures
        after_checks(points, names).len() == 0,
    decreases names.len(),
{
    if names.len() > 0 {
        lemma_no_points(points, names.drop_last());
        lemma_first_point_found(after_checks(points, names.drop_last()), names.last());
    }
}

/// A configured point does what its kind says, with its own message; a kind that is not known is
/// an I/O error. It has as many shots as configured, and no limit where none is.
pub proof fn kind_decides_what_a_point_does(p: FaultPointConfig, a: ActivePoint, f: InjectedFault)
    requires
        activates(p, a),
        a.gives(f),
    ensures
        a.name@ == p.name@,
        p.kind@ == "panic"@ ==> f is Panic && f->Panic_0@ == p.message@,
        p.kind@ == "skip"@ ==> f is Skip,
        p.kind@ != "panic"@ && p.kind@ != "skip"@ ==> f is IoError && f->IoError_0
            == ErrorKind::Other && f->IoError_1@ == p.message@,
        p.trigger_budget == 0 ==> a.budget == u32::MAX,
        p.trigger_budget > 0 ==> a.budget == p.trigger_budget,
{
    reveal_strlit("panic");
    reveal_strlit("skip");
    assert("panic"@.len() != "skip"@.len());
}

/// An injected I/O error is reported with its own kind and words; what is skipped reads as such.
pub proof fn injected_errors_keep_their_words(kind: ErrorKind, message: String)
    ensures
        InjectedFault::IoError(kind, message).error_kind() == kind,
        InjectedFault::IoError(kind, message).error_message() == message@,
        InjectedFault::Skip.error_kind() == ErrorKind::Other,
        InjectedFault::Skip.error_message() == "fault: skip"@,
{
}

/// A check asks the first point of its name, and takes a shot from that one alone: every other
/// point stays as it is.
pub proof fn first_point_of_a_name_is_asked(points: Seq<ActivePoint>, name: Seq<char>, i: int)
    requires
        0 <= i < points.len(),
        points[i].name@ == name,
        forall|j: int| 0 <= j < i ==> (#[trigger] points[j]).name@ != name,
    ensures
        fires(points, name) <==> points[i].budget > 0,
        0 < points[i].budget < u32::MAX ==> after_check(points, name)[i].budget
            == points[i].budget - 1,
        points[i].budget == u32::MAX ==> after_check(points, name)[i].budget == u32::MAX,
        points[i].budget == 0 ==> after_check(points, name)[i].budget == 0,
        after_check(points, name).len() == points.len(),
        after_check(points, name)[i].name == points[i].name,
        after_check(points, name)[i].kind == points[i].kind,
        forall|j: int|
            0 <= j < points.len() && j != i ==> #[trigger] after_check(points, name)[j]
                == points[j],
{
    lemma_first_point(points, name, i);
}

/// A failure is reported under the context that was put around it last; without any, in its own
/// words.
pub proof fn outermost_context_is_shown(f: Failure, message: Seq<char>, context: Seq<char>)
    ensures
        f.contexts@.len() == 0 ==> f.shown() == f.message@,
        f.contexts@.len() > 0 ==> f.shown() == f.contexts@[f.contexts@.len() - 1]@,
        f.says_under(message, context) ==> f.message@ == message && f.shown() == context
            && f.contexts@.len() == 1,
{
}

/// Every configured point is activated, under its name and in its place.
pub proof fn every_point_is_activated(
    points: Seq<FaultPointConfig>,
    active: Seq<ActivePoint>,
    i: int,
)
    requires
        all_active(points, active),
        0 <= i < points.len(),
    ensures
        active.len() == points.len(),
        active[i].name@ == points[i].name@,
        points[i].trigger_budget > 0 ==> active[i].budget == points[i].trigger_budget,
        active[i].kind is Skip <==> points[i].kind@ == "skip"@,
        active[i].kind is Panic <==> points[i].kind@ == "panic"@,
{
    reveal_strlit("panic");
    reveal_strlit("skip");
    assert("panic"@.len() != "skip"@.len());
    assert(activates(points[i], active[i]));
}

} // verus!

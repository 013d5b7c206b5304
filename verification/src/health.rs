//! The health endpoint: what it answers, and when a request has been read far enough.

use vstd::prelude::*;

use crate::control::{HealthState, RoleHealth};
use crate::text::{decimal, push_decimal};

verus! {

/// The text that `serde_json` writes for a string: quoted and escaped.
pub uninterp spec fn json_text(s: Seq<char>) -> Seq<char>;

/// `serde_json::to_string` on a string: the text depends on the string alone. How it is quoted
/// and escaped is left unsaid.
#[verifier::external_body]
fn json_string(s: &str) -> (j: String)
    ensures
        j@ == json_text(s@),
{
    serde_json::to_string(s).unwrap_or_default()
}

/// What a health state is called.
pub open spec fn state_label(s: HealthState) -> Seq<char> {
    match s {
        HealthState::Healthy => "healthy"@,
        HealthState::Backoff => "backoff"@,
        HealthState::Flapping => "flapping"@,
        HealthState::Failed => "failed"@,
    }
}

pub fn state_name(s: HealthState) -> (name: &'static str)
    ensures
        name@ == state_label(s),
{
    match s {
        HealthState::Healthy => "healthy",
        HealthState::Backoff => "backoff",
        HealthState::Flapping => "flapping",
        HealthState::Failed => "failed",
    }
}

/// Some role has failed.
pub open spec fn degraded(snapshot: Seq<RoleHealth>) -> bool {
    exists|i: int| 0 <= i < snapshot.len() && (#[trigger] snapshot[i]).state is Failed
}

pub fn any_failed(snapshot: &Vec<RoleHealth>) -> (r: bool)
    ensures
        r == degraded(snapshot@),
{
    let mut i: usize = 0;
    while i < snapshot.len()
        invariant
            i <= snapshot@.len(),
            forall|j: int| 0 <= j < i ==> !((#[trigger] snapshot@[j]).state is Failed),
        decreases snapshot.len() - i,
    {
        if snapshot[i].state == HealthState::Failed {
            return true;
        }
        i = i + 1;
    }
    false
}

/// The entry of one role; `name` is its name as JSON.
pub open spec fn entry_text(name: Seq<char>, state: HealthState) -> Seq<char> {
    "{\"role\":"@ + name + ",\"state\":\""@ + state_label(state) + "\"}"@
}

/// The entries of the first `n` roles, with commas between them; `names` are their names as JSON.
pub open spec fn entries_text(names: Seq<Seq<char>>, snapshot: Seq<RoleHealth>, n: nat) -> Seq<char>
    decreases n,
{
    if n == 0 {
        seq![]
    } else if n == 1 {
        entry_text(names[0], snapshot[0].state)
    } else {
        entries_text(names, snapshot, (n - 1) as nat) + ","@ + entry_text(
            names[n - 1],
            snapshot[n - 1].state,
        )
    }
}

/// The body of the answer, where `names` are the names of the roles as JSON.
pub open spec fn body_text(names: Seq<Seq<char>>, snapshot: Seq<RoleHealth>) -> Seq<char> {
    "{\"status\":\""@ + (if degraded(snapshot) {
        "degraded"@
    } else {
        "ok"@
    }) + "\",\"roles\":["@ + entries_text(names, snapshot, snapshot.len()) + "]}"@
}

/// The names of the roles as JSON.
pub open spec fn json_names(snapshot: Seq<RoleHealth>) -> Seq<Seq<char>> {
    Seq::new(snapshot.len(), |i: int| json_text(snapshot[i].role@))
}

fn push_entry(out: &mut String, name: &str, state: HealthState)
    ensures
        final(out)@ == old(out)@ + entry_text(name@, state),
{
    let mut t = "{\"role\":".to_owned();
    t.append(name);
    t.append(",\"state\":\"");
    t.append(state_name(state));
    t.append("\"}");
    out.append(t.as_str());
}

/// The body of the answer for roles whose names as JSON are `names`.
pub fn body_with_names(names: &Vec<String>, snapshot: &Vec<RoleHealth>) -> (s: String)
    requires
        names@.len() == snapshot@.len(),
    ensures
        s@ == body_text(crate::text::views(names@), snapshot@),
{
    let ghost nv = crate::text::views(names@);
    let mut entries = String::new();
    let mut i: usize = 0;
    while i < snapshot.len()
        invariant
            i <= snapshot@.len(),
            names@.len() == snapshot@.len(),
            nv == crate::text::views(names@),
            entries@ == entries_text(nv, snapshot@, i as nat),
        decreases snapshot.len() - i,
    {
        if i > 0 {
            entries.append(",");
        }
        proof {
            assert(nv[i as int] == names@[i as int]@);
            assert(Seq::<char>::empty() + entry_text(nv[0], snapshot@[0].state) =~= entry_text(
                nv[0],
                snapshot@[0].state,
            ));
        }
        push_entry(&mut entries, names[i].as_str(), snapshot[i].state);
        i = i + 1;
    }
    let mut s = "{\"status\":\"".to_owned();
    if any_failed(snapshot) {
        s.append("degraded");
    } else {
        s.append("ok");
    }
    s.append("\",\"roles\":[");
    s.append(entries.as_str());
    s.append("]}");
    s
}

/// The body of the answer.
pub fn health_body(snapshot: &Vec<RoleHealth>) -> (s: String)
    ensures
        s@ == body_text(json_names(snapshot@), snapshot@),
{
    let mut names: Vec<String> = Vec::new();
    let mut i: usize = 0;
    while i < snapshot.len()
        invariant
            i <= snapshot@.len(),
            names@.len() == i,
            forall|j: int| 0 <= j < i ==> (#[trigger] names@[j])@ == json_text(snapshot@[j].role@),
        decreases snapshot.len() - i,
    {
        names.push(json_string(snapshot[i].role.as_str()));
        i = i + 1;
    }
    proof {
        assert(crate::text::views(names@) =~= json_names(snapshot@));
    }
    body_with_names(&names, snapshot)
}

/// The whole answer around `body`: 503 where some role has failed, else 200. The length is counted
/// in bytes.
pub open spec fn response_text(failed: bool, body: Seq<char>) -> Seq<char> {
    "HTTP/1.1 "@ + (if failed {
        "503 Service Unavailable"@
    } else {
        "200 OK"@
    }) + "\r\nContent-Type: application/json\r\nContent-Length: "@ + decimal(
        vstd::utf8::encode_utf8(body).len(),
    ) + "\r\nConnection: close\r\n\r\n"@ + body
}

/// The whole answer around `body`.
pub fn response_around(failed: bool, body: &str) -> (s: String)
    ensures
        s@ == response_text(failed, body@),
{
    let mut s = "HTTP/1.1 ".to_owned();
    if failed {
        s.append("503 Service Unavailable");
    } else {
        s.append("200 OK");
    }
    s.append("\r\nContent-Type: application/json\r\nContent-Length: ");
    let len: usize = body.as_bytes().len();
    push_decimal(&mut s, len as u64);
    s.append("\r\nConnection: close\r\n\r\n");
    s.append(body);
    s
}

/// The answer to any request.
pub fn health_response(snapshot: &Vec<RoleHealth>) -> (s: String)
    ensures
        s@ == response_text(
            degraded(snapshot@),
            body_text(json_names(snapshot@), snapshot@),
        ),
{
    let body = health_body(snapshot);
    response_around(any_failed(snapshot), body.as_str())
}

/// Most bytes of a request that are read before it is answered.
pub const MAX_HEADER_BYTES: usize = 4096;

/// The blank line that ends the headers is there.
pub open spec fn has_blank_line(b: Seq<u8>) -> bool {
    exists|i: int| 0 <= i && i + 4 <= b.len() && #[trigger] ends_headers(b, i)
}

/// Two line ends in a row begin at `i`.
pub open spec fn ends_headers(b: Seq<u8>, i: int) -> bool {
    b[i] == 13 && b[i + 1] == 10 && b[i + 2] == 13 && b[i + 3] == 10
}

/// Whether a request has been read far enough, after a read of `n` bytes left `received`: at the
/// end of the input, at the end of the headers, or when the limit is reached.
pub fn drain_headers(received: &Vec<u8>, n: usize) -> (done: bool)
    ensures
        done == (n == 0 || has_blank_line(received@) || received@.len() == MAX_HEADER_BYTES),
{
    if n == 0 {
        return true;
    }
    let mut i: usize = 0;
    while received.len() >= 4 && i <= received.len() - 4
        invariant
            i <= received@.len(),
            forall|j: int|
                0 <= j < i && j + 4 <= received@.len() ==> !#[trigger] ends_headers(received@, j),
            n != 0,
        decreases received.len() - i,
    {
        if received[i] == 13 && received[i + 1] == 10 && received[i + 2] == 13 && received[i + 3]
            == 10 {
            proof {
                assert(ends_headers(received@, i as int));
            }
            return true;
        }
        i = i + 1;
    }
    received.len() == MAX_HEADER_BYTES
}

/// The endpoint reports trouble exactly when some role has failed: a role that merely backs off or
/// flaps does not count.
pub proof fn only_failure_degrades(snapshot: Seq<RoleHealth>)
    requires
        forall|i: int| 0 <= i < snapshot.len() ==> !((#[trigger] snapshot[i]).state is Failed),
    ensures
        response_text(degraded(snapshot), body_text(json_names(snapshot), snapshot))
            == response_text(false, body_text(json_names(snapshot), snapshot)),
{
}

/// One role that has failed is enough for the endpoint to report trouble, whatever the others do.
pub proof fn one_failure_degrades(snapshot: Seq<RoleHealth>, i: int)
    requires
        0 <= i < snapshot.len(),
        snapshot[i].state is Failed,
    ensures
        degraded(snapshot),
        !degraded(Seq::<RoleHealth>::empty()),
        forall|body: Seq<char>| #[trigger]
            response_text(degraded(snapshot), body) == response_text(true, body),
{
}

/// The status line tells trouble from health, and the answer ends with its body after a blank
/// line.
pub proof fn answer_tells_and_carries_its_body(failed: bool, body: Seq<char>)
    ensures
        ({
            let answer = response_text(failed, body);
            &&& answer[9] == (if failed {
                '5'
            } else {
                '2'
            })
            &&& answer.skip(answer.len() - body.len()) == body
        }),
{
    reveal_strlit("HTTP/1.1 ");
    reveal_strlit("503 Service Unavailable");
    reveal_strlit("200 OK");
    let answer = response_text(failed, body);
    assert(answer.skip(answer.len() - body.len()) =~= body);
}

/// Every role has its entry, in order and behind a comma, but for the first.
pub proof fn every_role_has_its_entry(names: Seq<Seq<char>>, snapshot: Seq<RoleHealth>, n: nat)
    requires
        n > 0,
    ensures
        ","@ + entries_text(names, snapshot, n) == Seq::new(
            n,
            |i: int| ","@ + entry_text(names[i], snapshot[i].state),
        ).flatten(),
    decreases n,
{
    let parts = Seq::new(n, |i: int| ","@ + entry_text(names[i], snapshot[i].state));
    if n == 1 {
        assert(parts =~= seq![","@ + entry_text(names[0], snapshot[0].state)]);
        parts.lemma_flatten_one_element();
    } else {
        let m = (n - 1) as nat;
        every_role_has_its_entry(names, snapshot, m);
        let before = Seq::new(m, |i: int| ","@ + entry_text(names[i], snapshot[i].state));
        assert(parts =~= before.push(parts.last()));
        before.lemma_flatten_push(parts.last());
        assert(","@ + entries_text(names, snapshot, n) =~= (","@ + entries_text(
            names,
            snapshot,
            m,
        )) + (","@ + entry_text(names[n - 1], snapshot[n - 1].state)));
    }
}

/// The states have four different names.
pub proof fn states_have_different_names(a: HealthState, b: HealthState)
    ensures
        state_label(a) == state_label(b) <==> a == b,
{
    reveal_strlit("healthy");
    reveal_strlit("backoff");
    reveal_strlit("flapping");
    reveal_strlit("failed");
    assert("healthy"@.len() == 7 && "healthy"@[0] == 'h');
    assert("backoff"@.len() == 7 && "backoff"@[0] == 'b');
    assert("flapping"@.len() == 8);
    assert("failed"@.len() == 6);
}

/// Headers end where two line ends stand in a row, wherever that is; and only there.
pub proof fn headers_end_at_a_blank_line(before: Seq<u8>, after: Seq<u8>, b: Seq<u8>)
    ensures
        has_blank_line(before + seq![13u8, 10u8, 13u8, 10u8] + after),
        has_blank_line(b) ==> exists|i: int|
            0 <= i && i + 4 <= b.len() && #[trigger] b.subrange(i, i + 4) == seq![
                13u8,
                10u8,
                13u8,
                10u8,
            ],
{
    let all = before + seq![13u8, 10u8, 13u8, 10u8] + after;
    assert(ends_headers(all, before.len() as int));
    if has_blank_line(b) {
        let i = choose|i: int| 0 <= i && i + 4 <= b.len() && #[trigger] ends_headers(b, i);
        assert(b.subrange(i, i + 4) =~= seq![13u8, 10u8, 13u8, 10u8]);
    }
}

/// The body says that all is well exactly while no role has failed, and then lists the roles.
pub proof fn body_says_how_it_is(names: Seq<Seq<char>>, snapshot: Seq<RoleHealth>)
    ensures
        (exists|i: int| 0 <= i < snapshot.len() && (#[trigger] snapshot[i]).state is Failed)
            ==> body_text(names, snapshot) == "{\"status\":\""@ + "degraded"@
            + "\",\"roles\":["@ + entries_text(names, snapshot, snapshot.len()) + "]}"@,
        (forall|i: int| 0 <= i < snapshot.len() ==> !((#[trigger] snapshot[i]).state is Failed))
            ==> body_text(names, snapshot) == "{\"status\":\""@ + "ok"@ + "\",\"roles\":["@
            + entries_text(names, snapshot, snapshot.len()) + "]}"@,
        entries_text(names, snapshot, 0).len() == 0,
{
}

} // verus!

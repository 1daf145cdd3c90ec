use vstd::prelude::*;

use crate::contract::{answers, lemma_push_fresh, roster_of, step};
use crate::msg::{ExecuteMsg, QueryMsg, QueryResponse};
use crate::state::{empty_model, roster_view, RegistryModel};

verus! {

/// The store after `cmds`, applied in order from `s`.
pub open spec fn run(s: RegistryModel, cmds: Seq<ExecuteMsg>) -> RegistryModel
    decreases cmds.len(),
{
    if cmds.len() == 0 {
        s
    } else {
        step(run(s, cmds.drop_last()), cmds.last())
    }
}

/// `m` records completion of course `c` by `d`.
pub open spec fn completes(m: ExecuteMsg, c: Seq<char>, d: Seq<char>) -> bool {
    match m {
        ExecuteMsg::CompleteCourse { course_id, did } => course_id@ == c && did@ == d,
        _ => false,
    }
}

/// `m` writes the record that `q` reads.
pub open spec fn writes(m: ExecuteMsg, q: QueryMsg) -> bool {
    match (m, q) {
        (ExecuteMsg::RegisterDid { did, .. }, QueryMsg::GetDid { did: k }) => did@ == k@,
        (ExecuteMsg::CreateCourse { course_id, .. }, QueryMsg::GetCourse { course_id: k }) => course_id@
            == k@,
        (ExecuteMsg::Enroll { course_id, .. }, QueryMsg::GetEnrollments { course_id: k }) => course_id@
            == k@,
        (m, QueryMsg::HasCompleted { course_id, did }) => completes(m, course_id@, did@),
        _ => false,
    }
}

/// `r` is the answer for an absent record.
pub open spec fn not_found(r: QueryResponse) -> bool {
    match r {
        QueryResponse::Did(o) => o is None,
        QueryResponse::Course(o) => o is None,
        QueryResponse::Enrollments(o) => o is None,
        QueryResponse::Completed(o) => o is None,
    }
}

/// Every command keeps each roster free of repeated DIDs.
pub proof fn step_keeps_valid(s: RegistryModel, m: ExecuteMsg)
    requires
        s.valid(),
    ensures
        step(s, m).valid(),
{
    if let ExecuteMsg::Enroll { course_id, did } = m {
        let cur = roster_of(s, course_id@);
        if !cur.contains(did@) {
            lemma_push_fresh(cur, did@);
        }
    }
}

/// Registering the same DID twice leaves the second metadata: the last write wins.
pub proof fn register_last_write_wins(
    s: RegistryModel,
    did: String,
    m1: String,
    m2: String,
    r: QueryResponse,
)
    requires
        answers(
            step(
                step(s, ExecuteMsg::RegisterDid { did: did, metadata: m1 }),
                ExecuteMsg::RegisterDid { did: did, metadata: m2 },
            ),
            QueryMsg::GetDid { did: did },
            r,
        ),
    ensures
        r matches QueryResponse::Did(Some(m)) && m@ == m2@,
{
}

/// Enrolling a DID twice is the same as enrolling it once, and the roster then
/// names it exactly once.
pub proof fn enroll_idempotent(s: RegistryModel, course_id: String, did: String, r: QueryResponse)
    requires
        s.valid(),
        answers(
            step(
                step(s, ExecuteMsg::Enroll { course_id: course_id, did: did }),
                ExecuteMsg::Enroll { course_id: course_id, did: did },
            ),
            QueryMsg::GetEnrollments { course_id: course_id },
            r,
        ),
    ensures
        step(step(s, ExecuteMsg::Enroll { course_id: course_id, did: did }), ExecuteMsg::Enroll {
            course_id: course_id,
            did: did,
        }) == step(s, ExecuteMsg::Enroll { course_id: course_id, did: did }),
        r matches QueryResponse::Enrollments(Some(v)) && (exists|i: int|
            0 <= i < v@.len() && #[trigger] roster_view(v)[i] == did@ && forall|j: int|
                0 <= j < v@.len() && #[trigger] roster_view(v)[j] == did@ ==> j == i),
{
    let e = ExecuteMsg::Enroll { course_id: course_id, did: did };
    let t = step(s, e);
    let cur = roster_of(s, course_id@);
    step_keeps_valid(s, e);
    let after = roster_of(t, course_id@);
    if !cur.contains(did@) {
        assert(after[cur.len() as int] == did@);
    }
    assert(after.contains(did@));
    assert(step(t, e) == t);
    let v = r->Enrollments_0->Some_0;
    assert(roster_view(v) == after);
    let i = choose|i: int| 0 <= i < after.len() && after[i] == did@;
    assert(after.no_duplicates());
    assert(0 <= i < v@.len() && roster_view(v)[i] == did@);
}

/// Two different DIDs new to a course's roster appear on it in the order in
/// which they were enrolled.
pub proof fn enroll_keeps_order(
    s: RegistryModel,
    course_id: String,
    d1: String,
    d2: String,
    r: QueryResponse,
)
    requires
        d1@ != d2@,
        answers(
            step(
                step(s, ExecuteMsg::Enroll { course_id: course_id, did: d1 }),
                ExecuteMsg::Enroll { course_id: course_id, did: d2 },
            ),
            QueryMsg::GetEnrollments { course_id: course_id },
            r,
        ),
    ensures
        !roster_of(s, course_id@).contains(d1@) && !roster_of(s, course_id@).contains(d2@) ==> (
        r matches QueryResponse::Enrollments(Some(v)) && roster_view(v) == roster_of(
            s,
            course_id@,
        ).push(d1@).push(d2@)),
{
    let cur = roster_of(s, course_id@);
    if !cur.contains(d1@) && !cur.contains(d2@) {
        let mid = cur.push(d1@);
        assert(!mid.contains(d2@)) by {
            if mid.contains(d2@) {
                let i = choose|i: int| 0 <= i < mid.len() && mid[i] == d2@;
                if i < cur.len() {
                    assert(cur[i] == d2@);
                }
            }
        }
    }
}

/// Once a completion is on record, no later command removes it.
proof fn completion_stays(s: RegistryModel, cmds: Seq<ExecuteMsg>, c: Seq<char>, d: Seq<char>)
    requires
        s.completions.contains((c, d)),
    ensures
        run(s, cmds).completions.contains((c, d)),
    decreases cmds.len(),
{
    if cmds.len() > 0 {
        completion_stays(s, cmds.drop_last(), c, d);
    }
}

/// Without a command that completes it, a completion absent at the start stays
/// absent, and the lookup answers "not found".
pub proof fn completion_needs_command(
    s: RegistryModel,
    cmds: Seq<ExecuteMsg>,
    course_id: String,
    did: String,
    r: QueryResponse,
)
    requires
        !s.completions.contains((course_id@, did@)),
        forall|i: int| 0 <= i < cmds.len() ==> !completes(#[trigger] cmds[i], course_id@, did@),
        answers(run(s, cmds), QueryMsg::HasCompleted { course_id: course_id, did: did }, r),
    ensures
        r == QueryResponse::Completed(None),
{
    completion_needs_command_absent(s, cmds, course_id@, did@);
}

proof fn completion_needs_command_absent(
    s: RegistryModel,
    cmds: Seq<ExecuteMsg>,
    c: Seq<char>,
    d: Seq<char>,
)
    requires
        !s.completions.contains((c, d)),
        forall|i: int| 0 <= i < cmds.len() ==> !completes(#[trigger] cmds[i], c, d),
    ensures
        !run(s, cmds).completions.contains((c, d)),
    decreases cmds.len(),
{
    if cmds.len() > 0 {
        let rest = cmds.drop_last();
        assert forall|i: int| 0 <= i < rest.len() implies !completes(#[trigger] rest[i], c, d) by {
            assert(rest[i] == cmds[i]);
        }
        completion_needs_command_absent(s, rest, c, d);
        assert(!completes(cmds[cmds.len() - 1], c, d));
    }
}

/// After a course is completed the lookup answers true, and goes on doing so
/// whatever commands follow, repeated completions included; completing twice
/// is the same as completing once.
pub proof fn completion_sticks(
    s: RegistryModel,
    course_id: String,
    did: String,
    cmds: Seq<ExecuteMsg>,
    r: QueryResponse,
)
    requires
        answers(
            run(step(s, ExecuteMsg::CompleteCourse { course_id: course_id, did: did }), cmds),
            QueryMsg::HasCompleted { course_id: course_id, did: did },
            r,
        ),
    ensures
        r == QueryResponse::Completed(Some(true)),
        step(
            step(s, ExecuteMsg::CompleteCourse { course_id: course_id, did: did }),
            ExecuteMsg::CompleteCourse { course_id: course_id, did: did },
        ) == step(s, ExecuteMsg::CompleteCourse { course_id: course_id, did: did }),
{
    let t = step(s, ExecuteMsg::CompleteCourse { course_id: course_id, did: did });
    assert(t.completions.contains((course_id@, did@)));
    completion_stays(t, cmds, course_id@, did@);
    assert(t.completions.insert((course_id@, did@)) =~= t.completions);
}

/// On a fresh store, a lookup whose record no command has written answers
/// "not found".
pub proof fn unwritten_keys_absent(cmds: Seq<ExecuteMsg>, q: QueryMsg, r: QueryResponse)
    requires
        forall|i: int| 0 <= i < cmds.len() ==> !writes(#[trigger] cmds[i], q),
        answers(run(empty_model(), cmds), q, r),
    ensures
        not_found(r),
{
    unwritten_stays_absent(cmds, q);
}

/// The record that `q` reads is absent from `s`.
pub open spec fn absent(s: RegistryModel, q: QueryMsg) -> bool {
    match q {
        QueryMsg::GetDid { did } => !s.dids.contains_key(did@),
        QueryMsg::GetCourse { course_id } => !s.courses.contains_key(course_id@),
        QueryMsg::GetEnrollments { course_id } => !s.enrollments.contains_key(course_id@),
        QueryMsg::HasCompleted { course_id, did } => !s.completions.contains((course_id@, did@)),
    }
}

proof fn unwritten_stays_absent(cmds: Seq<ExecuteMsg>, q: QueryMsg)
    requires
        forall|i: int| 0 <= i < cmds.len() ==> !writes(#[trigger] cmds[i], q),
    ensures
        absent(run(empty_model(), cmds), q),
    decreases cmds.len(),
{
    if cmds.len() > 0 {
        let rest = cmds.drop_last();
        assert forall|i: int| 0 <= i < rest.len() implies !writes(#[trigger] rest[i], q) by {
            assert(rest[i] == cmds[i]);
        }
        unwritten_stays_absent(rest, q);
        assert(!writes(cmds[cmds.len() - 1], q));
    }
}

} // verus!

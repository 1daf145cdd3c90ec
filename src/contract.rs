use vstd::prelude::*;

use crate::msg::{ExecuteMsg, InstantiateMsg, QueryMsg, QueryResponse, Response};
use crate::state::{roster_view, Registry, RegistryModel};

verus! {

/// The roster of `c`: empty where none is held.
pub open spec fn roster_of(s: RegistryModel, c: Seq<char>) -> Seq<Seq<char>> {
    if s.enrollments.contains_key(c) {
        s.enrollments[c]
    } else {
        Seq::empty()
    }
}

/// A roster after enrolling `d`: unchanged where `d` is on it, else `d` at the end.
pub open spec fn enroll_into(r: Seq<Seq<char>>, d: Seq<char>) -> Seq<Seq<char>> {
    if r.contains(d) {
        r
    } else {
        r.push(d)
    }
}

/// The store after one command.
pub open spec fn step(s: RegistryModel, m: ExecuteMsg) -> RegistryModel {
    match m {
        ExecuteMsg::RegisterDid { did, metadata } => RegistryModel {
            dids: s.dids.insert(did@, metadata@),
            ..s
        },
        ExecuteMsg::CreateCourse { course_id, info } => RegistryModel {
            courses: s.courses.insert(course_id@, info@),
            ..s
        },
        ExecuteMsg::Enroll { course_id, did } => if roster_of(s, course_id@).contains(did@) {
            s
        } else {
            RegistryModel {
                enrollments: s.enrollments.insert(course_id@, roster_of(s, course_id@).push(did@)),
                ..s
            }
        },
        ExecuteMsg::CompleteCourse { course_id, did } => RegistryModel {
            completions: s.completions.insert((course_id@, did@)),
            ..s
        },
    }
}

/// The tag that a command's response carries under "action".
pub open spec fn action_of(m: ExecuteMsg) -> Seq<char> {
    match m {
        ExecuteMsg::RegisterDid { .. } => "register_did"@,
        ExecuteMsg::CreateCourse { .. } => "create_course"@,
        ExecuteMsg::Enroll { .. } => "enroll"@,
        ExecuteMsg::CompleteCourse { .. } => "complete_course"@,
    }
}

/// The characters of an optional string.
pub open spec fn opt_view(o: Option<String>) -> Option<Seq<char>> {
    match o {
        Some(s) => Some(s@),
        None => None,
    }
}

/// `r` is the answer to `q` on store `s`.
pub open spec fn answers(s: RegistryModel, q: QueryMsg, r: QueryResponse) -> bool {
    match (q, r) {
        (QueryMsg::GetDid { did }, QueryResponse::Did(o)) => opt_view(o) == s.dids.get(did@),
        (QueryMsg::GetCourse { course_id }, QueryResponse::Course(o)) => opt_view(o)
            == s.courses.get(course_id@),
        (QueryMsg::GetEnrollments { course_id }, QueryResponse::Enrollments(o)) => match o {
            Some(v) => s.enrollments.get(course_id@) == Some(roster_view(v)),
            None => s.enrollments.get(course_id@) is None,
        },
        (QueryMsg::HasCompleted { course_id, did }, QueryResponse::Completed(o)) => o == (if s.completions.contains(
            (course_id@, did@),
        ) {
            Some(true)
        } else {
            None
        }),
        _ => false,
    }
}

/// A roster as read from the store, where none counts as empty.
pub open spec fn held_roster(o: Option<Vec<String>>) -> Seq<Seq<char>> {
    match o {
        Some(v) => roster_view(v),
        None => Seq::empty(),
    }
}

/// The roster to write back after enrolling `did` into `roster` (`None` for a
/// course with no roster yet), or `None` where `did` is on it already and
/// nothing is to be written.
pub fn enrolled_roster(roster: Option<Vec<String>>, did: &String) -> (r: Option<Vec<String>>)
    ensures
        match r {
            Some(v) => !held_roster(roster).contains(did@) && roster_view(v) == held_roster(
                roster,
            ).push(did@),
            None => held_roster(roster).contains(did@),
        },
{
    let ghost start = held_roster(roster);
    let mut list = match roster {
        Some(v) => v,
        None => Vec::new(),
    };
    let ghost cur = roster_view(list);
    assert(cur =~= start);
    let mut i: usize = 0;
    while i < list.len()
        invariant
            i <= list@.len(),
            cur == roster_view(list),
            cur == start,
            start == held_roster(roster),
            forall|j: int| 0 <= j < i ==> #[trigger] list@[j]@ != did@,
        decreases list@.len() - i,
    {
        if list[i] == *did {
            assert(cur[i as int] == did@);
            assert(cur.contains(did@));
            return None;
        }
        i = i + 1;
    }
    assert(!cur.contains(did@)) by {
        if cur.contains(did@) {
            let j = choose|j: int| 0 <= j < cur.len() && cur[j] == did@;
            assert(list@[j]@ == did@);
        }
    }
    list.push(did.clone());
    assert(roster_view(list) =~= cur.push(did@));
    Some(list)
}

/// Adding a DID that a roster lacks keeps the roster free of repeats.
pub proof fn lemma_push_fresh(r: Seq<Seq<char>>, d: Seq<char>)
    requires
        r.no_duplicates(),
        !r.contains(d),
    ensures
        r.push(d).no_duplicates(),
{
    assert forall|i: int, j: int|
        0 <= i < r.len() + 1 && 0 <= j < r.len() + 1 && i != j implies r.push(d)[i] != r.push(
            d,
        )[j] by {
        if i == r.len() {
            assert(r[j] != d);
        } else if j == r.len() {
            assert(r[i] != d);
        }
    }
}

/// The response to a command: the single tag "action" naming it.
pub fn action_response(msg: &ExecuteMsg) -> (r: Response)
    ensures
        r.attributes@.len() == 1,
        r.attributes@[0].key@ == "action"@,
        r.attributes@[0].value@ == action_of(*msg),
{
    match msg {
        ExecuteMsg::RegisterDid { .. } => Response::tagged("action", "register_did"),
        ExecuteMsg::CreateCourse { .. } => Response::tagged("action", "create_course"),
        ExecuteMsg::Enroll { .. } => Response::tagged("action", "enroll"),
        ExecuteMsg::CompleteCourse { .. } => Response::tagged("action", "complete_course"),
    }
}

/// The one-time setup: records `caller` as owner and changes nothing else.
pub fn instantiate(store: &mut Registry, caller: String, _msg: &InstantiateMsg) -> (r: Response)
    requires
        old(store).wf(),
    ensures
        final(store).wf(),
        final(store)@ == (RegistryModel { owner: Some(caller@), ..old(store)@ }),
        r.attributes@.len() == 1,
        r.attributes@[0].key@ == "method"@,
        r.attributes@[0].value@ == "instantiate"@,
{
    store.set_owner(caller);
    Response::tagged("method", "instantiate")
}

/// Applies one command to the store. Every command succeeds; the caller is not
/// consulted.
pub fn execute(store: &mut Registry, _caller: &String, msg: ExecuteMsg) -> (r: Response)
    requires
        old(store).wf(),
    ensures
        final(store).wf(),
        final(store)@ == step(old(store)@, msg),
        r.attributes@.len() == 1,
        r.attributes@[0].key@ == "action"@,
        r.attributes@[0].value@ == action_of(msg),
{
    let r = action_response(&msg);
    match msg {
        ExecuteMsg::RegisterDid { did, metadata } => {
            store.save_did(did, metadata);
        },
        ExecuteMsg::CreateCourse { course_id, info } => {
            store.save_course(course_id, info);
        },
        ExecuteMsg::Enroll { course_id, did } => {
            let current = store.roster(&course_id);
            let ghost cur = held_roster(current);
            if let Some(list) = enrolled_roster(current, &did) {
                proof {
                    store.lemma_valid();
                    lemma_push_fresh(cur, did@);
                }
                store.save_roster(course_id, list);
            }
        },
        ExecuteMsg::CompleteCourse { course_id, did } => {
            store.save_completion(course_id, did);
        },
    }
    r
}

/// Answers one lookup from the store, which it leaves as it is.
pub fn query(store: &Registry, msg: &QueryMsg) -> (r: QueryResponse)
    requires
        store.wf(),
    ensures
        answers(store@, *msg, r),
{
    match msg {
        QueryMsg::GetDid { did } => QueryResponse::Did(store.did(did)),
        QueryMsg::GetCourse { course_id } => QueryResponse::Course(store.course(course_id)),
        QueryMsg::GetEnrollments { course_id } => QueryResponse::Enrollments(
            store.roster(course_id),
        ),
        QueryMsg::HasCompleted { course_id, did } => QueryResponse::Completed(
            if store.completed(course_id, did) {
                Some(true)
            } else {
                None
            },
        ),
    }
}

} // verus!

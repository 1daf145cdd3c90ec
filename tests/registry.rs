use educhain::contract::{action_response, enrolled_roster, execute, instantiate, query};
use educhain::msg::{ExecuteMsg, InstantiateMsg, QueryMsg, QueryResponse, Response};
use educhain::state::Registry;

fn s(x: &str) -> String {
    x.to_string()
}

fn caller() -> String {
    s("sender")
}

fn register(r: &mut Registry, did: &str, metadata: &str) -> Response {
    execute(r, &caller(), ExecuteMsg::RegisterDid { did: s(did), metadata: s(metadata) })
}

fn create(r: &mut Registry, course_id: &str, info: &str) -> Response {
    execute(r, &caller(), ExecuteMsg::CreateCourse { course_id: s(course_id), info: s(info) })
}

fn enroll(r: &mut Registry, course_id: &str, did: &str) -> Response {
    execute(r, &caller(), ExecuteMsg::Enroll { course_id: s(course_id), did: s(did) })
}

fn complete(r: &mut Registry, course_id: &str, did: &str) -> Response {
    execute(r, &caller(), ExecuteMsg::CompleteCourse { course_id: s(course_id), did: s(did) })
}

fn get_did(r: &Registry, did: &str) -> QueryResponse {
    query(r, &QueryMsg::GetDid { did: s(did) })
}

fn get_course(r: &Registry, course_id: &str) -> QueryResponse {
    query(r, &QueryMsg::GetCourse { course_id: s(course_id) })
}

fn roster(r: &Registry, course_id: &str) -> QueryResponse {
    query(r, &QueryMsg::GetEnrollments { course_id: s(course_id) })
}

fn has_completed(r: &Registry, course_id: &str, did: &str) -> QueryResponse {
    query(r, &QueryMsg::HasCompleted { course_id: s(course_id), did: s(did) })
}

fn action(resp: &Response) -> (String, String) {
    assert_eq!(resp.attributes.len(), 1);
    (resp.attributes[0].key.clone(), resp.attributes[0].value.clone())
}

#[test]
fn end_to_end_scenario() {
    let mut r = Registry::new();
    create(&mut r, "c1", "Intro");
    register(&mut r, "did:1", "Alice");
    enroll(&mut r, "c1", "did:1");
    assert_eq!(roster(&r, "c1"), QueryResponse::Enrollments(Some(vec![s("did:1")])));
    assert_eq!(has_completed(&r, "c1", "did:1"), QueryResponse::Completed(None));
    complete(&mut r, "c1", "did:1");
    assert_eq!(has_completed(&r, "c1", "did:1"), QueryResponse::Completed(Some(true)));
    assert_eq!(get_course(&r, "c1"), QueryResponse::Course(Some(s("Intro"))));
    assert_eq!(get_did(&r, "did:1"), QueryResponse::Did(Some(s("Alice"))));
}

#[test]
fn enroll_in_missing_course_creates_roster() {
    // Current behaviour: no course check, the roster is created.
    let mut r = Registry::new();
    let resp = enroll(&mut r, "ghost", "did:1");
    assert_eq!(action(&resp), (s("action"), s("enroll")));
    assert_eq!(roster(&r, "ghost"), QueryResponse::Enrollments(Some(vec![s("did:1")])));
    assert_eq!(get_course(&r, "ghost"), QueryResponse::Course(None));
}

#[test]
fn register_last_write_wins() {
    let mut r = Registry::new();
    register(&mut r, "did:1", "first");
    register(&mut r, "did:1", "second");
    assert_eq!(get_did(&r, "did:1"), QueryResponse::Did(Some(s("second"))));
}

#[test]
fn create_course_overwrites() {
    let mut r = Registry::new();
    create(&mut r, "c1", "Intro");
    create(&mut r, "c1", "Advanced");
    create(&mut r, "c2", "Other");
    assert_eq!(get_course(&r, "c1"), QueryResponse::Course(Some(s("Advanced"))));
    assert_eq!(get_course(&r, "c2"), QueryResponse::Course(Some(s("Other"))));
}

#[test]
fn enroll_twice_lists_once() {
    let mut r = Registry::new();
    enroll(&mut r, "c1", "did:1");
    enroll(&mut r, "c1", "did:1");
    assert_eq!(roster(&r, "c1"), QueryResponse::Enrollments(Some(vec![s("did:1")])));
}

#[test]
fn enroll_keeps_insertion_order() {
    let mut r = Registry::new();
    enroll(&mut r, "c1", "did:2");
    enroll(&mut r, "c1", "did:1");
    enroll(&mut r, "c1", "did:2");
    enroll(&mut r, "c1", "did:3");
    assert_eq!(
        roster(&r, "c1"),
        QueryResponse::Enrollments(Some(vec![s("did:2"), s("did:1"), s("did:3")]))
    );
}

#[test]
fn rosters_are_per_course() {
    let mut r = Registry::new();
    enroll(&mut r, "c1", "did:1");
    enroll(&mut r, "c2", "did:2");
    assert_eq!(roster(&r, "c1"), QueryResponse::Enrollments(Some(vec![s("did:1")])));
    assert_eq!(roster(&r, "c2"), QueryResponse::Enrollments(Some(vec![s("did:2")])));
}

#[test]
fn completion_is_sticky_and_idempotent() {
    let mut r = Registry::new();
    assert_eq!(has_completed(&r, "c1", "did:1"), QueryResponse::Completed(None));
    complete(&mut r, "c1", "did:1");
    complete(&mut r, "c1", "did:1");
    register(&mut r, "did:1", "Alice");
    assert_eq!(has_completed(&r, "c1", "did:1"), QueryResponse::Completed(Some(true)));
    assert_eq!(has_completed(&r, "c1", "did:2"), QueryResponse::Completed(None));
    assert_eq!(has_completed(&r, "c2", "did:1"), QueryResponse::Completed(None));
}

#[test]
fn completion_without_enrollment_is_recorded() {
    let mut r = Registry::new();
    complete(&mut r, "c9", "did:9");
    assert_eq!(has_completed(&r, "c9", "did:9"), QueryResponse::Completed(Some(true)));
    assert_eq!(roster(&r, "c9"), QueryResponse::Enrollments(None));
}

#[test]
fn unknown_keys_are_not_found() {
    let mut r = Registry::new();
    assert_eq!(get_did(&r, "did:1"), QueryResponse::Did(None));
    assert_eq!(get_course(&r, "c1"), QueryResponse::Course(None));
    assert_eq!(roster(&r, "c1"), QueryResponse::Enrollments(None));
    assert_eq!(has_completed(&r, "c1", "did:1"), QueryResponse::Completed(None));
    register(&mut r, "did:2", "Bob");
    create(&mut r, "c2", "Other");
    assert_eq!(get_did(&r, "did:1"), QueryResponse::Did(None));
    assert_eq!(get_course(&r, "c1"), QueryResponse::Course(None));
    assert_eq!(get_did(&r, ""), QueryResponse::Did(None));
}

#[test]
fn empty_strings_are_ordinary_keys() {
    let mut r = Registry::new();
    register(&mut r, "", "");
    enroll(&mut r, "", "");
    assert_eq!(get_did(&r, ""), QueryResponse::Did(Some(s(""))));
    assert_eq!(roster(&r, ""), QueryResponse::Enrollments(Some(vec![s("")])));
}

#[test]
fn command_responses_name_the_action() {
    let mut r = Registry::new();
    assert_eq!(action(&register(&mut r, "d", "m")), (s("action"), s("register_did")));
    assert_eq!(action(&create(&mut r, "c", "i")), (s("action"), s("create_course")));
    assert_eq!(action(&enroll(&mut r, "c", "d")), (s("action"), s("enroll")));
    assert_eq!(action(&enroll(&mut r, "c", "d")), (s("action"), s("enroll")));
    assert_eq!(action(&complete(&mut r, "c", "d")), (s("action"), s("complete_course")));
    let msg = ExecuteMsg::Enroll { course_id: s("c"), did: s("d") };
    assert_eq!(action(&action_response(&msg)), (s("action"), s("enroll")));
}

#[test]
fn instantiate_records_owner() {
    let mut r = Registry::new();
    assert_eq!(r.owner(), None);
    let msg = InstantiateMsg { name: s("edu"), symbol: s("EDU") };
    let resp = instantiate(&mut r, s("creator"), &msg);
    assert_eq!(action(&resp), (s("method"), s("instantiate")));
    assert_eq!(r.owner(), Some(s("creator")));
    assert_eq!(get_did(&r, "creator"), QueryResponse::Did(None));
}

#[test]
fn enrolled_roster_decides_the_write() {
    assert_eq!(enrolled_roster(None, &s("d1")), Some(vec![s("d1")]));
    assert_eq!(enrolled_roster(Some(vec![s("d1")]), &s("d1")), None);
    assert_eq!(
        enrolled_roster(Some(vec![s("d1")]), &s("d2")),
        Some(vec![s("d1"), s("d2")])
    );
    assert_eq!(enrolled_roster(Some(vec![]), &s("d2")), Some(vec![s("d2")]));
}

#[test]
fn registry_accessors_read_the_records() {
    let mut r = Registry::new();
    r.save_did(s("d"), s("m"));
    r.save_course(s("c"), s("i"));
    r.save_roster(s("c"), vec![s("a"), s("b")]);
    r.save_completion(s("c"), s("a"));
    assert_eq!(r.did(&s("d")), Some(s("m")));
    assert_eq!(r.course(&s("c")), Some(s("i")));
    assert_eq!(r.roster(&s("c")), Some(vec![s("a"), s("b")]));
    assert!(r.completed(&s("c"), &s("a")));
    assert!(!r.completed(&s("c"), &s("b")));
}

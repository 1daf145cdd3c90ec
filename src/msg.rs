use vstd::prelude::*;

verus! {

/// Parameters of the one-time setup call. The registry records the caller as
/// owner and reads neither field.
#[derive(Clone, Debug, PartialEq, Eq)]
pub struct InstantiateMsg {
    pub name: String,
    pub symbol: String,
}

/// A command that changes the registry.
#[derive(Clone, Debug, PartialEq, Eq)]
pub enum ExecuteMsg {
    /// Holds `metadata` for `did`, in place of any earlier metadata.
    RegisterDid { did: String, metadata: String },
    /// Holds `info` for `course_id`, in place of any earlier info.
    CreateCourse { course_id: String, info: String },
    /// Adds `did` to the roster of `course_id` unless it is there already.
    Enroll { course_id: String, did: String },
    /// Records that `did` has completed `course_id`.
    CompleteCourse { course_id: String, did: String },
}

/// A read-only lookup.
#[derive(Clone, Debug, PartialEq, Eq)]
pub enum QueryMsg {
    GetDid { did: String },
    GetCourse { course_id: String },
    GetEnrollments { course_id: String },
    HasCompleted { course_id: String, did: String },
}

/// The answer to a lookup. An absent record is `None`, for every kind of
/// lookup alike.
#[derive(Clone, Debug, PartialEq, Eq)]
pub enum QueryResponse {
    Did(Option<String>),
    Course(Option<String>),
    Enrollments(Option<Vec<String>>),
    Completed(Option<bool>),
}

/// One key/value tag of a response.
#[derive(Clone, Debug, PartialEq, Eq)]
pub struct Attribute {
    pub key: String,
    pub value: String,
}

/// What a command or the setup call reports back.
#[derive(Clone, Debug, PartialEq, Eq)]
pub struct Response {
    pub attributes: Vec<Attribute>,
}

/// A token transfer request. The registry accepts no such command; the type
/// is kept for clients that still build it.
#[derive(Clone, Debug, PartialEq, Eq)]
pub struct TransferMsg {
    pub recipient: String,
    pub amount: u128,
}

/// A token mint request. The registry accepts no such command; the type is
/// kept for clients that still build it.
#[derive(Clone, Debug, PartialEq, Eq)]
pub struct MintMsg {
    pub recipient: String,
    pub amount: u128,
}

/// A token balance answer, kept beside the two requests above.
#[derive(Clone, Debug, PartialEq, Eq)]
pub struct BalanceResponse {
    pub balance: u128,
}

impl Response {
    /// A response with the single tag `key` = `value`.
    pub fn tagged(key: &str, value: &str) -> (r: Response)
        ensures
            r.attributes@.len() == 1,
            r.attributes@[0].key@ == key@,
            r.attributes@[0].value@ == value@,
    {
        let mut attributes: Vec<Attribute> = Vec::new();
        attributes.push(Attribute { key: key.to_owned(), value: value.to_owned() });
        Response { attributes }
    }
}

} // verus!

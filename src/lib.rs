//! A registry of decentralized identities, courses, enrollments and course
//! completions: the commands that change it, the lookups that read it, and the
//! laws that hold between them.

use vstd::prelude::*;

pub mod contract;
pub mod laws;
pub mod msg;
pub mod state;
pub mod table;

verus! {

} // verus!

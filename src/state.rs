use vstd::prelude::*;

use crate::table::Table;

verus! {

/// A course's roster as the characters of each DID, in order of enrollment.
pub open spec fn roster_view(v: Vec<String>) -> Seq<Seq<char>> {
    v@.map_values(|s: String| s@)
}

/// What the registry holds, as mathematical values.
pub struct RegistryModel {
    pub owner: Option<Seq<char>>,
    pub dids: Map<Seq<char>, Seq<char>>,
    pub courses: Map<Seq<char>, Seq<char>>,
    pub enrollments: Map<Seq<char>, Seq<Seq<char>>>,
    pub completions: Set<(Seq<char>, Seq<char>)>,
}

/// A store with no owner and no records.
pub open spec fn empty_model() -> RegistryModel {
    RegistryModel {
        owner: None,
        dids: Map::empty(),
        courses: Map::empty(),
        enrollments: Map::empty(),
        completions: Set::empty(),
    }
}

impl RegistryModel {
    /// No roster names a DID twice.
    pub open spec fn valid(self) -> bool {
        forall|c: Seq<char>| #[trigger]
            self.enrollments.contains_key(c) ==> self.enrollments[c].no_duplicates()
    }
}

/// The four keyed collections and the owner record: the store that every
/// handler is given.
pub struct Registry {
    owner: Option<String>,
    dids: Table<String>,
    courses: Table<String>,
    enrollments: Table<Vec<String>>,
    completions: Vec<(String, String)>,
}

impl Registry {
    pub closed spec fn wf(&self) -> bool {
        self.dids.wf() && self.courses.wf() && self.enrollments.wf() && self@.valid()
    }

    pub closed spec fn view(&self) -> RegistryModel {
        RegistryModel {
            owner: match self.owner {
                Some(o) => Some(o@),
                None => None,
            },
            dids: self.dids.view().map_values(|s: String| s@),
            courses: self.courses.view().map_values(|s: String| s@),
            enrollments: self.enrollments.view().map_values(|v: Vec<String>| roster_view(v)),
            completions: Set::new(
                |p: (Seq<char>, Seq<char>)|
                    exists|i: int|
                        0 <= i < self.completions@.len() && (
                        #[trigger] self.completions@[i]).0@ == p.0 && self.completions@[i].1@
                            == p.1,
            ),
        }
    }

    /// A well-formed store holds a valid model.
    pub proof fn lemma_valid(&self)
        requires
            self.wf(),
        ensures
            self@.valid(),
    {
    }

    /// An empty store: no owner, no records.
    pub fn new() -> (r: Registry)
        ensures
            r.wf(),
            r@ == empty_model(),
    {
        let r = Registry {
            owner: None,
            dids: Table::new(),
            courses: Table::new(),
            enrollments: Table::new(),
            completions: Vec::new(),
        };
        assert(r@.dids =~= Map::<Seq<char>, Seq<char>>::empty());
        assert(r@.courses =~= Map::<Seq<char>, Seq<char>>::empty());
        assert(r@.enrollments =~= Map::<Seq<char>, Seq<Seq<char>>>::empty());
        assert(r@.completions =~= Set::<(Seq<char>, Seq<char>)>::empty());
        r
    }

    /// The owner recorded at setup.
    pub fn owner(&self) -> (r: Option<String>)
        ensures
            match r {
                Some(o) => self@.owner == Some(o@),
                None => self@.owner is None,
            },
    {
        match &self.owner {
            Some(o) => Some(o.clone()),
            None => None,
        }
    }

    /// Records `caller` as owner.
    pub fn set_owner(&mut self, caller: String)
        requires
            old(self).wf(),
        ensures
            final(self).wf(),
            final(self)@ == (RegistryModel { owner: Some(caller@), ..old(self)@ }),
    {
        self.owner = Some(caller);
    }

    /// The metadata held for `did`.
    pub fn did(&self, did: &String) -> (r: Option<String>)
        requires
            self.wf(),
        ensures
            match r {
                Some(m) => self@.dids.contains_key(did@) && self@.dids[did@] == m@,
                None => !self@.dids.contains_key(did@),
            },
    {
        match self.dids.get(did) {
            Some(m) => Some(m.clone()),
            None => None,
        }
    }

    /// Holds `metadata` for `did`.
    pub fn save_did(&mut self, did: String, metadata: String)
        requires
            old(self).wf(),
        ensures
            final(self).wf(),
            final(self)@ == (RegistryModel {
                dids: old(self)@.dids.insert(did@, metadata@),
                ..old(self)@
            }),
    {
        let ghost k = did@;
        let ghost m = metadata@;
        self.dids.insert(did, metadata);
        assert(self@.dids =~= old(self)@.dids.insert(k, m));
    }

    /// The info held for `course_id`.
    pub fn course(&self, course_id: &String) -> (r: Option<String>)
        requires
            self.wf(),
        ensures
            match r {
                Some(m) => self@.courses.contains_key(course_id@) && self@.courses[course_id@]
                    == m@,
                None => !self@.courses.contains_key(course_id@),
            },
    {
        match self.courses.get(course_id) {
            Some(m) => Some(m.clone()),
            None => None,
        }
    }

    /// Holds `info` for `course_id`.
    pub fn save_course(&mut self, course_id: String, info: String)
        requires
            old(self).wf(),
        ensures
            final(self).wf(),
            final(self)@ == (RegistryModel {
                courses: old(self)@.courses.insert(course_id@, info@),
                ..old(self)@
            }),
    {
        let ghost k = course_id@;
        let ghost m = info@;
        self.courses.insert(course_id, info);
        assert(self@.courses =~= old(self)@.courses.insert(k, m));
    }

    /// The roster held for `course_id`.
    pub fn roster(&self, course_id: &String) -> (r: Option<Vec<String>>)
        requires
            self.wf(),
        ensures
            match r {
                Some(v) => self@.enrollments.contains_key(course_id@)
                    && self@.enrollments[course_id@] == roster_view(v),
                None => !self@.enrollments.contains_key(course_id@),
            },
    {
        match self.enrollments.get(course_id) {
            Some(v) => {
                let mut out: Vec<String> = Vec::new();
                let mut i: usize = 0;
                while i < v.len()
                    invariant
                        i <= v@.len(),
                        out@.len() == i,
                        forall|j: int| 0 <= j < i ==> #[trigger] out@[j] == v@[j],
                    decreases v@.len() - i,
                {
                    out.push(v[i].clone());
                    i = i + 1;
                }
                assert(roster_view(out) =~= roster_view(*v));
                Some(out)
            },
            None => None,
        }
    }

    /// Holds `roster` for `course_id`.
    pub fn save_roster(&mut self, course_id: String, roster: Vec<String>)
        requires
            old(self).wf(),
            roster_view(roster).no_duplicates(),
        ensures
            final(self).wf(),
            final(self)@ == (RegistryModel {
                enrollments: old(self)@.enrollments.insert(course_id@, roster_view(roster)),
                ..old(self)@
            }),
    {
        let ghost k = course_id@;
        let ghost m = roster_view(roster);
        self.enrollments.insert(course_id, roster);
        assert(self@.enrollments =~= old(self)@.enrollments.insert(k, m));
    }

    /// Whether completion of `course_id` by `did` is on record.
    pub fn completed(&self, course_id: &String, did: &String) -> (r: bool)
        ensures
            r == self@.completions.contains((course_id@, did@)),
    {
        let mut i: usize = 0;
        while i < self.completions.len()
            invariant
                i <= self.completions@.len(),
                forall|j: int|
                    0 <= j < i ==> !((#[trigger] self.completions@[j]).0@ == course_id@
                        && self.completions@[j].1@ == did@),
            decreases self.completions@.len() - i,
        {
            if self.completions[i].0 == *course_id && self.completions[i].1 == *did {
                assert(self@.completions.contains((course_id@, did@)));
                return true;
            }
            i = i + 1;
        }
        false
    }

    /// Records completion of `course_id` by `did`.
    pub fn save_completion(&mut self, course_id: String, did: String)
        requires
            old(self).wf(),
        ensures
            final(self).wf(),
            final(self)@ == (RegistryModel {
                completions: old(self)@.completions.insert((course_id@, did@)),
                ..old(self)@
            }),
    {
        let ghost p = (course_id@, did@);
        if self.completed(&course_id, &did) {
            assert(self@.completions.insert(p) =~= self@.completions);
        } else {
            self.completions.push((course_id, did));
            let ghost n = old(self).completions@.len() as int;
            assert forall|q: (Seq<char>, Seq<char>)|
                #[trigger] self@.completions.contains(q) == old(self)@.completions.insert(
                    p,
                ).contains(q) by {
                if old(self)@.completions.contains(q) {
                    let j = choose|j: int|
                        0 <= j < old(self).completions@.len() && (
                        #[trigger] old(self).completions@[j]).0@ == q.0
                            && old(self).completions@[j].1@ == q.1;
                    assert(self.completions@[j] == old(self).completions@[j]);
                }
                if q == p {
                    assert(self.completions@[n].0@ == q.0);
                }
                if self@.completions.contains(q) {
                    let j = choose|j: int|
                        0 <= j < self.completions@.len() && (#[trigger] self.completions@[j]).0@
                            == q.0 && self.completions@[j].1@ == q.1;
                    if j != n {
                        assert(old(self).completions@[j] == self.completions@[j]);
                    }
                }
            }
            assert(self@.completions =~= old(self)@.completions.insert(p));
        }
    }
}

} // verus!

use crate::account::Id;
use crate::database::CommitDatabase;
use crate::database::PrepareDatabase;
use crate::signup::IdAssignment;
use crate::signup::IdClaim;
use std::collections::HashMap;
use std::collections::HashSet;
use vstd::prelude::*;

verus! {

broadcast use vstd::std_specs::hash::group_hash_axioms;

/// What a replica knows of the sign-ups: the claim that first reached it
/// for each id, and the ids for which it certified an assignment.
pub struct Signup {
    pub claims: HashMap<Id, IdClaim>,
    pub claimed: HashSet<Id>,
}

impl Signup {
    pub fn new() -> (signup: Signup)
        ensures
            signup.claims@ == Map::<Id, IdClaim>::empty(),
            signup.claimed@ == Set::<Id>::empty(),
    {
        Signup { claims: HashMap::new(), claimed: HashSet::new() }
    }
}

/// The state of a replica. It is the only source of truth: nothing of it
/// is persisted.
pub struct Database {
    pub assignments: HashMap<Id, IdAssignment>,
    pub prepare: PrepareDatabase,
    pub commit: CommitDatabase,
    pub signup: Signup,
}

impl Database {
    pub open spec fn wf(&self) -> bool {
        &&& forall|id: Id| #[trigger]
            self.assignments@.dom().contains(id) ==> self.assignments@[id].wf()
        &&& self.prepare.wf()
        &&& self.commit.wf()
    }

    pub fn new() -> (database: Database)
        ensures
            database.wf(),
            database.assignments@ == Map::<Id, IdAssignment>::empty(),
            database.prepare@.states == Map::<Id, crate::database::State>::empty(),
            database.prepare@.stale == Set::<Id>::empty(),
            database.commit@ == Map::<crate::account::Entry, crate::commit::Payload>::empty(),
            database.signup.claims@ == Map::<Id, IdClaim>::empty(),
            database.signup.claimed@ == Set::<Id>::empty(),
    {
        Database {
            assignments: HashMap::new(),
            prepare: PrepareDatabase::new(),
            commit: CommitDatabase::new(),
            signup: Signup::new(),
        }
    }
}

} // verus!

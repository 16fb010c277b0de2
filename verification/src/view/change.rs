use crate::crypto::Identity;
use vstd::prelude::*;

verus! {

/// One step of churn: a replica joins the committee or leaves it.
#[derive(Clone, Copy, Debug, PartialEq, Eq, Structural)]
pub enum Change {
    Join(Identity),
    Leave(Identity),
}

impl Change {
    /// The committee after this change.
    pub open spec fn apply(self, members: Set<Identity>) -> Set<Identity> {
        match self {
            Change::Join(replica) => members.insert(replica),
            Change::Leave(replica) => members.remove(replica),
        }
    }

    /// The replica that joins or leaves.
    pub fn replica(&self) -> (replica: Identity)
        ensures
            replica == match *self {
                Change::Join(replica) => replica,
                Change::Leave(replica) => replica,
            },
    {
        match self {
            Change::Join(replica) => *replica,
            Change::Leave(replica) => *replica,
        }
    }
}

/// The committee after `changes`, applied in order.
pub open spec fn apply_all(members: Set<Identity>, changes: Seq<Change>) -> Set<Identity>
    decreases changes.len(),
{
    if changes.len() == 0 {
        members
    } else {
        changes.last().apply(apply_all(members, changes.drop_last()))
    }
}

/// A non-empty run of changes that a view change applies at once.
pub struct Increment {
    changes: Vec<Change>,
}

impl View for Increment {
    type V = Seq<Change>;

    closed spec fn view(&self) -> Seq<Change> {
        self.changes@
    }
}

impl Increment {
    pub open spec fn wf(&self) -> bool {
        self@.len() > 0
    }

    /// Holds exactly when `changes` is not empty.
    pub fn new(changes: Vec<Change>) -> (increment: Option<Increment>)
        ensures
            increment is Some <==> changes@.len() > 0,
            increment matches Some(increment) ==> increment.wf() && increment@ == changes@,
    {
        if changes.len() == 0 {
            None
        } else {
            Some(Increment { changes })
        }
    }

    pub fn len(&self) -> (len: usize)
        ensures
            len == self@.len(),
    {
        self.changes.len()
    }

    pub fn get(&self, index: usize) -> (change: Change)
        requires
            index < self@.len(),
        ensures
            change == self@[index as int],
    {
        self.changes[index]
    }
}

} // verus!

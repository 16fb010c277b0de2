use vstd::prelude::*;

verus! {

/// The number that an account was given on sign-up.
pub type Id = u64;

/// One operation slot: the `height`-th operation of account `id`.
#[derive(Clone, Copy, Debug, PartialEq, Eq, Structural)]
pub struct Entry {
    pub id: Id,
    pub height: u64,
}

impl Entry {
    /// Order by account first, then by height.
    pub open spec fn spec_before(self, other: Entry) -> bool {
        self.id < other.id || (self.id == other.id && self.height < other.height)
    }

    /// Whether `self` comes strictly before `other`, by account and then
    /// by height.
    pub fn before(&self, other: &Entry) -> (earlier: bool)
        ensures
            earlier == self.spec_before(*other),
    {
        self.id < other.id || (self.id == other.id && self.height < other.height)
    }
}

} // verus!

use crate::account::Entry;
use crate::account::Id;
use crate::crypto::Digest;
use vstd::prelude::*;

verus! {

/// A client's commitment to the operation at one of its slots.
#[derive(Clone, Copy, Debug, PartialEq, Eq, Structural)]
pub struct Prepare {
    id: Id,
    height: u64,
    commitment: Digest,
}

impl Prepare {
    pub closed spec fn spec_id(&self) -> Id {
        self.id
    }

    pub closed spec fn spec_height(&self) -> u64 {
        self.height
    }

    pub closed spec fn spec_commitment(&self) -> Digest {
        self.commitment
    }

    pub fn new(id: Id, height: u64, commitment: Digest) -> (prepare: Prepare)
        ensures
            prepare.spec_id() == id,
            prepare.spec_height() == height,
            prepare.spec_commitment() == commitment,
    {
        Prepare { id, height, commitment }
    }

    pub fn id(&self) -> (id: Id)
        ensures
            id == self.spec_id(),
    {
        self.id
    }

    pub fn height(&self) -> (height: u64)
        ensures
            height == self.spec_height(),
    {
        self.height
    }

    pub fn commitment(&self) -> (commitment: Digest)
        ensures
            commitment == self.spec_commitment(),
    {
        self.commitment
    }

    pub fn entry(&self) -> (entry: Entry)
        ensures
            entry == (Entry { id: self.spec_id(), height: self.spec_height() }),
    {
        Entry { id: self.id, height: self.height }
    }
}

} // verus!

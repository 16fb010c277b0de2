use crate::crypto::Digest;
use crate::crypto::Header;
use vstd::prelude::*;

verus! {

/// What a replica signs to witness the batch under `root`.
#[derive(Clone, Copy, Debug, PartialEq, Eq, Structural)]
pub struct WitnessStatement {
    pub root: Digest,
}

impl WitnessStatement {
    pub fn new(root: Digest) -> (statement: WitnessStatement)
        ensures
            statement.root == root,
    {
        WitnessStatement { root }
    }

    /// The domain under which the statement is signed.
    pub fn header(&self) -> (header: Header)
        ensures
            header == Header::Witness,
    {
        Header::Witness
    }
}

/// What the accounts that sign together sign: the root of the batch that
/// holds their prepares.
#[derive(Clone, Copy, Debug, PartialEq, Eq, Structural)]
pub struct ReductionStatement {
    pub root: Digest,
}

impl ReductionStatement {
    pub fn new(root: Digest) -> (statement: ReductionStatement)
        ensures
            statement.root == root,
    {
        ReductionStatement { root }
    }

    /// The domain under which the statement is signed.
    pub fn header(&self) -> (header: Header)
        ensures
            header == Header::Reduction,
    {
        Header::Reduction
    }
}

} // verus!

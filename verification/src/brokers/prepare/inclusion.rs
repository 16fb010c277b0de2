use crate::crypto::Digest;
use crate::crypto::Proof;
use crate::prepare::statement::ReductionStatement;
use crate::prepare::Prepare;
use crate::prepare::PrepareVector;
use vstd::prelude::*;

verus! {

/// Why an inclusion is not certified.
#[derive(Clone, Copy, Debug, PartialEq, Eq, Structural)]
pub enum InclusionError {
    ProofInvalid,
}

/// What a broker hands a client back: the root of the batch that holds the
/// client's prepare, and the proof that it does.
pub struct Inclusion {
    root: Digest,
    proof: Proof,
}

impl Inclusion {
    pub closed spec fn spec_root(&self) -> Digest {
        self.root
    }

    pub closed spec fn spec_proof(&self) -> Proof {
        self.proof
    }

    pub fn new(root: Digest, proof: Proof) -> (inclusion: Inclusion)
        ensures
            inclusion.spec_root() == root,
            inclusion.spec_proof() == proof,
    {
        Inclusion { root, proof }
    }

    /// One inclusion for each prepare of the batch, in order.
    pub fn batch(prepares: &PrepareVector) -> (inclusions: Vec<Inclusion>)
        requires
            prepares.wf(),
        ensures
            inclusions@.len() == prepares.items().len(),
            forall|i: int|
                0 <= i < inclusions@.len() ==> (#[trigger] inclusions@[i]).spec_root()
                    == prepares.spec_root() && inclusions@[i].spec_proof() == prepares.proofs()[i],
    {
        let mut inclusions: Vec<Inclusion> = Vec::new();
        let mut index: usize = 0;
        while index < prepares.len()
            invariant
                prepares.wf(),
                index <= prepares.items().len(),
                inclusions@.len() == index,
                forall|i: int|
                    0 <= i < index ==> (#[trigger] inclusions@[i]).spec_root()
                        == prepares.spec_root() && inclusions@[i].spec_proof()
                        == prepares.proofs()[i],
            decreases prepares.items().len() - index,
        {
            inclusions.push(Inclusion { root: prepares.root(), proof: prepares.prove(index) });
            index += 1;
        }
        inclusions
    }

    pub fn root(&self) -> (root: Digest)
        ensures
            root == self.spec_root(),
    {
        self.root
    }

    pub fn inclusion_proof(&self) -> (inclusion: &Proof)
        ensures
            *inclusion == self.spec_proof(),
    {
        &self.proof
    }

    /// The statement that the client signs to join the reduction: that of
    /// the root, provided that the proof was found to lead from the
    /// client's prepare to the root.
    pub fn certify(&self, prepare: &Prepare, proof_valid: bool) -> (outcome: Result<
        ReductionStatement,
        InclusionError,
    >)
        ensures
            outcome == if proof_valid {
                Ok::<ReductionStatement, InclusionError>(
                    ReductionStatement { root: self.spec_root() },
                )
            } else {
                Err(InclusionError::ProofInvalid)
            },
    {
        if !proof_valid {
            return Err(InclusionError::ProofInvalid);
        }
        Ok(ReductionStatement::new(self.root))
    }
}

} // verus!

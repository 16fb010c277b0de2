use crate::account::Id;
use crate::prepare::Evidence;
use crate::prepare::Extract;
use crate::view::ViewStore;
use vstd::prelude::*;

verus! {

/// Why a pair of extracts proves no equivocation.
#[derive(Clone, Copy, Debug, PartialEq, Eq, Structural)]
pub enum EquivocationError {
    IdMismatch,
    ConsistentExtracts,
    InvalidExtract,
}

/// Two extracts that show one account committing to two different
/// operations.
pub struct Equivocation(pub Extract, pub Extract);

impl Clone for Equivocation {
    fn clone(&self) -> (copy: Self)
        ensures
            copy == *self,
    {
        Equivocation(self.0.clone(), self.1.clone())
    }
}

impl Equivocation {
    pub open spec fn wf(&self) -> bool {
        self.0.wf() && self.1.wf()
    }

    /// The account that equivocated, going by the first extract.
    pub open spec fn spec_id(&self) -> Id {
        self.0.spec_id()
    }

    /// What `validate` reports.
    pub open spec fn verdict(&self, discovery: ViewStore, first: Evidence, second: Evidence) -> Result<
        (),
        EquivocationError,
    > {
        if self.0.spec_id() != self.1.spec_id() {
            Err(EquivocationError::IdMismatch)
        } else if self.0.spec_commitment() == self.1.spec_commitment() {
            Err(EquivocationError::ConsistentExtracts)
        } else if self.0.verdict(discovery, first) is Err || self.1.verdict(discovery, second)
            is Err {
            Err(EquivocationError::InvalidExtract)
        } else {
            Ok(())
        }
    }

    pub fn new(lhe: Extract, rhe: Extract) -> (equivocation: Equivocation)
        ensures
            equivocation.0 == lhe,
            equivocation.1 == rhe,
    {
        Equivocation(lhe, rhe)
    }

    pub fn id(&self) -> (id: Id)
        ensures
            id == self.spec_id(),
    {
        self.0.id()
    }

    /// Accepts when the two extracts name one account, commit to different
    /// operations, and are each valid. `first` and `second` report what
    /// was found about the first and the second extract.
    pub fn validate(&self, discovery: &ViewStore, first: Evidence, second: Evidence) -> (outcome:
        Result<(), EquivocationError>)
        requires
            self.wf(),
            discovery.wf(),
        ensures
            outcome == self.verdict(*discovery, first, second),
    {
        if self.0.id() != self.1.id() {
            return Err(EquivocationError::IdMismatch);
        }
        if self.0.commitment() == self.1.commitment() {
            return Err(EquivocationError::ConsistentExtracts);
        }
        if self.0.validate(discovery, first).is_err() {
            return Err(EquivocationError::InvalidExtract);
        }
        if self.1.validate(discovery, second).is_err() {
            return Err(EquivocationError::InvalidExtract);
        }
        Ok(())
    }
}

/// Two valid extracts of one account with
/// different commitments make a valid equivocation; extracts of different
/// accounts fail with `IdMismatch`, and extracts of one account with equal
/// commitments fail with `ConsistentExtracts`.
pub proof fn lemma_equivocation_detection(
    lhe: Extract,
    rhe: Extract,
    discovery: ViewStore,
    first: Evidence,
    second: Evidence,
)
    ensures
        lhe.spec_id() != rhe.spec_id() ==> Equivocation(lhe, rhe).verdict(discovery, first, second)
            == Err::<(), EquivocationError>(EquivocationError::IdMismatch),
        lhe.spec_id() == rhe.spec_id() && lhe.spec_commitment() == rhe.spec_commitment()
            ==> Equivocation(lhe, rhe).verdict(discovery, first, second) == Err::<
            (),
            EquivocationError,
        >(EquivocationError::ConsistentExtracts),
        lhe.spec_id() == rhe.spec_id() && lhe.spec_commitment() != rhe.spec_commitment()
            && lhe.verdict(discovery, first) is Ok && rhe.verdict(discovery, second) is Ok
            ==> Equivocation(lhe, rhe).verdict(discovery, first, second) == Ok::<
            (),
            EquivocationError,
        >(()),
{
}

} // verus!

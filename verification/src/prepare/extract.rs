use crate::account::Id;
use crate::crypto::Certificate;
use crate::crypto::Digest;
use crate::crypto::Proof;
use crate::prepare::Prepare;
use crate::view::view::plurality_of;
use crate::view::ViewStore;
use vstd::prelude::*;

verus! {

/// Why an extract proves nothing.
#[derive(Clone, Copy, Debug, PartialEq, Eq, Structural)]
pub enum ExtractError {
    ViewUnknown,
    WitnessInvalid,
    InclusionProofInvalid,
}

/// What the checks made outside this library found about an extract.
#[derive(Clone, Copy, Debug, PartialEq, Eq, Structural)]
pub struct Evidence {
    /// The witness' aggregate signature verifies, over the witness
    /// statement of the extract's root, for the witness' signers.
    pub witness_valid: bool,
    /// The inclusion proof leads from the prepare to the extract's root.
    pub inclusion_valid: bool,
}

/// A portable proof that a prepare was witnessed in some view.
pub struct Extract {
    view: Digest,
    root: Digest,
    witness: Certificate,
    inclusion: Proof,
    prepare: Prepare,
}

impl Clone for Extract {
    fn clone(&self) -> (copy: Self)
        ensures
            copy == *self,
    {
        Extract {
            view: self.view,
            root: self.root,
            witness: self.witness.clone(),
            inclusion: self.inclusion.clone(),
            prepare: self.prepare,
        }
    }
}

impl Extract {
    pub closed spec fn spec_view(&self) -> Digest {
        self.view
    }

    pub closed spec fn spec_root(&self) -> Digest {
        self.root
    }

    pub closed spec fn spec_witness(&self) -> Certificate {
        self.witness
    }

    pub closed spec fn spec_inclusion(&self) -> Proof {
        self.inclusion
    }

    pub closed spec fn spec_prepare(&self) -> Prepare {
        self.prepare
    }

    pub open spec fn spec_id(&self) -> Id {
        self.spec_prepare().spec_id()
    }

    pub open spec fn spec_commitment(&self) -> Digest {
        self.spec_prepare().spec_commitment()
    }

    pub open spec fn wf(&self) -> bool {
        self.spec_witness().wf()
    }

    /// Two extracts with the same fields are the same extract.
    pub proof fn lemma_extensional(self, other: Extract)
        requires
            self.spec_view() == other.spec_view(),
            self.spec_root() == other.spec_root(),
            self.spec_witness() == other.spec_witness(),
            self.spec_inclusion() == other.spec_inclusion(),
            self.spec_prepare() == other.spec_prepare(),
        ensures
            self == other,
    {
    }

    /// What `validate` reports.
    pub open spec fn verdict(&self, discovery: ViewStore, evidence: Evidence) -> Result<
        (),
        ExtractError,
    > {
        if !discovery@.dom().contains(self.spec_view()) {
            Err(ExtractError::ViewUnknown)
        } else if self.spec_witness().verdict(
            discovery@[self.spec_view()],
            plurality_of(discovery@[self.spec_view()].members().len()),
            evidence.witness_valid,
        ) is Err {
            Err(ExtractError::WitnessInvalid)
        } else if !evidence.inclusion_valid {
            Err(ExtractError::InclusionProofInvalid)
        } else {
            Ok(())
        }
    }

    pub fn new(view: Digest, root: Digest, witness: Certificate, inclusion: Proof, prepare: Prepare) -> (extract:
        Extract)
        ensures
            extract.spec_view() == view,
            extract.spec_root() == root,
            extract.spec_witness() == witness,
            extract.spec_inclusion() == inclusion,
            extract.spec_prepare() == prepare,
    {
        Extract { view, root, witness, inclusion, prepare }
    }

    pub fn id(&self) -> (id: Id)
        ensures
            id == self.spec_id(),
    {
        self.prepare.id()
    }

    pub fn commitment(&self) -> (commitment: Digest)
        ensures
            commitment == self.spec_commitment(),
    {
        self.prepare.commitment()
    }

    pub fn view_identifier(&self) -> (view: Digest)
        ensures
            view == self.spec_view(),
    {
        self.view
    }

    pub fn root(&self) -> (root: Digest)
        ensures
            root == self.spec_root(),
    {
        self.root
    }

    pub fn witness(&self) -> (witness: &Certificate)
        ensures
            *witness == self.spec_witness(),
    {
        &self.witness
    }

    pub fn inclusion(&self) -> (inclusion: &Proof)
        ensures
            *inclusion == self.spec_inclusion(),
    {
        &self.inclusion
    }

    pub fn prepare(&self) -> (prepare: Prepare)
        ensures
            prepare == self.spec_prepare(),
    {
        self.prepare
    }

    /// Accepts when the extract's view is registered, its witness carries
    /// a plurality of that view with a valid signature, and its inclusion
    /// proof holds.
    pub fn validate(&self, discovery: &ViewStore, evidence: Evidence) -> (outcome: Result<
        (),
        ExtractError,
    >)
        requires
            self.wf(),
            discovery.wf(),
        ensures
            outcome == self.verdict(*discovery, evidence),
    {
        let view = match discovery.get(&self.view) {
            Some(view) => view,
            None => {
                return Err(ExtractError::ViewUnknown);
            },
        };
        if self.witness.verify_plurality(&view, evidence.witness_valid).is_err() {
            return Err(ExtractError::WitnessInvalid);
        }
        if !evidence.inclusion_valid {
            return Err(ExtractError::InclusionProofInvalid);
        }
        Ok(())
    }
}

/// There is an extract for any choice of parts.
pub proof fn lemma_extract_exists(
    view: Digest,
    root: Digest,
    witness: Certificate,
    inclusion: Proof,
    prepare: Prepare,
)
    ensures
        exists|extract: Extract|
            extract.spec_view() == view && extract.spec_root() == root && extract.spec_witness()
                == witness && extract.spec_inclusion() == inclusion && extract.spec_prepare()
                == prepare,
{
    let extract = Extract { view, root, witness, inclusion, prepare };
    assert(extract.spec_view() == view && extract.spec_root() == root && extract.spec_witness()
        == witness && extract.spec_inclusion() == inclusion && extract.spec_prepare() == prepare);
}

} // verus!

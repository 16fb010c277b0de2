use crate::account::Id;
use crate::crypto::Certificate;
use crate::crypto::Digest;
use crate::crypto::Proof;
use crate::data::shared::share;
use crate::view::view::quorum_of;
use crate::view::ViewStore;
use std::sync::Arc;
use vstd::prelude::*;

verus! {

/// What the checks made outside this library found about a proof.
#[derive(Clone, Copy, Debug, PartialEq, Eq, Structural)]
pub struct ProofEvidence {
    /// The certificate's aggregate signature verifies for its signers.
    pub certificate_valid: bool,
    /// The inclusion proof leads to the root.
    pub inclusion_valid: bool,
}

/// Why a commit proof proves nothing.
#[derive(Clone, Copy, Debug, PartialEq, Eq, Structural)]
pub enum CommitProofError {
    ViewUnknown,
    CertificateInvalid,
    /// The account is excepted from the commit.
    Excepted,
    InclusionInvalid,
}

/// The proof that a prepare was committed: the certified commit of the
/// batch under `root`, and the inclusion of the prepare in the batch.
pub struct CommitProof {
    view: Digest,
    root: Digest,
    exceptions: Arc<Vec<Id>>,
    certificate: Certificate,
    inclusion: Proof,
}

impl Clone for CommitProof {
    fn clone(&self) -> (copy: Self)
        ensures
            copy == *self,
    {
        CommitProof {
            view: self.view,
            root: self.root,
            exceptions: share(&self.exceptions),
            certificate: self.certificate.clone(),
            inclusion: self.inclusion.clone(),
        }
    }
}

impl CommitProof {
    pub closed spec fn spec_view(&self) -> Digest {
        self.view
    }

    pub closed spec fn spec_root(&self) -> Digest {
        self.root
    }

    /// The accounts that the commit excepts.
    pub closed spec fn exceptions(&self) -> Seq<Id> {
        self.exceptions@
    }

    pub closed spec fn spec_certificate(&self) -> Certificate {
        self.certificate
    }

    pub closed spec fn spec_inclusion(&self) -> Proof {
        self.inclusion
    }

    pub open spec fn wf(&self) -> bool {
        self.spec_certificate().wf()
    }

    /// What `validate` reports for a prepare of account `id`.
    pub open spec fn verdict(&self, discovery: ViewStore, id: Id, evidence: ProofEvidence) -> Result<
        (),
        CommitProofError,
    > {
        if !discovery@.dom().contains(self.spec_view()) {
            Err(CommitProofError::ViewUnknown)
        } else if self.spec_certificate().verdict(
            discovery@[self.spec_view()],
            quorum_of(discovery@[self.spec_view()].members().len()),
            evidence.certificate_valid,
        ) is Err {
            Err(CommitProofError::CertificateInvalid)
        } else if self.exceptions().contains(id) {
            Err(CommitProofError::Excepted)
        } else if !evidence.inclusion_valid {
            Err(CommitProofError::InclusionInvalid)
        } else {
            Ok(())
        }
    }

    pub fn new(
        view: Digest,
        root: Digest,
        exceptions: Vec<Id>,
        certificate: Certificate,
        inclusion: Proof,
    ) -> (made: CommitProof)
        ensures
            made.spec_view() == view,
            made.spec_root() == root,
            made.exceptions() == exceptions@,
            made.spec_certificate() == certificate,
            made.spec_inclusion() == inclusion,
    {
        CommitProof { view, root, exceptions: Arc::new(exceptions), certificate, inclusion }
    }

    pub fn root(&self) -> (root: Digest)
        ensures
            root == self.spec_root(),
    {
        self.root
    }

    /// Accepts when the view is registered, the certificate carries a
    /// quorum of it with a valid signature, the account is not excepted,
    /// and the inclusion proof holds.
    #[verifier::loop_isolation(false)]
    pub fn validate(&self, discovery: &ViewStore, id: Id, evidence: ProofEvidence) -> (outcome:
        Result<(), CommitProofError>)
        requires
            self.wf(),
            discovery.wf(),
        ensures
            outcome == self.verdict(*discovery, id, evidence),
    {
        let view = match discovery.get(&self.view) {
            Some(view) => view,
            None => {
                return Err(CommitProofError::ViewUnknown);
            },
        };
        if self.certificate.verify_quorum(&view, evidence.certificate_valid).is_err() {
            return Err(CommitProofError::CertificateInvalid);
        }
        let mut index: usize = 0;
        while index < self.exceptions.len()
            invariant
                index <= self.exceptions@.len(),
                forall|i: int| 0 <= i < index ==> self.exceptions@[i] != id,
            decreases self.exceptions@.len() - index,
        {
            if self.exceptions[index] == id {
                return Err(CommitProofError::Excepted);
            }
            index += 1;
        }
        assert(!self.exceptions().contains(id));
        if !evidence.inclusion_valid {
            return Err(CommitProofError::InclusionInvalid);
        }
        Ok(())
    }
}

/// Why a completion proof proves nothing.
#[derive(Clone, Copy, Debug, PartialEq, Eq, Structural)]
pub enum CompletionProofError {
    ViewUnknown,
    CertificateInvalid,
    InclusionInvalid,
}

/// The proof that an operation was completed: the certified completion of
/// the batch under `root`, and the inclusion of the payload in the batch.
pub struct CompletionProof {
    view: Digest,
    root: Digest,
    certificate: Certificate,
    inclusion: Proof,
}

impl Clone for CompletionProof {
    fn clone(&self) -> (copy: Self)
        ensures
            copy == *self,
    {
        CompletionProof {
            view: self.view,
            root: self.root,
            certificate: self.certificate.clone(),
            inclusion: self.inclusion.clone(),
        }
    }
}

impl CompletionProof {
    pub closed spec fn spec_view(&self) -> Digest {
        self.view
    }

    pub closed spec fn spec_root(&self) -> Digest {
        self.root
    }

    pub closed spec fn spec_certificate(&self) -> Certificate {
        self.certificate
    }

    pub closed spec fn spec_inclusion(&self) -> Proof {
        self.inclusion
    }

    pub open spec fn wf(&self) -> bool {
        self.spec_certificate().wf()
    }

    /// What `validate` reports.
    pub open spec fn verdict(&self, discovery: ViewStore, evidence: ProofEvidence) -> Result<
        (),
        CompletionProofError,
    > {
        if !discovery@.dom().contains(self.spec_view()) {
            Err(CompletionProofError::ViewUnknown)
        } else if self.spec_certificate().verdict(
            discovery@[self.spec_view()],
            quorum_of(discovery@[self.spec_view()].members().len()),
            evidence.certificate_valid,
        ) is Err {
            Err(CompletionProofError::CertificateInvalid)
        } else if !evidence.inclusion_valid {
            Err(CompletionProofError::InclusionInvalid)
        } else {
            Ok(())
        }
    }

    pub fn new(view: Digest, root: Digest, certificate: Certificate, inclusion: Proof) -> (made:
        CompletionProof)
        ensures
            made.spec_view() == view,
            made.spec_root() == root,
            made.spec_certificate() == certificate,
            made.spec_inclusion() == inclusion,
    {
        CompletionProof { view, root, certificate, inclusion }
    }

    /// Accepts when the view is registered, the certificate carries a
    /// quorum of it with a valid signature, and the inclusion proof holds.
    pub fn validate(&self, discovery: &ViewStore, evidence: ProofEvidence) -> (outcome: Result<
        (),
        CompletionProofError,
    >)
        requires
            self.wf(),
            discovery.wf(),
        ensures
            outcome == self.verdict(*discovery, evidence),
    {
        let view = match discovery.get(&self.view) {
            Some(view) => view,
            None => {
                return Err(CompletionProofError::ViewUnknown);
            },
        };
        if self.certificate.verify_quorum(&view, evidence.certificate_valid).is_err() {
            return Err(CompletionProofError::CertificateInvalid);
        }
        if !evidence.inclusion_valid {
            return Err(CompletionProofError::InclusionInvalid);
        }
        Ok(())
    }
}

} // verus!

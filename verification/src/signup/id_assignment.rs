use crate::account::Id;
use crate::crypto::Certificate;
use crate::crypto::Digest;
use crate::crypto::KeyCard;
use crate::view::view::quorum_of;
use crate::view::ViewStore;
use vstd::prelude::*;

verus! {

/// Why an assignment binds no id.
#[derive(Clone, Copy, Debug, PartialEq, Eq, Structural)]
pub enum IdAssignmentError {
    ViewUnknown,
    CertificateInvalid,
}

/// The binding of an account id to a client's keys, certified by a quorum
/// of the view in which the client signed up.
pub struct IdAssignment {
    view: Digest,
    id: Id,
    keycard: KeyCard,
    certificate: Certificate,
}

impl Clone for IdAssignment {
    fn clone(&self) -> (copy: Self)
        ensures
            copy == *self,
    {
        IdAssignment {
            view: self.view,
            id: self.id,
            keycard: self.keycard.clone(),
            certificate: self.certificate.clone(),
        }
    }
}

impl IdAssignment {
    pub closed spec fn spec_view(&self) -> Digest {
        self.view
    }

    pub closed spec fn spec_id(&self) -> Id {
        self.id
    }

    pub closed spec fn spec_keycard(&self) -> KeyCard {
        self.keycard
    }

    pub closed spec fn spec_certificate(&self) -> Certificate {
        self.certificate
    }

    pub open spec fn wf(&self) -> bool {
        self.spec_certificate().wf()
    }

    /// What `validate` reports.
    pub open spec fn verdict(&self, discovery: ViewStore, signature_valid: bool) -> Result<
        (),
        IdAssignmentError,
    > {
        if !discovery@.dom().contains(self.spec_view()) {
            Err(IdAssignmentError::ViewUnknown)
        } else if self.spec_certificate().verdict(
            discovery@[self.spec_view()],
            quorum_of(discovery@[self.spec_view()].members().len()),
            signature_valid,
        ) is Err {
            Err(IdAssignmentError::CertificateInvalid)
        } else {
            Ok(())
        }
    }

    pub fn new(view: Digest, id: Id, keycard: KeyCard, certificate: Certificate) -> (assignment:
        IdAssignment)
        ensures
            assignment.spec_view() == view,
            assignment.spec_id() == id,
            assignment.spec_keycard() == keycard,
            assignment.spec_certificate() == certificate,
    {
        IdAssignment { view, id, keycard, certificate }
    }

    pub fn id(&self) -> (id: Id)
        ensures
            id == self.spec_id(),
    {
        self.id
    }

    pub fn view(&self) -> (view: Digest)
        ensures
            view == self.spec_view(),
    {
        self.view
    }

    pub fn keycard(&self) -> (keycard: KeyCard)
        ensures
            keycard == self.spec_keycard(),
    {
        self.keycard.clone()
    }

    pub fn certificate(&self) -> (certificate: &Certificate)
        ensures
            *certificate == self.spec_certificate(),
    {
        &self.certificate
    }

    /// Accepts when the view is registered and the certificate carries a
    /// quorum of it. `signature_valid` reports whether the certificate's
    /// aggregate signature verifies, over the assignment, for its signers.
    pub fn validate(&self, discovery: &ViewStore, signature_valid: bool) -> (outcome: Result<
        (),
        IdAssignmentError,
    >)
        requires
            self.wf(),
            discovery.wf(),
        ensures
            outcome == self.verdict(*discovery, signature_valid),
    {
        let view = match discovery.get(&self.view) {
            Some(view) => view,
            None => {
                return Err(IdAssignmentError::ViewUnknown);
            },
        };
        if self.certificate.verify_quorum(&view, signature_valid).is_err() {
            return Err(IdAssignmentError::CertificateInvalid);
        }
        Ok(())
    }
}

} // verus!

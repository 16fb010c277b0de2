use crate::crypto::Digest;
use crate::crypto::Signature;
use crate::prepare::Prepare;
use crate::signup::IdAssignment;
use crate::view::ViewStore;
use vstd::prelude::*;

verus! {

/// Why a client's request is turned away.
#[derive(Clone, Copy, Debug, PartialEq, Eq, Structural)]
pub enum RequestError {
    AssignmentInvalid,
    SignatureInvalid,
}

/// What the checks made outside this library found about a request.
#[derive(Clone, Copy, Debug, PartialEq, Eq, Structural)]
pub struct RequestEvidence {
    /// The aggregate signature of the assignment's certificate verifies.
    pub assignment_valid: bool,
    /// The client's signature verifies over the prepare.
    pub signature_valid: bool,
}

/// A client's request that its prepare be batched.
pub struct Request {
    assignment: IdAssignment,
    prepare: Prepare,
    signature: Signature,
}

impl Clone for Request {
    fn clone(&self) -> (copy: Self)
        ensures
            copy == *self,
    {
        Request {
            assignment: self.assignment.clone(),
            prepare: self.prepare,
            signature: self.signature.clone(),
        }
    }
}

impl Request {
    pub closed spec fn spec_assignment(&self) -> IdAssignment {
        self.assignment
    }

    pub closed spec fn spec_prepare(&self) -> Prepare {
        self.prepare
    }

    pub closed spec fn spec_signature(&self) -> Signature {
        self.signature
    }

    pub open spec fn wf(&self) -> bool {
        self.spec_assignment().wf()
    }

    /// What `validate` reports.
    pub open spec fn verdict(&self, discovery: ViewStore, evidence: RequestEvidence) -> Result<
        (),
        RequestError,
    > {
        if self.spec_assignment().verdict(discovery, evidence.assignment_valid) is Err {
            Err(RequestError::AssignmentInvalid)
        } else if !evidence.signature_valid {
            Err(RequestError::SignatureInvalid)
        } else {
            Ok(())
        }
    }

    /// The request of the account of `assignment` to commit to
    /// `commitment` at `height`, with the client's signature over the
    /// prepare that says so.
    pub fn new(assignment: IdAssignment, height: u64, commitment: Digest, signature: Signature) -> (request:
        Request)
        ensures
            request.spec_assignment() == assignment,
            request.spec_prepare().spec_id() == assignment.spec_id(),
            request.spec_prepare().spec_height() == height,
            request.spec_prepare().spec_commitment() == commitment,
            request.spec_signature() == signature,
    {
        let prepare = Prepare::new(assignment.id(), height, commitment);
        Request { assignment, prepare, signature }
    }

    pub fn assignment(&self) -> (assignment: &IdAssignment)
        ensures
            *assignment == self.spec_assignment(),
    {
        &self.assignment
    }

    pub fn prepare(&self) -> (prepare: Prepare)
        ensures
            prepare == self.spec_prepare(),
    {
        self.prepare
    }

    pub fn signature(&self) -> (signature: &Signature)
        ensures
            *signature == self.spec_signature(),
    {
        &self.signature
    }

    /// Accepts when the assignment is valid and the client's signature
    /// was found valid.
    pub fn validate(&self, discovery: &ViewStore, evidence: RequestEvidence) -> (outcome: Result<
        (),
        RequestError,
    >)
        requires
            self.wf(),
            discovery.wf(),
        ensures
            outcome == self.verdict(*discovery, evidence),
    {
        if self.assignment.validate(discovery, evidence.assignment_valid).is_err() {
            return Err(RequestError::AssignmentInvalid);
        }
        if !evidence.signature_valid {
            return Err(RequestError::SignatureInvalid);
        }
        Ok(())
    }
}

} // verus!

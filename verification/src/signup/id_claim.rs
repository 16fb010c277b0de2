use crate::account::Id;
use crate::crypto::Digest;
use crate::crypto::Identity;
use crate::crypto::Signature;
use crate::signup::IdRequest;
use crate::signup::RequestEvidence;
use crate::signup::RequestIdError;
use crate::view::ViewStore;
use vstd::prelude::*;

verus! {

/// Why a claim on an id is turned away.
#[derive(Clone, Copy, Debug, PartialEq, Eq, Structural)]
pub enum IdClaimError {
    /// The request that the claim rests on is invalid.
    RequestInvalid(RequestIdError),
    /// The allocator's signature over the allocation does not verify.
    AllocationInvalid,
}

/// What the checks made outside this library found about a claim.
#[derive(Clone, Copy, Debug, PartialEq, Eq, Structural)]
pub struct ClaimEvidence {
    pub request: RequestEvidence,
    /// The allocator's signature verifies over the id and the client.
    pub allocation_valid: bool,
}

/// A client's claim on the id that an allocator gave it.
pub struct IdClaim {
    request: IdRequest,
    id: Id,
    allocation: Signature,
}

impl Clone for IdClaim {
    fn clone(&self) -> (copy: Self)
        ensures
            copy == *self,
    {
        IdClaim { request: self.request.clone(), id: self.id, allocation: self.allocation.clone() }
    }
}

impl IdClaim {
    pub closed spec fn spec_request(&self) -> IdRequest {
        self.request
    }

    pub closed spec fn spec_id(&self) -> Id {
        self.id
    }

    pub closed spec fn spec_allocation(&self) -> Signature {
        self.allocation
    }

    pub open spec fn spec_view(&self) -> Digest {
        self.spec_request().spec_view()
    }

    pub open spec fn spec_client(&self) -> Identity {
        self.spec_request().spec_client().spec_identity()
    }

    /// What `validate` reports.
    pub open spec fn verdict(&self, discovery: ViewStore, evidence: ClaimEvidence) -> Result<
        (),
        IdClaimError,
    > {
        match self.spec_request().verdict(discovery, evidence.request) {
            Err(error) => Err(IdClaimError::RequestInvalid(error)),
            Ok(()) => if evidence.allocation_valid {
                Ok(())
            } else {
                Err(IdClaimError::AllocationInvalid)
            },
        }
    }

    pub fn new(request: IdRequest, id: Id, allocation: Signature) -> (claim: IdClaim)
        ensures
            claim.spec_request() == request,
            claim.spec_id() == id,
            claim.spec_allocation() == allocation,
    {
        IdClaim { request, id, allocation }
    }

    pub fn id(&self) -> (id: Id)
        ensures
            id == self.spec_id(),
    {
        self.id
    }

    pub fn view(&self) -> (view: Digest)
        ensures
            view == self.spec_view(),
    {
        self.request.view()
    }

    pub fn client(&self) -> (client: Identity)
        ensures
            client == self.spec_client(),
    {
        self.request.client()
    }

    pub fn request(&self) -> (request: &IdRequest)
        ensures
            *request == self.spec_request(),
    {
        &self.request
    }

    pub fn allocation(&self) -> (allocation: &Signature)
        ensures
            *allocation == self.spec_allocation(),
    {
        &self.allocation
    }

    /// Accepts when the request is valid and the allocation was found to
    /// be signed by the allocator.
    pub fn validate(&self, discovery: &ViewStore, evidence: ClaimEvidence) -> (outcome: Result<
        (),
        IdClaimError,
    >)
        requires
            discovery.wf(),
        ensures
            outcome == self.verdict(*discovery, evidence),
    {
        match self.request.validate(discovery, evidence.request) {
            Err(error) => Err(IdClaimError::RequestInvalid(error)),
            Ok(()) => {
                if evidence.allocation_valid {
                    Ok(())
                } else {
                    Err(IdClaimError::AllocationInvalid)
                }
            },
        }
    }
}

} // verus!

use crate::crypto::Digest;
use crate::crypto::Identity;
use crate::crypto::KeyCard;
use crate::crypto::Proof;
use crate::view::ViewStore;
use vstd::prelude::*;

verus! {

/// Why a request for an id is turned away.
#[derive(Clone, Copy, Debug, PartialEq, Eq, Structural)]
pub enum RequestIdError {
    UnknownView,
    ForeignAllocator,
    WorkInvalid,
    RogueInvalid,
}

/// What the checks made outside this library found about a request.
#[derive(Clone, Copy, Debug, PartialEq, Eq, Structural)]
pub struct RequestEvidence {
    /// The proof of work verifies, at the required difficulty, over the
    /// request.
    pub work_valid: bool,
    /// The proof of possession verifies for the client's keys.
    pub rogue_valid: bool,
}

/// A client's request that `allocator`, a member of `view`, allocate an id
/// to it.
pub struct IdRequest {
    view: Digest,
    allocator: Identity,
    client: KeyCard,
    work: Proof,
    rogue: Proof,
}

impl Clone for IdRequest {
    fn clone(&self) -> (copy: Self)
        ensures
            copy == *self,
    {
        IdRequest {
            view: self.view,
            allocator: self.allocator,
            client: self.client.clone(),
            work: self.work.clone(),
            rogue: self.rogue.clone(),
        }
    }
}

impl IdRequest {
    pub closed spec fn spec_view(&self) -> Digest {
        self.view
    }

    pub closed spec fn spec_allocator(&self) -> Identity {
        self.allocator
    }

    pub closed spec fn spec_client(&self) -> KeyCard {
        self.client
    }

    pub closed spec fn spec_work(&self) -> Proof {
        self.work
    }

    pub closed spec fn spec_rogue(&self) -> Proof {
        self.rogue
    }

    /// What `validate` reports.
    pub open spec fn verdict(&self, discovery: ViewStore, evidence: RequestEvidence) -> Result<
        (),
        RequestIdError,
    > {
        if !discovery@.dom().contains(self.spec_view()) {
            Err(RequestIdError::UnknownView)
        } else if !discovery@[self.spec_view()].members().contains(self.spec_allocator()) {
            Err(RequestIdError::ForeignAllocator)
        } else if !evidence.work_valid {
            Err(RequestIdError::WorkInvalid)
        } else if !evidence.rogue_valid {
            Err(RequestIdError::RogueInvalid)
        } else {
            Ok(())
        }
    }

    /// A request by `client` to `allocator` in the view that `view`
    /// names, with the proof of work over the request and the proof that
    /// the client possesses its keys.
    pub fn new(view: Digest, allocator: Identity, client: KeyCard, work: Proof, rogue: Proof) -> (request:
        IdRequest)
        ensures
            request.spec_view() == view,
            request.spec_allocator() == allocator,
            request.spec_client() == client,
            request.spec_work() == work,
            request.spec_rogue() == rogue,
    {
        IdRequest { view, allocator, client, work, rogue }
    }

    pub fn view(&self) -> (view: Digest)
        ensures
            view == self.spec_view(),
    {
        self.view
    }

    pub fn allocator(&self) -> (allocator: Identity)
        ensures
            allocator == self.spec_allocator(),
    {
        self.allocator
    }

    pub fn client(&self) -> (client: Identity)
        ensures
            client == self.spec_client().spec_identity(),
    {
        self.client.identity()
    }

    pub fn client_keycard(&self) -> (client: &KeyCard)
        ensures
            *client == self.spec_client(),
    {
        &self.client
    }

    /// Accepts when the view is registered, the allocator is one of its
    /// members, and both proofs were found valid.
    pub fn validate(&self, discovery: &ViewStore, evidence: RequestEvidence) -> (outcome: Result<
        (),
        RequestIdError,
    >)
        requires
            discovery.wf(),
        ensures
            outcome == self.verdict(*discovery, evidence),
    {
        let view = match discovery.get(&self.view) {
            Some(view) => view,
            None => {
                return Err(RequestIdError::UnknownView);
            },
        };
        if !view.contains(&self.allocator) {
            return Err(RequestIdError::ForeignAllocator);
        }
        if !evidence.work_valid {
            return Err(RequestIdError::WorkInvalid);
        }
        if !evidence.rogue_valid {
            return Err(RequestIdError::RogueInvalid);
        }
        Ok(())
    }
}

} // verus!

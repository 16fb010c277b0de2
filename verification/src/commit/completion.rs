use crate::account::Entry;
use crate::account::Operation;
use crate::commit::CommitProof;
use crate::commit::CommitProofError;
use crate::commit::CompletionProof;
use crate::commit::CompletionProofError;
use crate::commit::Payload;
use crate::commit::ProofEvidence;
use crate::view::ViewStore;
use vstd::prelude::*;

verus! {

/// An operation with the proof that its prepare was committed.
pub struct Commit {
    proof: CommitProof,
    payload: Payload,
}

impl Clone for Commit {
    fn clone(&self) -> (copy: Self)
        ensures
            copy == *self,
    {
        Commit { proof: self.proof.clone(), payload: self.payload }
    }
}

impl Commit {
    pub closed spec fn spec_proof(&self) -> CommitProof {
        self.proof
    }

    pub closed spec fn spec_payload(&self) -> Payload {
        self.payload
    }

    pub open spec fn wf(&self) -> bool {
        self.spec_proof().wf()
    }

    pub fn new(commit_proof: CommitProof, payload: Payload) -> (commit: Commit)
        ensures
            commit.spec_proof() == commit_proof,
            commit.spec_payload() == payload,
    {
        Commit { proof: commit_proof, payload }
    }

    pub fn payload(&self) -> (payload: Payload)
        ensures
            payload == self.spec_payload(),
    {
        self.payload
    }

    pub fn commit_proof(&self) -> (commit_proof: &CommitProof)
        ensures
            *commit_proof == self.spec_proof(),
    {
        &self.proof
    }

    /// Accepts when the proof is valid for the account of the payload.
    pub fn validate(&self, discovery: &ViewStore, evidence: ProofEvidence) -> (outcome: Result<
        (),
        CommitProofError,
    >)
        requires
            self.wf(),
            discovery.wf(),
        ensures
            outcome == self.spec_proof().verdict(
                *discovery,
                self.spec_payload().entry.id,
                evidence,
            ),
    {
        self.proof.validate(discovery, self.payload.entry.id, evidence)
    }
}

/// An operation with the proof that it was completed.
pub struct Completion {
    proof: CompletionProof,
    payload: Payload,
}

impl Completion {
    pub closed spec fn spec_proof(&self) -> CompletionProof {
        self.proof
    }

    pub closed spec fn spec_payload(&self) -> Payload {
        self.payload
    }

    pub open spec fn wf(&self) -> bool {
        self.spec_proof().wf()
    }

    pub fn new(completion_proof: CompletionProof, payload: Payload) -> (completion: Completion)
        ensures
            completion.spec_proof() == completion_proof,
            completion.spec_payload() == payload,
    {
        Completion { proof: completion_proof, payload }
    }

    pub fn payload(&self) -> (payload: &Payload)
        ensures
            *payload == self.spec_payload(),
    {
        &self.payload
    }

    pub fn entry(&self) -> (entry: Entry)
        ensures
            entry == self.spec_payload().entry,
    {
        self.payload.entry()
    }

    pub fn operation(&self) -> (operation: &Operation)
        ensures
            *operation == self.spec_payload().operation,
    {
        self.payload.operation()
    }

    /// Accepts when the proof is valid.
    pub fn validate(&self, discovery: &ViewStore, evidence: ProofEvidence) -> (outcome: Result<
        (),
        CompletionProofError,
    >)
        requires
            self.wf(),
            discovery.wf(),
        ensures
            outcome == self.spec_proof().verdict(*discovery, evidence),
    {
        self.proof.validate(discovery, evidence)
    }
}

} // verus!

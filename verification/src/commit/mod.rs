//! Commits and completions: the proofs that an operation was committed and
//! completed, and the payloads that they are about.

pub mod completion;
pub mod payload;
pub mod proofs;

pub use completion::Commit;
pub use completion::Completion;
pub use payload::Payload;
pub use proofs::CommitProof;
pub use proofs::CommitProofError;
pub use proofs::CompletionProof;
pub use proofs::CompletionProofError;
pub use proofs::ProofEvidence;

//! The sessions that a replica serves: what it answers to each message of
//! a broker, and what that does to its database.

pub mod commit;
pub mod prepare;
pub mod processor;
pub mod signup;

pub use prepare::Action;
pub use prepare::BatchChecks;
pub use prepare::CheckedAssignment;
pub use prepare::Event;
pub use prepare::Failure;
pub use prepare::ServePrepareError;
pub use prepare::Session;
pub use prepare::SignatureCheck;
pub use prepare::Stage;
pub use commit::CheckedCommit;
pub use commit::CheckedPayload;
pub use commit::CheckedProof;
pub use commit::CommitAction;
pub use commit::CommitEvent;
pub use commit::CommitSession;
pub use commit::CommitStage;
pub use commit::ServeCommitError;
pub use signup::id_claims;
pub use signup::id_requests_fit;
pub use signup::CheckedClaim;
pub use signup::ClaimOutcome;
pub use signup::ServeSignupError;
pub use processor::Processor;

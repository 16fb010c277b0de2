//! Prepares, the batches that carry them, and the proofs that a prepare
//! was witnessed.

pub mod batch;
pub mod equivocation;
pub mod extract;
pub mod prepare;
pub mod statement;

pub use batch::BatchCommit;
pub use batch::PrepareVector;
pub use batch::SignedBatch;
pub use batch::WitnessedBatch;
pub use equivocation::Equivocation;
pub use equivocation::EquivocationError;
pub use extract::Evidence;
pub use extract::Extract;
pub use extract::ExtractError;
pub use prepare::Prepare;
pub use statement::ReductionStatement;
pub use statement::WitnessStatement;

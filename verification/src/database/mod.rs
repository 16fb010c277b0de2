//! The state that a replica keeps: what it knows of each account.

pub mod commit;
pub mod database;
pub mod ledger;
pub mod prepare;

pub use commit::CommitDatabase;
pub use database::Database;
pub use database::Signup;
pub use ledger::Ledger;
pub use ledger::PrepareHandle;
pub use ledger::State;
pub use prepare::ApplyError;
pub use prepare::PrepareDatabase;

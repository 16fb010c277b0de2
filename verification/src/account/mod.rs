//! Accounts and the operations that clients issue on them.

pub mod entry;
pub mod operation;

pub use entry::Entry;
pub use entry::Id;
pub use operation::Deposit;
pub use operation::Operation;

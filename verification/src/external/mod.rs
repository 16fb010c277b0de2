//! What the processes around the replica core share with it.

pub mod client;
pub mod parameters;
pub mod replica;

pub use client::Address;
pub use client::Client;
pub use client::ClientError;
pub use client::ShardFailure;
pub use client::ShardRetry;
pub use parameters::ClientParameters;
pub use replica::Verbosity;

//! What brokers and clients exchange on the way to a batch.

pub mod prepare;

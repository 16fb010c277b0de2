//! Replica-side core of a Byzantine-fault-tolerant payment system.

pub mod account;
pub mod brokers;
pub mod churn;
pub mod commit;
pub mod crypto;
pub mod data;
pub mod database;
pub mod discovery;
pub mod external;
pub mod lattice;
pub mod prepare;
pub mod processing;
pub mod signup;
pub mod view;
pub mod view_generator;

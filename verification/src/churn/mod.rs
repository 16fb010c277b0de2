//! Churn: the certified resolutions that let a replica join or leave.

pub mod resolution;

pub use resolution::Resolution;
pub use resolution::ResolutionClaim;
pub use resolution::ResolutionError;

//! Sign-up: how an identity comes by an account id.

pub mod id_assignment;
pub mod id_claim;
pub mod id_request;

pub use id_assignment::IdAssignment;
pub use id_assignment::IdAssignmentError;
pub use id_claim::ClaimEvidence;
pub use id_claim::IdClaim;
pub use id_claim::IdClaimError;
pub use id_request::IdRequest;
pub use id_request::RequestEvidence;
pub use id_request::RequestIdError;

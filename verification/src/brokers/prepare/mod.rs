//! The prepare broker's side of a batch: the requests of the clients, and
//! the inclusions that it hands back to them.

pub mod inclusion;
pub mod request;

pub use inclusion::Inclusion;
pub use inclusion::InclusionError;
pub use request::Request;
pub use request::RequestError;
pub use request::RequestEvidence;

//! Plain-value stand-ins for the cryptographic material that the replica
//! core carries around: digests, identities and signed statements' domains.

pub mod certificate;
pub mod digest;
pub mod header;
pub mod material;

pub use certificate::Certificate;
pub use certificate::CertificateError;
pub use certificate::Threshold;
pub use digest::Digest;
pub use digest::Identity;
pub use header::Header;
pub use material::KeyCard;
pub use material::MultiSignature;
pub use material::Proof;
pub use material::Signature;

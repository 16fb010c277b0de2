//! Generalized lattice agreement: every replica proposes an element, and
//! all decide on comparable sets of the elements proposed.

pub mod acceptor;
pub mod agreement;
pub mod message;
pub mod model;
pub mod runner;

pub use message::CertificationConfirmation;
pub use message::CertificationRequest;
pub use message::CertificationUpdate;
pub use message::DisclosureEcho;
pub use message::DisclosureReady;
pub use message::DisclosureSend;
pub use message::Effect;
pub use message::EffectModel;
pub use message::Element;
pub use message::Evidence;
pub use message::HandleError;
pub use message::Message;
pub use message::MessageError;
pub use model::Context;
pub use model::Phase;
pub use model::ProposalModel;
pub use model::Snapshot;
pub use model::Step;
pub use runner::LatticeRunner;
pub use agreement::LatticeAgreement;
pub use agreement::LatticeAgreementError;

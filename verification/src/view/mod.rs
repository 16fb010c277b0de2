//! The view substrate: committee snapshots, the changes that lead from one
//! to the next, and the registry that resolves view identifiers.

pub mod change;
pub mod install;
pub mod store;
pub mod transition;
pub mod view;

pub use change::Change;
pub use change::Increment;
pub use install::Install;
pub use install::InstallError;
pub use install::Payload;
pub use store::ViewStore;
pub use transition::Transition;
pub use view::Committee;
pub use view::ViewError;

//! What the replicas agree on to change the view.

pub mod view_decision;

pub use view_decision::InstallPrecursor;
pub use view_decision::ViewDecision;

//! Discovery: the install highway that lets an observer at any past view
//! catch up with the current one.

pub mod frame;
pub mod highway;
pub mod observer;

pub use frame::Frame;
pub use highway::Metadata;
pub use observer::Observer;

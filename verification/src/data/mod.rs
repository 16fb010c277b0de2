//! Small verified containers shared by the subsystems.

pub mod digest_set;
pub mod shared;
pub mod shift_vec;
pub mod table;

pub use digest_set::DigestSet;
pub use shift_vec::ShiftVec;
pub use table::Key;
pub use table::KeySet;
pub use table::Pair;
pub use table::Table;

//! Blueprint solving with the state packed behind a single memo key.
//!
//! The blueprint type and parser are the 32-bit ones.

pub mod v1;

pub use crate::baseline::parse;
pub use crate::baseline::part_1;
pub use crate::baseline::Blueprint;

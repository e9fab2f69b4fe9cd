//! Btrees: their keys and positions, and iteration over them.
pub mod bbpos;
pub mod bkey;
pub mod iter;
pub mod types;

//! Superblocks.
pub mod io;
pub mod members;

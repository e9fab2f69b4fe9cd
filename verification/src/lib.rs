//! The logic of the bcachefs filesystem's Rust interface: positions and keys of btrees,
//! transactions and iteration, superblocks, disk accounting, and the generation of bindings from C
//! headers.
//!
//! What the filesystem itself does is not here. Where an operation of it is needed, a function
//! takes what that operation has returned, or a function to call.
pub mod accounting;
pub mod btree;
pub mod buckets;
pub mod codegen;
pub mod dirent;
pub mod errcode;
pub mod fs;
pub mod inode;
pub mod sb;
pub mod text;
pub mod util;

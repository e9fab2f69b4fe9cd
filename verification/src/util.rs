//! Helpers of the library.
pub mod async_exec;
pub mod bitmask;
pub mod bytes;
pub mod darray;
pub mod decimal;
pub mod printbuf;
pub mod vstructs;

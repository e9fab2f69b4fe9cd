//! Generation of the bindings: options, the `bindgen` command line, fixes to
//! its output, and the tables derived from the x-macros of the C headers.
pub mod bindgen;
pub mod generate;
pub mod names;
pub mod options;
pub mod post_process;
pub mod tables;
pub mod xmacro;

//! Fat-LTO merge and object-emission core of a GCC-based code generator.
//!
//! The library decides everything this stage does — which symbols stay
//! externally visible after the merge, which unit becomes the base of the
//! merge, in what order the serialized units are folded in, and which
//! toolchain invocations emit the requested artifacts — as verified functions
//! over plain values. The native code generator and the file system only
//! carry out the recorded decisions.

pub mod archive;
pub mod bytes;
pub mod config;
pub mod errors;
pub mod lto;
pub mod plan;
pub mod symbols;
pub mod units;
pub mod write;

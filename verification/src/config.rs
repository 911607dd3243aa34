//! The session-wide configuration this stage reads: what kind of LTO was
//! requested, which crate types are being produced, and the switches that
//! gate the optional behaviours. All of it is fixed before the merge starts.

use vstd::prelude::*;

verus! {

/// The kinds of output a compilation session can request; LTO is only legal
/// for some of them.
#[derive(Clone, Copy, PartialEq, Eq, Structural, Debug)]
pub enum CrateType {
    Executable,
    Dylib,
    Staticlib,
    Cdylib,
    Rlib,
    ProcMacro,
}

/// Which form of link-time optimization the session asked for.
#[derive(Clone, Copy, PartialEq, Eq, Structural, Debug)]
pub enum Lto {
    /// No LTO at all.
    No,
    /// Thin LTO over the current crate only.
    ThinLocal,
    /// Thin LTO over the whole crate graph.
    Thin,
    /// Fat LTO over the whole crate graph: merge everything into one unit.
    Fat,
}

/// How debug information is split from the emitted object, decided by the
/// target; only `Unpacked` yields a separate dwarf object.
#[derive(Clone, Copy, PartialEq, Eq, Structural, Debug)]
pub enum SplitDebuginfo {
    Off,
    Packed,
    Unpacked,
}

/// The slice of the session state that the merge and emission stages read.
pub struct CodegenContext {
    /// The requested link-time-optimization mode.
    pub lto: Lto,
    /// Every crate type the session is producing.
    pub crate_types: Vec<CrateType>,
    /// Explicit opt-in for LTO on dynamic-library outputs.
    pub dylib_lto: bool,
    /// The session prefers dynamic linking of dependencies.
    pub prefer_dynamic: bool,
    /// Keep intermediate artifacts for inspection.
    pub save_temps: bool,
    /// The target supports split dwarf objects.
    pub target_can_use_split_dwarf: bool,
    /// The requested debug-information split mode.
    pub split_debuginfo: SplitDebuginfo,
}

} // verus!

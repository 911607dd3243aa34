//! The session-fatal errors this stage can raise. Every failure here aborts
//! the enclosing compilation session; there is no recoverable-error path.

use vstd::prelude::*;

use crate::config::CrateType;

verus! {

/// A deliberately unimplemented operation: requesting it is fatal, so that a
/// wanted artifact is never silently skipped.
#[derive(Clone, Copy, PartialEq, Eq, Structural, Debug)]
pub enum UnsupportedOp {
    /// Relocatable-linking already-emitted object files while compiling to
    /// bitcode.
    CombineWithBitcode,
    /// Emitting the textual intermediate representation.
    EmitIr,
    /// Linking in-memory modules without a prior merge.
    LinkModules,
    /// Saving intermediate bitcode snapshots of a module.
    SaveTempBitcode,
    /// Reading the raw bytes back out of a module buffer.
    ModuleBufferData,
}

/// A session-fatal error of the merge or emission stage.
#[derive(Clone, PartialEq, Eq, Debug)]
pub enum LtoError {
    /// A requested crate type cannot take part in whole-program merging.
    LtoDisallowed { crate_type: CrateType },
    /// A dynamic-library output takes part in LTO without the explicit opt-in.
    LtoDylib,
    /// Dynamic linking was preferred while LTO is requested, without the
    /// explicit opt-in.
    DynamicLinkingWithLto,
    /// An upstream library archive could not be parsed.
    ArchiveParse,
    /// A matching embedded unit could not be extracted from an upstream
    /// library archive. The member is named so the diagnostic can point at it.
    BitcodeFromArchive { member: Vec<u8> },
    /// A serialized unit of a provenance the merge does not yet support was
    /// asked to be folded in.
    UnsupportedProvenance,
    /// A deliberately unimplemented operation was requested.
    Unsupported { op: UnsupportedOp },
}

} // verus!

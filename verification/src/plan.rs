//! The instructions this stage hands to its executors. The library decides;
//! an unverified driver around it performs each step in order against the
//! real native code generator and file system. Keeping the decisions as data
//! lets every choice — flags, paths, ordering — be stated and proved.

use vstd::prelude::*;

verus! {

/// The closed set of toolchain flags this stage ever passes.
#[derive(Clone, Copy, PartialEq, Eq, Structural, Debug)]
pub enum ToolFlag {
    /// Enable whole-program optimization mode.
    Lto,
    /// Keep the whole program in one optimization partition.
    LtoPartitionOne,
    /// Emit fat objects that retain the intermediate representation.
    FatLtoObjects,
    /// Ask the linker for a relocatable object instead of an executable.
    RelocatableLink,
    /// Do not link the standard library.
    NoStdLib,
    /// Resolve intermediate representation through the linker plugin.
    UseLinkerPlugin,
}

/// What kind of file a compilation targets.
#[derive(Clone, Copy, PartialEq, Eq, Structural, Debug)]
pub enum OutputKind {
    /// A native object file.
    ObjectFile,
    /// Textual assembly.
    Assembler,
    /// An executable-shaped link of already-compiled objects; together with
    /// `RelocatableLink` it combines them into one relocatable object.
    Executable,
}

/// One instruction to the executor. Steps are performed strictly in order.
pub enum Step {
    /// Pass a flag to the unit's own compilation.
    AddCommandLineOption(ToolFlag),
    /// Pass a flag to the driver that runs the final link/compile.
    AddDriverOption(ToolFlag),
    /// Hand the driver an on-disk serialized unit to absorb into the current
    /// context: one fold of the merge.
    AddDriverInput(Vec<u8>),
    /// Make every symbol that is not in the given export set internal to the
    /// current context.
    RestrictVisibility(Vec<Vec<u8>>),
    /// Compile the current context to the given file.
    CompileToFile(OutputKind, Vec<u8>),
    /// Serialize the named in-memory unit to an object file at the given
    /// path. The unit's own context compiles it, within the same session as
    /// the base unit, so the result can be folded back in.
    CompileUnitToObject(Vec<u8>, Vec<u8>),
    /// Write the given bytes to a fresh file at the given path.
    WriteFile(Vec<u8>, Vec<u8>),
    /// Print the unit's name (diagnostic side channel).
    PrintModuleName(Vec<u8>),
    /// Dump a human-readable reproduction file at the given path (diagnostic
    /// side channel).
    DumpReproducer(Vec<u8>),
    /// Dump a debug-annotated intermediate-representation file at the given
    /// path (diagnostic side channel).
    DumpToFile(Vec<u8>),
    /// Hard-link or copy the first path to the second.
    LinkOrCopy(Vec<u8>, Vec<u8>),
    /// Delete the file at the given path if it exists.
    EnsureRemoved(Vec<u8>),
    /// Give up the merge workspace's storage; every file it created goes
    /// away. Must come after every step that reads such a file.
    ReleaseWorkspace,
}


/// A step by content: the same instruction with every owned buffer abstracted
/// to its byte sequence. Contracts compare plans at this level.
pub enum PlanStep {
    AddCommandLineOption(ToolFlag),
    AddDriverOption(ToolFlag),
    AddDriverInput(Seq<u8>),
    RestrictVisibility(Seq<Seq<u8>>),
    CompileToFile(OutputKind, Seq<u8>),
    CompileUnitToObject(Seq<u8>, Seq<u8>),
    WriteFile(Seq<u8>, Seq<u8>),
    PrintModuleName(Seq<u8>),
    DumpReproducer(Seq<u8>),
    DumpToFile(Seq<u8>),
    LinkOrCopy(Seq<u8>, Seq<u8>),
    EnsureRemoved(Seq<u8>),
    ReleaseWorkspace,
}

/// The content of one step.
pub open spec fn step_view(s: Step) -> PlanStep {
    match s {
        Step::AddCommandLineOption(f) => PlanStep::AddCommandLineOption(f),
        Step::AddDriverOption(f) => PlanStep::AddDriverOption(f),
        Step::AddDriverInput(p) => PlanStep::AddDriverInput(p@),
        Step::RestrictVisibility(e) => PlanStep::RestrictVisibility(
            e@.map_values(|v: Vec<u8>| v@),
        ),
        Step::CompileToFile(k, p) => PlanStep::CompileToFile(k, p@),
        Step::CompileUnitToObject(n, p) => PlanStep::CompileUnitToObject(n@, p@),
        Step::WriteFile(p, b) => PlanStep::WriteFile(p@, b@),
        Step::PrintModuleName(n) => PlanStep::PrintModuleName(n@),
        Step::DumpReproducer(p) => PlanStep::DumpReproducer(p@),
        Step::DumpToFile(p) => PlanStep::DumpToFile(p@),
        Step::LinkOrCopy(a, b) => PlanStep::LinkOrCopy(a@, b@),
        Step::EnsureRemoved(p) => PlanStep::EnsureRemoved(p@),
        Step::ReleaseWorkspace => PlanStep::ReleaseWorkspace,
    }
}

/// The content of a whole plan.
pub open spec fn plan_view(s: Seq<Step>) -> Seq<PlanStep> {
    s.map_values(|x: Step| step_view(x))
}

} // verus!


//! The object-emission pipeline: given one unit — merged or standalone — and
//! the requested set of output kinds, decides the exact sequence of toolchain
//! invocations, with their mutually exclusive flags, that materializes the
//! unit on disk.

use vstd::prelude::*;

use crate::bytes::{clone_bytes, concat_bytes};
use crate::config::{CodegenContext, SplitDebuginfo};
use crate::plan::{plan_view, OutputKind, PlanStep, Step, ToolFlag};
use crate::errors::{LtoError, UnsupportedOp};
use crate::units::ModuleCodegen;

verus! {

/// Whether the emitted object should carry the intermediate representation.
#[derive(Clone, Copy, PartialEq, Eq, Structural, Debug)]
pub enum BitcodeSection {
    /// A plain native object.
    Off,
    /// A fat object retaining the whole intermediate representation.
    Full,
}

/// What the caller's emission policy wants the object output to be.
#[derive(Clone, Copy, PartialEq, Eq, Structural, Debug)]
pub enum EmitObj {
    /// No object output at all.
    NoObject,
    /// The object *is* the bitcode: the bitcode file is copied to the object
    /// path.
    Bitcode,
    /// A native object, optionally with an embedded bitcode section.
    ObjectCode(BitcodeSection),
}

/// Which artifacts one unit's emission should produce.
pub struct ModuleConfig {
    /// Keep a standalone bitcode file.
    pub emit_bc: bool,
    /// Emit the textual intermediate representation (unsupported).
    pub emit_ir: bool,
    /// Emit textual assembly.
    pub emit_asm: bool,
    /// The object-output policy.
    pub emit_obj: EmitObj,
}

impl ModuleConfig {
    /// Whether any stage needs the unit compiled in whole-program-bitcode
    /// mode.
    pub open spec fn spec_bitcode_needed(&self) -> bool {
        self.emit_bc || self.emit_obj == EmitObj::Bitcode || self.emit_obj == EmitObj::ObjectCode(
            BitcodeSection::Full,
        )
    }

    pub fn bitcode_needed(&self) -> (r: bool)
        ensures
            r == self.spec_bitcode_needed(),
    {
        self.emit_bc || matches!(self.emit_obj, EmitObj::Bitcode) || matches!(
            self.emit_obj,
            EmitObj::ObjectCode(BitcodeSection::Full),
        )
    }
}

/// The developer-facing diagnostic toggles, injected once so the emission
/// plan never reads ambient state.
pub struct DumpConfig {
    /// Print every unit's name as it is emitted.
    pub print_module_names: bool,
    /// Dump a human-readable reproduction file for this unit.
    pub dump_reproducer: bool,
    /// Dump a debug-annotated intermediate-representation file for this unit.
    pub dump_to_file: bool,
}

/// Where the caller wants each artifact of one unit.
pub struct OutputPaths {
    /// The bitcode file's path.
    pub bc_out: Vec<u8>,
    /// The object file's path.
    pub obj_out: Vec<u8>,
    /// The assembly file's path.
    pub asm_out: Vec<u8>,
}

/// The record of what one unit's emission produced, handed to the downstream
/// linker stage.
pub struct CompiledModule {
    pub name: Vec<u8>,
    /// The native object, if one was produced.
    pub object: Option<Vec<u8>>,
    /// Whether a split dwarf object accompanies the object.
    pub dwarf_object: bool,
    /// The standalone bitcode file, if one was kept.
    pub bytecode: Option<Vec<u8>>,
    /// The assembly file, if one was produced.
    pub assembly: Option<Vec<u8>>,
}

/// Snapshotting intermediate bitcode is an unsupported path of this code
/// generator: asking for it is fatal rather than a silent no-op.
pub fn save_temp_bitcode(cgcx: &CodegenContext, _module: &ModuleCodegen, _name: &Vec<u8>) -> (r:
    Result<(), LtoError>)
    ensures
        r matches Ok(_) <==> !cgcx.save_temps,
        r matches Err(e) ==> e == (LtoError::Unsupported { op: UnsupportedOp::SaveTempBitcode }),
{
    if !cgcx.save_temps {
        return Ok(());
    }
    Err(LtoError::Unsupported { op: UnsupportedOp::SaveTempBitcode })
}

/// Linking in-memory modules without a prior fat merge is an unsupported path
/// of this code generator.
pub fn link(_cgcx: &CodegenContext, _modules: Vec<ModuleCodegen>) -> (r: Result<
    ModuleCodegen,
    LtoError,
>)
    ensures
        r matches Err(e) && e == (LtoError::Unsupported { op: UnsupportedOp::LinkModules }),
{
    Err(LtoError::Unsupported { op: UnsupportedOp::LinkModules })
}


/// The whole-program-optimization flags, passed both to the unit's own
/// compilation and to the driver.
pub open spec fn spec_lto_flag_steps() -> Seq<PlanStep> {
    seq![
        PlanStep::AddCommandLineOption(ToolFlag::Lto),
        PlanStep::AddDriverOption(ToolFlag::Lto),
        PlanStep::AddCommandLineOption(ToolFlag::LtoPartitionOne),
        PlanStep::AddDriverOption(ToolFlag::LtoPartitionOne),
    ]
}

/// The fixed diagnostics directory for reproduction dumps.
pub open spec fn spec_reproducer_dir() -> Seq<u8> {
    seq![
        47u8, 116u8, 109u8, 112u8, 47u8, 114u8, 101u8, 112u8, 114u8, 111u8, 100u8, 117u8, 99u8,
        101u8, 114u8, 115u8, 47u8,
    ]
}

/// The fixed diagnostics directory for intermediate-representation dumps.
pub open spec fn spec_dump_dir() -> Seq<u8> {
    seq![
        47u8, 116u8, 109u8, 112u8, 47u8, 103u8, 99u8, 99u8, 106u8, 105u8, 116u8, 95u8, 100u8,
        117u8, 109u8, 112u8, 115u8, 47u8,
    ]
}

/// The extension of the dumped sources.
pub open spec fn spec_c_suffix() -> Seq<u8> {
    seq![46u8, 99u8]
}

/// The diagnostic steps around one unit's object emission, as configured.
pub open spec fn spec_dump_steps(dumps: DumpConfig, name: Seq<u8>) -> Seq<PlanStep> {
    let print_part = if dumps.print_module_names {
        seq![PlanStep::PrintModuleName(name)]
    } else {
        Seq::empty()
    };
    let repro_part = if dumps.dump_reproducer {
        seq![PlanStep::DumpReproducer(spec_reproducer_dir() + name + spec_c_suffix())]
    } else {
        Seq::empty()
    };
    let dump_part = if dumps.dump_to_file {
        seq![PlanStep::DumpToFile(spec_dump_dir() + name + spec_c_suffix())]
    } else {
        Seq::empty()
    };
    print_part + repro_part + dump_part
}

/// The exact sequence of toolchain instructions one unit's emission runs:
/// the bitcode stage, then the embedded-bitcode stage, then assembly, then
/// the object stage, each only if requested.
/// The bitcode stage's steps.
pub open spec fn spec_bc_part(config: ModuleConfig, bc_out: Seq<u8>) -> Seq<PlanStep> {
    if config.spec_bitcode_needed() && (config.emit_bc || config.emit_obj == EmitObj::Bitcode) {
        spec_lto_flag_steps() + seq![PlanStep::CompileToFile(OutputKind::ObjectFile, bc_out)]
    } else {
        Seq::empty()
    }
}

/// The embedded-bitcode-in-object stage's steps.
pub open spec fn spec_embed_part(config: ModuleConfig, bc_out: Seq<u8>) -> Seq<PlanStep> {
    if config.spec_bitcode_needed() && config.emit_obj == EmitObj::ObjectCode(
        BitcodeSection::Full,
    ) {
        spec_lto_flag_steps() + seq![
            PlanStep::AddCommandLineOption(ToolFlag::FatLtoObjects),
            PlanStep::AddDriverOption(ToolFlag::FatLtoObjects),
            PlanStep::CompileToFile(OutputKind::ObjectFile, bc_out),
        ]
    } else {
        Seq::empty()
    }
}

/// The assembly stage's steps.
pub open spec fn spec_asm_part(config: ModuleConfig, asm_out: Seq<u8>) -> Seq<PlanStep> {
    if config.emit_asm {
        seq![PlanStep::CompileToFile(OutputKind::Assembler, asm_out)]
    } else {
        Seq::empty()
    }
}

/// The object stage's steps.
pub open spec fn spec_obj_part(
    config: ModuleConfig,
    dumps: DumpConfig,
    combine_mode: bool,
    bc_out: Seq<u8>,
    obj_out: Seq<u8>,
    name: Seq<u8>,
) -> Seq<PlanStep> {
    match config.emit_obj {
        EmitObj::ObjectCode(_) => spec_dump_steps(dumps, name) + if combine_mode {
            spec_lto_flag_steps() + seq![
                PlanStep::AddDriverOption(ToolFlag::RelocatableLink),
                PlanStep::AddDriverOption(ToolFlag::NoStdLib),
                PlanStep::AddDriverOption(ToolFlag::UseLinkerPlugin),
                PlanStep::CompileToFile(OutputKind::Executable, obj_out),
            ]
        } else {
            seq![PlanStep::CompileToFile(OutputKind::ObjectFile, obj_out)]
        },
        EmitObj::Bitcode => seq![PlanStep::LinkOrCopy(bc_out, obj_out)] + if !config.emit_bc {
            seq![PlanStep::EnsureRemoved(bc_out)]
        } else {
            Seq::empty()
        },
        EmitObj::NoObject => Seq::empty(),
    }
}

pub open spec fn spec_codegen_plan(
    config: ModuleConfig,
    dumps: DumpConfig,
    combine_mode: bool,
    bc_out: Seq<u8>,
    obj_out: Seq<u8>,
    asm_out: Seq<u8>,
    name: Seq<u8>,
) -> Seq<PlanStep> {
    spec_bc_part(config, bc_out) + spec_embed_part(config, bc_out) + spec_asm_part(
        config,
        asm_out,
    ) + spec_obj_part(config, dumps, combine_mode, bc_out, obj_out, name)
}

/// Appends the whole-program-optimization flags to a plan.
fn push_lto_flags(steps: &mut Vec<Step>)
    ensures
        final(steps)@ == old(steps)@ + seq![
            Step::AddCommandLineOption(ToolFlag::Lto),
            Step::AddDriverOption(ToolFlag::Lto),
            Step::AddCommandLineOption(ToolFlag::LtoPartitionOne),
            Step::AddDriverOption(ToolFlag::LtoPartitionOne),
        ],
        plan_view(final(steps)@) == plan_view(old(steps)@) + spec_lto_flag_steps(),
{
    proof {
        assert(old(steps)@ + seq![
            Step::AddCommandLineOption(ToolFlag::Lto),
            Step::AddDriverOption(ToolFlag::Lto),
            Step::AddCommandLineOption(ToolFlag::LtoPartitionOne),
            Step::AddDriverOption(ToolFlag::LtoPartitionOne),
        ] =~= old(steps)@.push(Step::AddCommandLineOption(ToolFlag::Lto)).push(
            Step::AddDriverOption(ToolFlag::Lto),
        ).push(Step::AddCommandLineOption(ToolFlag::LtoPartitionOne)).push(
            Step::AddDriverOption(ToolFlag::LtoPartitionOne),
        ));
    }
    steps.push(Step::AddCommandLineOption(ToolFlag::Lto));
    steps.push(Step::AddDriverOption(ToolFlag::Lto));
    steps.push(Step::AddCommandLineOption(ToolFlag::LtoPartitionOne));
    steps.push(Step::AddDriverOption(ToolFlag::LtoPartitionOne));
    proof {
        assert(plan_view(steps@) =~= plan_view(old(steps)@) + spec_lto_flag_steps());
    }
}

/// Drives one unit through every requested output kind, in the fixed stage
/// order, and reports which artifacts exist afterwards and where. The
/// returned steps are exactly `spec_codegen_plan`; the diagnostic side
/// channels never change which artifacts are produced.
///
/// In combine mode the object stage relocatable-links the already-emitted
/// object files into one object; asking for bitcode at the same time is an
/// unsupported path and fatal, as is intermediate-representation emission.
#[verifier::loop_isolation(false)]
#[verifier::rlimit(100)]
pub fn codegen(
    cgcx: &CodegenContext,
    module: ModuleCodegen,
    config: &ModuleConfig,
    dumps: &DumpConfig,
    paths: &OutputPaths,
    combine_mode: bool,
) -> (r: Result<(Vec<Step>, CompiledModule), LtoError>)
    ensures
        r matches Ok(out) ==> {
            &&& plan_view(out.0@) == spec_codegen_plan(
                *config,
                *dumps,
                combine_mode,
                paths.bc_out@,
                paths.obj_out@,
                paths.asm_out@,
                module.name@,
            )
            &&& out.1.name@ == module.name@
            &&& (config.emit_obj != EmitObj::NoObject ==> (out.1.object matches Some(p) && p@
                == paths.obj_out@))
            &&& (config.emit_obj == EmitObj::NoObject ==> out.1.object is None)
            &&& (config.emit_bc ==> (out.1.bytecode matches Some(p) && p@ == paths.bc_out@))
            &&& (!config.emit_bc ==> out.1.bytecode is None)
            &&& (config.emit_asm ==> (out.1.assembly matches Some(p) && p@ == paths.asm_out@))
            &&& (!config.emit_asm ==> out.1.assembly is None)
            &&& out.1.dwarf_object == (cgcx.target_can_use_split_dwarf && cgcx.split_debuginfo
                == SplitDebuginfo::Unpacked)
        },
        (r == Err::<(Vec<Step>, CompiledModule), LtoError>(
            LtoError::Unsupported { op: UnsupportedOp::CombineWithBitcode },
        )) <==> (combine_mode && config.spec_bitcode_needed()),
        (r == Err::<(Vec<Step>, CompiledModule), LtoError>(
            LtoError::Unsupported { op: UnsupportedOp::EmitIr },
        )) <==> (!(combine_mode && config.spec_bitcode_needed()) && config.emit_ir),
        (r matches Ok(_)) <==> (!(combine_mode && config.spec_bitcode_needed())
            && !config.emit_ir),
{
    let mut steps: Vec<Step> = Vec::new();

    if config.bitcode_needed() {
        if config.emit_bc || matches!(config.emit_obj, EmitObj::Bitcode) {
            if combine_mode {
                // Relocatable-linking the emitted objects instead of
                // compiling bitcode is not implemented: fail rather than
                // silently degrade.
                return Err(LtoError::Unsupported { op: UnsupportedOp::CombineWithBitcode });
            }
            push_lto_flags(&mut steps);
            let p = clone_bytes(&paths.bc_out);
            steps.push(Step::CompileToFile(OutputKind::ObjectFile, p));
        }
        proof {
            assert(plan_view(steps@) =~= spec_bc_part(*config, paths.bc_out@));
        }
        if matches!(config.emit_obj, EmitObj::ObjectCode(BitcodeSection::Full)) {
            if combine_mode {
                return Err(LtoError::Unsupported { op: UnsupportedOp::CombineWithBitcode });
            }
            push_lto_flags(&mut steps);
            steps.push(Step::AddCommandLineOption(ToolFlag::FatLtoObjects));
            steps.push(Step::AddDriverOption(ToolFlag::FatLtoObjects));
            let p = clone_bytes(&paths.bc_out);
            steps.push(Step::CompileToFile(OutputKind::ObjectFile, p));
            proof {
                assert(plan_view(steps@) =~= spec_bc_part(*config, paths.bc_out@)
                    + spec_embed_part(*config, paths.bc_out@));
            }
        }
    }
    proof {
        assert(plan_view(steps@) =~= spec_bc_part(*config, paths.bc_out@) + spec_embed_part(
            *config,
            paths.bc_out@,
        ));
    }

    if config.emit_ir {
        return Err(LtoError::Unsupported { op: UnsupportedOp::EmitIr });
    }

    if config.emit_asm {
        let p = clone_bytes(&paths.asm_out);
        steps.push(Step::CompileToFile(OutputKind::Assembler, p));
    }
    proof {
        assert(plan_view(steps@) =~= spec_bc_part(*config, paths.bc_out@) + spec_embed_part(
            *config,
            paths.bc_out@,
        ) + spec_asm_part(*config, paths.asm_out@));
    }
    let ghost before_obj = plan_view(steps@);

    match config.emit_obj {
        EmitObj::ObjectCode(_) => {
            if dumps.print_module_names {
                let n = clone_bytes(&module.name);
                steps.push(Step::PrintModuleName(n));
            }
            if dumps.dump_reproducer {
                let dir: Vec<u8> = vec![
                    47u8, 116u8, 109u8, 112u8, 47u8, 114u8, 101u8, 112u8, 114u8, 111u8, 100u8,
                    117u8, 99u8, 101u8, 114u8, 115u8, 47u8,
                ];
                let suffix: Vec<u8> = vec![46u8, 99u8];
                let with_name = concat_bytes(&dir, &module.name);
                let path = concat_bytes(&with_name, &suffix);
                proof {
                    assert(dir@ =~= spec_reproducer_dir());
                    assert(suffix@ =~= spec_c_suffix());
                }
                steps.push(Step::DumpReproducer(path));
            }
            if dumps.dump_to_file {
                let dir: Vec<u8> = vec![
                    47u8, 116u8, 109u8, 112u8, 47u8, 103u8, 99u8, 99u8, 106u8, 105u8, 116u8,
                    95u8, 100u8, 117u8, 109u8, 112u8, 115u8, 47u8,
                ];
                let suffix: Vec<u8> = vec![46u8, 99u8];
                let with_name = concat_bytes(&dir, &module.name);
                let path = concat_bytes(&with_name, &suffix);
                proof {
                    assert(dir@ =~= spec_dump_dir());
                    assert(suffix@ =~= spec_c_suffix());
                }
                steps.push(Step::DumpToFile(path));
            }
            proof {
                assert(plan_view(steps@) =~= before_obj + spec_dump_steps(
                    *dumps,
                    module.name@,
                ));
            }
            let ghost after_dumps = plan_view(steps@);
            if combine_mode {
                push_lto_flags(&mut steps);
                steps.push(Step::AddDriverOption(ToolFlag::RelocatableLink));
                steps.push(Step::AddDriverOption(ToolFlag::NoStdLib));
                steps.push(Step::AddDriverOption(ToolFlag::UseLinkerPlugin));
                let p = clone_bytes(&paths.obj_out);
                steps.push(Step::CompileToFile(OutputKind::Executable, p));
                proof {
                    assert(plan_view(steps@) =~= after_dumps + (spec_lto_flag_steps() + seq![
                        PlanStep::AddDriverOption(ToolFlag::RelocatableLink),
                        PlanStep::AddDriverOption(ToolFlag::NoStdLib),
                        PlanStep::AddDriverOption(ToolFlag::UseLinkerPlugin),
                        PlanStep::CompileToFile(OutputKind::Executable, paths.obj_out@),
                    ]));
                }
            } else {
                let p = clone_bytes(&paths.obj_out);
                steps.push(Step::CompileToFile(OutputKind::ObjectFile, p));
                proof {
                    assert(plan_view(steps@) =~= after_dumps + seq![
                        PlanStep::CompileToFile(OutputKind::ObjectFile, paths.obj_out@),
                    ]);
                }
            }
            proof {
                assert(plan_view(steps@) =~= before_obj + spec_obj_part(
                    *config,
                    *dumps,
                    combine_mode,
                    paths.bc_out@,
                    paths.obj_out@,
                    module.name@,
                ));
            }
        },
        EmitObj::Bitcode => {
            let a = clone_bytes(&paths.bc_out);
            let b = clone_bytes(&paths.obj_out);
            steps.push(Step::LinkOrCopy(a, b));
            if !config.emit_bc {
                let c = clone_bytes(&paths.bc_out);
                steps.push(Step::EnsureRemoved(c));
            }
            proof {
                assert(plan_view(steps@) =~= before_obj + spec_obj_part(
                    *config,
                    *dumps,
                    combine_mode,
                    paths.bc_out@,
                    paths.obj_out@,
                    module.name@,
                ));
            }
        },
        EmitObj::NoObject => {},
    }
    proof {
        assert(plan_view(steps@) =~= before_obj + spec_obj_part(
            *config,
            *dumps,
            combine_mode,
            paths.bc_out@,
            paths.obj_out@,
            module.name@,
        ));
        assert(plan_view(steps@) =~= spec_codegen_plan(
            *config,
            *dumps,
            combine_mode,
            paths.bc_out@,
            paths.obj_out@,
            paths.asm_out@,
            module.name@,
        ));
    }

    let object = if !matches!(config.emit_obj, EmitObj::NoObject) {
        Some(clone_bytes(&paths.obj_out))
    } else {
        None
    };
    let bytecode = if config.emit_bc {
        Some(clone_bytes(&paths.bc_out))
    } else {
        None
    };
    let assembly = if config.emit_asm {
        Some(clone_bytes(&paths.asm_out))
    } else {
        None
    };
    let dwarf_object = cgcx.target_can_use_split_dwarf && matches!(
        cgcx.split_debuginfo,
        SplitDebuginfo::Unpacked,
    );
    let compiled = CompiledModule { name: module.name, object, dwarf_object, bytecode, assembly };
    Ok((steps, compiled))
}


} // verus!

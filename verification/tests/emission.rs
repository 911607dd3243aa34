use fat_lto::config::{CodegenContext, CrateType, Lto, SplitDebuginfo};
use fat_lto::errors::{LtoError, UnsupportedOp};
use fat_lto::lto::merge_and_emit;
use fat_lto::plan::{OutputKind, Step, ToolFlag};
use fat_lto::units::{FatLtoInput, ModuleCodegen, ModuleKind};
use fat_lto::write::{
    codegen, link, save_temp_bitcode, BitcodeSection, DumpConfig, EmitObj, ModuleConfig,
    OutputPaths,
};

fn b(s: &str) -> Vec<u8> {
    s.as_bytes().to_vec()
}

fn cgcx() -> CodegenContext {
    CodegenContext {
        lto: Lto::Fat,
        crate_types: vec![CrateType::Executable],
        dylib_lto: false,
        prefer_dynamic: false,
        save_temps: false,
        target_can_use_split_dwarf: false,
        split_debuginfo: SplitDebuginfo::Off,
    }
}

fn module(name: &str) -> ModuleCodegen {
    ModuleCodegen { name: b(name), kind: ModuleKind::Regular }
}

fn paths() -> OutputPaths {
    OutputPaths { bc_out: b("/out/m.bc"), obj_out: b("/out/m.o"), asm_out: b("/out/m.s") }
}

fn no_dumps() -> DumpConfig {
    DumpConfig { print_module_names: false, dump_reproducer: false, dump_to_file: false }
}

fn config(emit_bc: bool, emit_asm: bool, emit_obj: EmitObj) -> ModuleConfig {
    ModuleConfig { emit_bc, emit_ir: false, emit_asm, emit_obj }
}

#[test]
fn object_only_emits_exactly_one_object() {
    // Emission requested for object code only, no combine mode: exactly one
    // object file at the caller's path, no bitcode or assembly.
    let (steps, compiled) = codegen(
        &cgcx(),
        module("m"),
        &config(false, false, EmitObj::ObjectCode(BitcodeSection::Off)),
        &no_dumps(),
        &paths(),
        false,
    )
    .unwrap();
    assert_eq!(steps.len(), 1);
    assert!(matches!(&steps[0], Step::CompileToFile(OutputKind::ObjectFile, p) if *p == b("/out/m.o")));
    assert_eq!(compiled.object, Some(b("/out/m.o")));
    assert_eq!(compiled.bytecode, None);
    assert_eq!(compiled.assembly, None);
    assert_eq!(compiled.name, b("m"));
}

#[test]
fn bitcode_stage_uses_whole_program_flags() {
    let (steps, compiled) = codegen(
        &cgcx(),
        module("m"),
        &config(true, false, EmitObj::ObjectCode(BitcodeSection::Off)),
        &no_dumps(),
        &paths(),
        false,
    )
    .unwrap();
    assert!(matches!(steps[0], Step::AddCommandLineOption(ToolFlag::Lto)));
    assert!(matches!(steps[1], Step::AddDriverOption(ToolFlag::Lto)));
    assert!(matches!(steps[2], Step::AddCommandLineOption(ToolFlag::LtoPartitionOne)));
    assert!(matches!(steps[3], Step::AddDriverOption(ToolFlag::LtoPartitionOne)));
    assert!(matches!(&steps[4], Step::CompileToFile(OutputKind::ObjectFile, p) if *p == b("/out/m.bc")));
    assert!(matches!(&steps[5], Step::CompileToFile(OutputKind::ObjectFile, p) if *p == b("/out/m.o")));
    assert_eq!(steps.len(), 6);
    assert_eq!(compiled.bytecode, Some(b("/out/m.bc")));
}

#[test]
fn fat_object_stage_adds_fat_objects_flag() {
    let (steps, _) = codegen(
        &cgcx(),
        module("m"),
        &config(false, false, EmitObj::ObjectCode(BitcodeSection::Full)),
        &no_dumps(),
        &paths(),
        false,
    )
    .unwrap();
    assert!(matches!(steps[4], Step::AddCommandLineOption(ToolFlag::FatLtoObjects)));
    assert!(matches!(steps[5], Step::AddDriverOption(ToolFlag::FatLtoObjects)));
    assert!(matches!(&steps[6], Step::CompileToFile(OutputKind::ObjectFile, p) if *p == b("/out/m.bc")));
    assert!(matches!(&steps[7], Step::CompileToFile(OutputKind::ObjectFile, p) if *p == b("/out/m.o")));
    assert_eq!(steps.len(), 8);
}

#[test]
fn object_is_bitcode_copies_then_removes() {
    let (steps, compiled) = codegen(
        &cgcx(),
        module("m"),
        &config(false, false, EmitObj::Bitcode),
        &no_dumps(),
        &paths(),
        false,
    )
    .unwrap();
    // Bitcode is compiled, copied to the object path, and — since the caller
    // did not also ask to keep it — removed.
    assert!(matches!(&steps[4], Step::CompileToFile(OutputKind::ObjectFile, p) if *p == b("/out/m.bc")));
    assert!(matches!(&steps[5], Step::LinkOrCopy(a, c) if *a == b("/out/m.bc") && *c == b("/out/m.o")));
    assert!(matches!(&steps[6], Step::EnsureRemoved(p) if *p == b("/out/m.bc")));
    assert_eq!(steps.len(), 7);
    assert_eq!(compiled.object, Some(b("/out/m.o")));
    assert_eq!(compiled.bytecode, None);
}

#[test]
fn object_is_bitcode_keeps_bitcode_when_asked() {
    let (steps, compiled) = codegen(
        &cgcx(),
        module("m"),
        &config(true, false, EmitObj::Bitcode),
        &no_dumps(),
        &paths(),
        false,
    )
    .unwrap();
    assert!(!steps.iter().any(|s| matches!(s, Step::EnsureRemoved(_))));
    assert_eq!(compiled.bytecode, Some(b("/out/m.bc")));
}

#[test]
fn assembly_stage_is_independent() {
    let (steps, compiled) = codegen(
        &cgcx(),
        module("m"),
        &config(false, true, EmitObj::NoObject),
        &no_dumps(),
        &paths(),
        false,
    )
    .unwrap();
    assert_eq!(steps.len(), 1);
    assert!(matches!(&steps[0], Step::CompileToFile(OutputKind::Assembler, p) if *p == b("/out/m.s")));
    assert_eq!(compiled.assembly, Some(b("/out/m.s")));
    assert_eq!(compiled.object, None);
}

#[test]
fn combine_mode_relocatable_links_objects() {
    // Combine mode for the object stage: one relocatable link of the
    // already-emitted objects, never a plain object compilation.
    let (steps, _) = codegen(
        &cgcx(),
        module("m"),
        &config(false, false, EmitObj::ObjectCode(BitcodeSection::Off)),
        &no_dumps(),
        &paths(),
        true,
    )
    .unwrap();
    assert!(matches!(steps[4], Step::AddDriverOption(ToolFlag::RelocatableLink)));
    assert!(matches!(steps[5], Step::AddDriverOption(ToolFlag::NoStdLib)));
    assert!(matches!(steps[6], Step::AddDriverOption(ToolFlag::UseLinkerPlugin)));
    assert!(matches!(&steps[7], Step::CompileToFile(OutputKind::Executable, p) if *p == b("/out/m.o")));
    assert_eq!(steps.len(), 8);
    let compiles = steps.iter().filter(|s| matches!(s, Step::CompileToFile(_, _))).count();
    assert_eq!(compiles, 1);
}

#[test]
fn combine_mode_with_bitcode_is_fatal() {
    let r = codegen(
        &cgcx(),
        module("m"),
        &config(true, false, EmitObj::ObjectCode(BitcodeSection::Off)),
        &no_dumps(),
        &paths(),
        true,
    );
    assert_eq!(
        r.err(),
        Some(LtoError::Unsupported { op: UnsupportedOp::CombineWithBitcode })
    );
}

#[test]
fn emit_ir_is_fatal_not_a_no_op() {
    let mut c = config(false, false, EmitObj::ObjectCode(BitcodeSection::Off));
    c.emit_ir = true;
    let r = codegen(&cgcx(), module("m"), &c, &no_dumps(), &paths(), false);
    assert_eq!(r.err(), Some(LtoError::Unsupported { op: UnsupportedOp::EmitIr }));
}

#[test]
fn diagnostic_dumps_do_not_change_artifacts() {
    let dumps = DumpConfig { print_module_names: true, dump_reproducer: true, dump_to_file: true };
    let cfg = config(false, false, EmitObj::ObjectCode(BitcodeSection::Off));
    let (steps, compiled) = codegen(&cgcx(), module("m"), &cfg, &dumps, &paths(), false).unwrap();
    assert!(matches!(&steps[0], Step::PrintModuleName(n) if *n == b("m")));
    assert!(matches!(&steps[1], Step::DumpReproducer(p) if *p == b("/tmp/reproducers/m.c")));
    assert!(matches!(&steps[2], Step::DumpToFile(p) if *p == b("/tmp/gccjit_dumps/m.c")));
    let (_, compiled_plain) =
        codegen(&cgcx(), module("m"), &cfg, &no_dumps(), &paths(), false).unwrap();
    assert_eq!(compiled.object, compiled_plain.object);
    assert_eq!(compiled.bytecode, compiled_plain.bytecode);
    assert_eq!(compiled.assembly, compiled_plain.assembly);
}

#[test]
fn split_dwarf_decides_dwarf_object() {
    let mut c = cgcx();
    c.target_can_use_split_dwarf = true;
    c.split_debuginfo = SplitDebuginfo::Unpacked;
    let cfg = config(false, false, EmitObj::ObjectCode(BitcodeSection::Off));
    let (_, with) = codegen(&c, module("m"), &cfg, &no_dumps(), &paths(), false).unwrap();
    assert!(with.dwarf_object);
    c.split_debuginfo = SplitDebuginfo::Packed;
    let (_, without) = codegen(&c, module("m"), &cfg, &no_dumps(), &paths(), false).unwrap();
    assert!(!without.dwarf_object);
}

#[test]
fn save_temp_bitcode_gate() {
    let mut c = cgcx();
    assert!(save_temp_bitcode(&c, &module("m"), &b("lto.input")).is_ok());
    c.save_temps = true;
    assert_eq!(
        save_temp_bitcode(&c, &module("m"), &b("lto.input")).err(),
        Some(LtoError::Unsupported { op: UnsupportedOp::SaveTempBitcode })
    );
}

#[test]
fn link_without_merge_is_unsupported() {
    let r = link(&cgcx(), vec![module("m")]);
    assert_eq!(r.err(), Some(LtoError::Unsupported { op: UnsupportedOp::LinkModules }));
}

#[test]
fn workspace_released_only_after_emission() {
    // The whole merge-and-emit plan: the workspace release is the very last
    // step, after every fold and every compilation.
    let modules = vec![
        FatLtoInput::InMemory(ModuleCodegen { name: b("u1"), kind: ModuleKind::Regular }),
        FatLtoInput::InMemory(ModuleCodegen { name: b("u2"), kind: ModuleKind::Regular }),
    ];
    let cfg = config(false, false, EmitObj::ObjectCode(BitcodeSection::Off));
    let (steps, compiled) = merge_and_emit(
        &cgcx(),
        modules,
        vec![],
        &vec![],
        &vec![],
        b("/tmp/ws"),
        &cfg,
        &no_dumps(),
        &paths(),
        false,
    )
    .unwrap();
    assert!(matches!(steps.last().unwrap(), Step::ReleaseWorkspace));
    let releases = steps.iter().filter(|s| matches!(s, Step::ReleaseWorkspace)).count();
    assert_eq!(releases, 1);
    // Every read of a workspace file happens before the release.
    let release_at = steps.len() - 1;
    for (i, s) in steps.iter().enumerate() {
        if let Step::AddDriverInput(_) = s {
            assert!(i < release_at);
        }
    }
    assert_eq!(compiled.object, Some(b("/out/m.o")));
}

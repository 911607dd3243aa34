use fat_lto::config::{CodegenContext, CrateType, Lto, SplitDebuginfo};
use fat_lto::errors::{LtoError, UnsupportedOp};
use fat_lto::lto::{check_lto_config, crate_type_allows_lto, fat_lto, prepare_lto, run_fat, LinkedRlib};
use fat_lto::symbols::{SymbolExportInfo, SymbolExportLevel};
use fat_lto::plan::Step;
use fat_lto::units::{
    FatLtoInput, MergeWorkspace, ModuleBuffer, ModuleCodegen, ModuleKind, SerializedModule,
    WorkProduct,
};

fn b(s: &str) -> Vec<u8> {
    s.as_bytes().to_vec()
}

fn cgcx(lto: Lto, crate_types: Vec<CrateType>) -> CodegenContext {
    CodegenContext {
        lto,
        crate_types,
        dylib_lto: false,
        prefer_dynamic: false,
        save_temps: false,
        target_can_use_split_dwarf: false,
        split_debuginfo: SplitDebuginfo::Off,
    }
}

fn in_memory(name: &str, kind: ModuleKind) -> FatLtoInput {
    FatLtoInput::InMemory(ModuleCodegen { name: b(name), kind })
}

fn driver_inputs(steps: &[Step]) -> Vec<Vec<u8>> {
    let mut r = Vec::new();
    for s in steps {
        if let Step::AddDriverInput(p) = s {
            r.push(p.clone());
        }
    }
    r
}

#[test]
fn crate_types_allowed_for_lto() {
    assert!(crate_type_allows_lto(CrateType::Executable));
    assert!(crate_type_allows_lto(CrateType::Dylib));
    assert!(crate_type_allows_lto(CrateType::Staticlib));
    assert!(crate_type_allows_lto(CrateType::Cdylib));
    assert!(!crate_type_allows_lto(CrateType::Rlib));
    assert!(!crate_type_allows_lto(CrateType::ProcMacro));
}

#[test]
fn config_check_rejects_rlib() {
    let c = cgcx(Lto::Fat, vec![CrateType::Executable, CrateType::Rlib]);
    assert_eq!(
        check_lto_config(&c),
        Err(LtoError::LtoDisallowed { crate_type: CrateType::Rlib })
    );
}

#[test]
fn config_check_dylib_needs_opt_in() {
    let mut c = cgcx(Lto::Fat, vec![CrateType::Dylib]);
    assert_eq!(check_lto_config(&c), Err(LtoError::LtoDylib));
    c.dylib_lto = true;
    assert_eq!(check_lto_config(&c), Ok(()));
}

#[test]
fn config_check_prefer_dynamic_needs_opt_in() {
    let mut c = cgcx(Lto::Fat, vec![CrateType::Executable]);
    c.prefer_dynamic = true;
    assert_eq!(check_lto_config(&c), Err(LtoError::DynamicLinkingWithLto));
    c.dylib_lto = true;
    assert_eq!(check_lto_config(&c), Ok(()));
}

#[test]
fn local_thin_lto_skips_config_checks() {
    let c = cgcx(Lto::ThinLocal, vec![CrateType::Rlib]);
    assert_eq!(check_lto_config(&c), Ok(()));
}

#[test]
fn base_unit_is_regular_never_allocator() {
    // One Allocator unit and one Regular unit in memory: the Regular one
    // must become the base, even though the allocator's name sorts last.
    let c = cgcx(Lto::Fat, vec![CrateType::Executable]);
    let modules = vec![
        in_memory("zz_allocator", ModuleKind::Allocator),
        in_memory("aa_regular", ModuleKind::Regular),
    ];
    let ws = MergeWorkspace::new(b("/tmp/merge"));
    let out = fat_lto(&c, modules, vec![], vec![], ws, &vec![]).unwrap();
    assert_eq!(out.module.name, b("aa_regular"));
    assert!(matches!(out.module.kind, ModuleKind::Regular));
}

#[test]
fn pool_folds_in_sorted_name_order() {
    // Two in-memory Regular units named "b" and "a": the base is chosen, the
    // other is serialized, and the pool folds in ascending name order
    // whatever the discovery order was.
    let c = cgcx(Lto::Fat, vec![CrateType::Executable]);
    let modules = vec![
        in_memory("b", ModuleKind::Regular),
        in_memory("a", ModuleKind::Regular),
    ];
    let cached = vec![
        (
            SerializedModule::Local(ModuleBuffer::new(b("/cache/d.o"))),
            WorkProduct { cgu_name: b("d") },
        ),
        (
            SerializedModule::Local(ModuleBuffer::new(b("/cache/c.o"))),
            WorkProduct { cgu_name: b("c") },
        ),
    ];
    let ws = MergeWorkspace::new(b("/tmp/merge"));
    let out = fat_lto(&c, modules, cached, vec![], ws, &vec![]).unwrap();
    // The base is the Regular unit whose name sorts last.
    assert_eq!(out.module.name, b("b"));
    // "a" is serialized into the workspace and folds before "c" and "d".
    assert_eq!(
        driver_inputs(&out.steps),
        vec![b("/tmp/merge/a"), b("/cache/c.o"), b("/cache/d.o")]
    );
}

#[test]
fn merge_is_deterministic_across_discovery_orders() {
    // The same units in two different discovery orders: identical base and
    // identical fold order.
    let c = cgcx(Lto::Fat, vec![CrateType::Executable]);
    let run = |names: [&str; 3], cache_order: [&str; 2]| {
        let modules = names
            .iter()
            .map(|n| in_memory(n, ModuleKind::Regular))
            .collect::<Vec<_>>();
        let cached = cache_order
            .iter()
            .map(|n| {
                (
                    SerializedModule::Local(ModuleBuffer::new(join(n))),
                    WorkProduct { cgu_name: b(n) },
                )
            })
            .collect::<Vec<_>>();
        let ws = MergeWorkspace::new(b("/tmp/merge"));
        let out = fat_lto(&c, modules, cached, vec![], ws, &vec![]).unwrap();
        (out.module.name.clone(), driver_inputs(&out.steps))
    };
    let (base1, folds1) = run(["m2", "m3", "m1"], ["k2", "k1"]);
    let (base2, folds2) = run(["m1", "m2", "m3"], ["k1", "k2"]);
    assert_eq!(base1, base2);
    assert_eq!(folds1, folds2);
    assert_eq!(base1, b("m3"));
}

fn join(n: &str) -> Vec<u8> {
    let mut p = b("/cache/");
    p.extend_from_slice(n.as_bytes());
    p
}

#[test]
fn base_synthesized_from_first_serialized_unit() {
    // No in-memory Regular unit: the first pooled serialized unit becomes
    // the base.
    let c = cgcx(Lto::Fat, vec![CrateType::Executable]);
    let modules = vec![FatLtoInput::Serialized {
        name: b("s1"),
        buffer: ModuleBuffer::new(b("/objs/s1.o")),
    }];
    let ws = MergeWorkspace::new(b("/tmp/merge"));
    let out = fat_lto(&c, modules, vec![], vec![], ws, &vec![]).unwrap();
    assert_eq!(out.module.name, b("s1"));
    assert!(matches!(out.module.kind, ModuleKind::Regular));
    assert_eq!(driver_inputs(&out.steps), vec![b("/objs/s1.o")]);
}

#[test]
fn folding_archive_resident_unit_is_fatal() {
    let c = cgcx(Lto::Fat, vec![CrateType::Executable]);
    let modules = vec![in_memory("a", ModuleKind::Regular)];
    let cached = vec![(
        SerializedModule::FromRlib(b("raw")),
        WorkProduct { cgu_name: b("c") },
    )];
    let ws = MergeWorkspace::new(b("/tmp/merge"));
    let r = fat_lto(&c, modules, cached, vec![], ws, &vec![]);
    assert!(matches!(r, Err(LtoError::UnsupportedProvenance)));
}

#[test]
fn save_temps_is_an_unsupported_path() {
    let mut c = cgcx(Lto::Fat, vec![CrateType::Executable]);
    c.save_temps = true;
    let modules = vec![in_memory("a", ModuleKind::Regular)];
    let ws = MergeWorkspace::new(b("/tmp/merge"));
    let r = fat_lto(&c, modules, vec![], vec![], ws, &vec![]);
    assert_eq!(
        r.err(),
        Some(LtoError::Unsupported { op: UnsupportedOp::SaveTempBitcode })
    );
}

#[test]
fn merge_ends_with_visibility_restriction() {
    let c = cgcx(Lto::Fat, vec![CrateType::Executable]);
    let modules = vec![in_memory("a", ModuleKind::Regular)];
    let ws = MergeWorkspace::new(b("/tmp/merge"));
    let exports = vec![b("keep_me")];
    let out = fat_lto(&c, modules, vec![], vec![], ws, &exports).unwrap();
    match out.steps.last().unwrap() {
        Step::RestrictVisibility(e) => assert_eq!(e, &vec![b("keep_me")]),
        other => panic!("expected a visibility restriction, got {:?}", step_name(other)),
    }
}

fn step_name(s: &Step) -> &'static str {
    match s {
        Step::AddCommandLineOption(_) => "AddCommandLineOption",
        Step::AddDriverOption(_) => "AddDriverOption",
        Step::AddDriverInput(_) => "AddDriverInput",
        Step::RestrictVisibility(_) => "RestrictVisibility",
        Step::CompileToFile(_, _) => "CompileToFile",
        Step::CompileUnitToObject(_, _) => "CompileUnitToObject",
        Step::WriteFile(_, _) => "WriteFile",
        Step::PrintModuleName(_) => "PrintModuleName",
        Step::DumpReproducer(_) => "DumpReproducer",
        Step::DumpToFile(_) => "DumpToFile",
        Step::LinkOrCopy(_, _) => "LinkOrCopy",
        Step::EnsureRemoved(_) => "EnsureRemoved",
        Step::ReleaseWorkspace => "ReleaseWorkspace",
    }
}

#[test]
fn module_buffer_keeps_its_path_and_refuses_data() {
    let buf = ModuleBuffer::new(b("/x/y.o"));
    assert_eq!(buf.path, b("/x/y.o"));
    assert_eq!(
        buf.data(),
        Err(LtoError::Unsupported { op: UnsupportedOp::ModuleBufferData })
    );
}

#[test]
fn run_fat_fails_fast_on_bad_config_before_archive_work() {
    // The crate-type check fires before any archive is opened: garbage
    // archive bytes must not be reached.
    let c = cgcx(Lto::Fat, vec![CrateType::Rlib]);
    let modules = vec![in_memory("a", ModuleKind::Regular)];
    let linked = vec![LinkedRlib { exports: vec![], archive: b("not an archive at all") }];
    let r = run_fat(&c, modules, vec![], &vec![], &linked, b("/tmp/merge"));
    assert_eq!(
        r.err(),
        Some(LtoError::LtoDisallowed { crate_type: CrateType::Rlib })
    );
}

#[test]
fn run_fat_rejects_corrupt_archive() {
    let c = cgcx(Lto::Fat, vec![CrateType::Executable]);
    let modules = vec![in_memory("a", ModuleKind::Regular)];
    let linked = vec![LinkedRlib { exports: vec![], archive: b("not an archive at all") }];
    let r = run_fat(&c, modules, vec![], &vec![], &linked, b("/tmp/merge"));
    assert_eq!(r.err(), Some(LtoError::ArchiveParse));
}

#[test]
fn export_set_always_holds_runtime_profile_symbol() {
    // Even a crate that exports nothing contributes the synthetic runtime
    // symbol to the export set, in every compilation mode.
    for lto in [Lto::ThinLocal, Lto::Thin, Lto::Fat] {
        let c = cgcx(lto, vec![CrateType::Executable]);
        let data = prepare_lto(&c, &vec![], &vec![], b("/tmp/merge")).unwrap();
        assert_eq!(
            data.symbols_below_threshold,
            vec![b("__llvm_profile_counter_bias")]
        );
    }
}

#[test]
fn export_set_orders_local_then_upstream_then_profile() {
    let c = cgcx(Lto::Fat, vec![CrateType::Executable]);
    let local = vec![
        (b("local_c"), SymbolExportInfo { level: SymbolExportLevel::C, used: false }),
        (b("local_rust"), SymbolExportInfo { level: SymbolExportLevel::Rust, used: false }),
    ];
    // An empty archive: a valid magic and no members.
    let linked = vec![LinkedRlib {
        exports: vec![
            (b("up_used"), SymbolExportInfo { level: SymbolExportLevel::Rust, used: true }),
        ],
        archive: b("!<arch>\n"),
    }];
    let data = prepare_lto(&c, &local, &linked, b("/tmp/merge")).unwrap();
    // Threshold is C (executable only): the Rust-level local symbol is
    // dropped, the used upstream symbol is kept, the profile symbol is last.
    assert_eq!(
        data.symbols_below_threshold,
        vec![b("local_c"), b("up_used"), b("__llvm_profile_counter_bias")]
    );
    assert!(data.upstream_modules.is_empty());
    assert!(data.writes.is_empty());
}

#[test]
fn local_thin_lto_ignores_upstream_archives() {
    // Local-only LTO never opens the linked crates' archives: garbage bytes
    // there cannot fail the merge.
    let c = cgcx(Lto::ThinLocal, vec![CrateType::Executable]);
    let modules = vec![in_memory("a", ModuleKind::Regular)];
    let linked = vec![LinkedRlib { exports: vec![], archive: b("garbage") }];
    let out = run_fat(&c, modules, vec![], &vec![], &linked, b("/tmp/merge")).unwrap();
    assert!(!out.steps.iter().any(|s| matches!(s, Step::WriteFile(_, _))));
    assert!(out.workspace.files.is_empty());
}

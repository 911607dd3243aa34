use fat_lto::config::CrateType;
use fat_lto::symbols::{
    crate_export_threshold, crates_export_threshold, internalize_symbols_not_exported,
    is_below_threshold, names_contain, profile_runtime_symbol, push_symbols_below_threshold,
    SymbolExportInfo, SymbolExportLevel, SymbolVisibility,
};

fn b(s: &str) -> Vec<u8> {
    s.as_bytes().to_vec()
}

fn info(level: SymbolExportLevel, used: bool) -> SymbolExportInfo {
    SymbolExportInfo { level, used }
}

#[test]
fn below_threshold_matrix() {
    assert!(is_below_threshold(SymbolExportLevel::Rust, SymbolExportLevel::Rust));
    assert!(!is_below_threshold(SymbolExportLevel::Rust, SymbolExportLevel::C));
    assert!(is_below_threshold(SymbolExportLevel::C, SymbolExportLevel::C));
    assert!(is_below_threshold(SymbolExportLevel::C, SymbolExportLevel::Rust));
}

#[test]
fn per_crate_type_thresholds() {
    assert_eq!(crate_export_threshold(CrateType::Executable), SymbolExportLevel::C);
    assert_eq!(crate_export_threshold(CrateType::Staticlib), SymbolExportLevel::C);
    assert_eq!(crate_export_threshold(CrateType::ProcMacro), SymbolExportLevel::C);
    assert_eq!(crate_export_threshold(CrateType::Cdylib), SymbolExportLevel::C);
    assert_eq!(crate_export_threshold(CrateType::Rlib), SymbolExportLevel::Rust);
    assert_eq!(crate_export_threshold(CrateType::Dylib), SymbolExportLevel::Rust);
}

#[test]
fn graph_threshold_is_permissive_enough() {
    assert_eq!(crates_export_threshold(&vec![CrateType::Executable]), SymbolExportLevel::C);
    assert_eq!(
        crates_export_threshold(&vec![CrateType::Executable, CrateType::Dylib]),
        SymbolExportLevel::Rust
    );
    assert_eq!(crates_export_threshold(&vec![]), SymbolExportLevel::C);
}

#[test]
fn filter_keeps_c_level_and_used() {
    let table = vec![
        (b("alpha"), info(SymbolExportLevel::C, false)),
        (b("beta"), info(SymbolExportLevel::Rust, false)),
        (b("gamma"), info(SymbolExportLevel::Rust, true)),
    ];
    let mut out: Vec<Vec<u8>> = Vec::new();
    push_symbols_below_threshold(&mut out, &table, SymbolExportLevel::C);
    assert_eq!(out, vec![b("alpha"), b("gamma")]);
}

#[test]
fn rust_threshold_filter_is_superset_of_c_filter() {
    // Threshold correctness on concrete values: the permissive threshold
    // keeps everything the strict one keeps.
    let table = vec![
        (b("alpha"), info(SymbolExportLevel::C, false)),
        (b("beta"), info(SymbolExportLevel::Rust, false)),
        (b("gamma"), info(SymbolExportLevel::Rust, true)),
    ];
    let mut strict: Vec<Vec<u8>> = Vec::new();
    push_symbols_below_threshold(&mut strict, &table, SymbolExportLevel::C);
    let mut permissive: Vec<Vec<u8>> = Vec::new();
    push_symbols_below_threshold(&mut permissive, &table, SymbolExportLevel::Rust);
    for name in &strict {
        assert!(permissive.contains(name));
    }
    assert_eq!(permissive, vec![b("alpha"), b("beta"), b("gamma")]);
}

#[test]
fn profile_symbol_name() {
    assert_eq!(profile_runtime_symbol(), b("__llvm_profile_counter_bias"));
}

#[test]
fn membership_in_export_set() {
    let set = vec![b("one"), b("two")];
    assert!(names_contain(&set, &b("one")));
    assert!(names_contain(&set, &b("two")));
    assert!(!names_contain(&set, &b("three")));
}

#[test]
fn internalize_everything_outside_export_set() {
    let mut symbols = vec![
        SymbolVisibility { name: b("kept"), external: true },
        SymbolVisibility { name: b("dropped"), external: true },
        SymbolVisibility { name: b("already_internal"), external: false },
    ];
    let exports = vec![b("kept"), b("already_internal")];
    internalize_symbols_not_exported(&mut symbols, &exports);
    assert!(symbols[0].external);
    assert!(!symbols[1].external);
    assert!(!symbols[2].external);
    assert_eq!(symbols[1].name, b("dropped"));
}

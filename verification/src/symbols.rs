//! The symbol export filter: decides which program symbols must stay
//! externally resolvable after the merge, and what "making everything else
//! internal" means for a symbol table.

use vstd::prelude::*;

use crate::bytes::{bytes_eq, clone_bytes};
use crate::config::CrateType;

verus! {

/// How visible a symbol must remain after linking: `C` symbols are part of a
/// foreign-callable surface and must always survive; `Rust` symbols only
/// matter to downstream Rust crates.
#[derive(Clone, Copy, PartialEq, Eq, Structural, Debug)]
pub enum SymbolExportLevel {
    C,
    Rust,
}

/// What the front end knows about one exported symbol.
#[derive(Clone, Copy, PartialEq, Eq, Structural, Debug)]
pub struct SymbolExportInfo {
    /// The visibility level the symbol was exported at.
    pub level: SymbolExportLevel,
    /// The symbol is marked used and must survive regardless of its level.
    pub used: bool,
}

/// A symbol survives the threshold if the threshold admits every Rust-level
/// symbol, or if the symbol is foreign-callable.
pub open spec fn spec_is_below_threshold(
    level: SymbolExportLevel,
    threshold: SymbolExportLevel,
) -> bool {
    threshold == SymbolExportLevel::Rust || level == SymbolExportLevel::C
}

pub fn is_below_threshold(level: SymbolExportLevel, threshold: SymbolExportLevel) -> (r: bool)
    ensures
        r == spec_is_below_threshold(level, threshold),
{
    matches!(threshold, SymbolExportLevel::Rust) || matches!(level, SymbolExportLevel::C)
}

/// The export threshold one crate type needs: outputs with a foreign-callable
/// surface keep only `C` symbols; outputs consumed by other Rust crates need
/// every Rust-level symbol kept.
pub open spec fn spec_crate_export_threshold(crate_type: CrateType) -> SymbolExportLevel {
    match crate_type {
        CrateType::Executable | CrateType::Staticlib | CrateType::ProcMacro | CrateType::Cdylib =>
            SymbolExportLevel::C,
        CrateType::Rlib | CrateType::Dylib => SymbolExportLevel::Rust,
    }
}

pub fn crate_export_threshold(crate_type: CrateType) -> (r: SymbolExportLevel)
    ensures
        r == spec_crate_export_threshold(crate_type),
{
    match crate_type {
        CrateType::Executable | CrateType::Staticlib | CrateType::ProcMacro | CrateType::Cdylib =>
            SymbolExportLevel::C,
        CrateType::Rlib | CrateType::Dylib => SymbolExportLevel::Rust,
    }
}

/// The threshold for a whole crate graph must be permissive enough for every
/// produced crate type: one type that needs Rust-level symbols kept makes the
/// whole graph keep them.
pub open spec fn spec_crates_export_threshold(crate_types: Seq<CrateType>) -> SymbolExportLevel {
    if exists|i: int|
        0 <= i < crate_types.len() && spec_crate_export_threshold(crate_types[i])
            == SymbolExportLevel::Rust {
        SymbolExportLevel::Rust
    } else {
        SymbolExportLevel::C
    }
}

pub fn crates_export_threshold(crate_types: &Vec<CrateType>) -> (r: SymbolExportLevel)
    ensures
        r == spec_crates_export_threshold(crate_types@),
{
    let mut i: usize = 0;
    while i < crate_types.len()
        invariant
            i <= crate_types@.len(),
            forall|j: int|
                0 <= j < i ==> spec_crate_export_threshold(crate_types@[j])
                    != SymbolExportLevel::Rust,
        decreases crate_types@.len() - i,
    {
        if matches!(crate_export_threshold(crate_types[i]), SymbolExportLevel::Rust) {
            return SymbolExportLevel::Rust;
        }
        i = i + 1;
    }
    SymbolExportLevel::C
}

/// Whether one symbol stays in the export set: its level survives the
/// threshold, or it is marked used.
pub open spec fn spec_symbol_included(info: SymbolExportInfo, threshold: SymbolExportLevel) -> bool {
    spec_is_below_threshold(info.level, threshold) || info.used
}

/// One crate's export table, with the owning `Vec`s abstracted to sequences.
pub open spec fn table_view(table: Seq<(Vec<u8>, SymbolExportInfo)>) -> Seq<
    (Seq<u8>, SymbolExportInfo),
> {
    table.map_values(|p: (Vec<u8>, SymbolExportInfo)| (p.0@, p.1))
}

/// The names a table contributes to the export set under a threshold, in
/// table order.
pub open spec fn spec_included_names(
    table: Seq<(Seq<u8>, SymbolExportInfo)>,
    threshold: SymbolExportLevel,
) -> Seq<Seq<u8>>
    decreases table.len(),
{
    if table.len() == 0 {
        Seq::empty()
    } else {
        let rest = spec_included_names(table.drop_last(), threshold);
        if spec_symbol_included(table.last().1, threshold) {
            rest.push(table.last().0)
        } else {
            rest
        }
    }
}

/// The view of a list of owned names.
pub open spec fn names_view(names: Seq<Vec<u8>>) -> Seq<Seq<u8>> {
    names.map_values(|v: Vec<u8>| v@)
}

/// Appends to `out` the names of `table` that stay exported under
/// `threshold`, keeping table order.
pub fn push_symbols_below_threshold(
    out: &mut Vec<Vec<u8>>,
    table: &Vec<(Vec<u8>, SymbolExportInfo)>,
    threshold: SymbolExportLevel,
)
    ensures
        names_view(final(out)@) == names_view(old(out)@) + spec_included_names(
            table_view(table@),
            threshold,
        ),
{
    let ghost base = names_view(old(out)@);
    let mut i: usize = 0;
    while i < table.len()
        invariant
            i <= table@.len(),
            names_view(out@) == base + spec_included_names(
                table_view(table@).take(i as int),
                threshold,
            ),
        decreases table@.len() - i,
    {
        let ghost before = names_view(out@);
        let included = is_below_threshold(table[i].1.level, threshold) || table[i].1.used;
        if included {
            let name = clone_bytes(&table[i].0);
            out.push(name);
            proof {
                assert(names_view(out@) =~= before.push(table@[i as int].0@));
            }
        }
        proof {
            let tv = table_view(table@);
            assert(tv.take(i + 1 as int).drop_last() =~= tv.take(i as int));
            assert(tv.take(i + 1 as int).last() == tv[i as int]);
        }
        i = i + 1;
    }
    proof {
        assert(table_view(table@).take(table@.len() as int) =~= table_view(table@));
    }
}

/// The name of the synthetic runtime symbol that profiling instrumentation
/// resolves only at final link time: it must never be pruned by the merge's
/// visibility-restriction pass, whatever the crates export.
pub open spec fn spec_profile_runtime_symbol() -> Seq<u8> {
    seq![
        95u8, 95u8, 108u8, 108u8, 118u8, 109u8, 95u8, 112u8, 114u8, 111u8, 102u8, 105u8, 108u8,
        101u8, 95u8, 99u8, 111u8, 117u8, 110u8, 116u8, 101u8, 114u8, 95u8, 98u8, 105u8, 97u8,
        115u8,
    ]
}

/// Builds the synthetic runtime profiling symbol's name.
pub fn profile_runtime_symbol() -> (r: Vec<u8>)
    ensures
        r@ == spec_profile_runtime_symbol(),
{
    let r: Vec<u8> = vec![
        95u8, 95u8, 108u8, 108u8, 118u8, 109u8, 95u8, 112u8, 114u8, 111u8, 102u8, 105u8, 108u8,
        101u8, 95u8, 99u8, 111u8, 117u8, 110u8, 116u8, 101u8, 114u8, 95u8, 98u8, 105u8, 97u8,
        115u8,
    ];
    proof {
        assert(r@ =~= spec_profile_runtime_symbol());
    }
    r
}

/// Whether a name is in a list of names.
pub open spec fn spec_names_contain(names: Seq<Seq<u8>>, name: Seq<u8>) -> bool {
    exists|i: int| 0 <= i < names.len() && names[i] == name
}

/// Decides membership of a name in an export set.
pub fn names_contain(names: &Vec<Vec<u8>>, name: &Vec<u8>) -> (r: bool)
    ensures
        r == spec_names_contain(names_view(names@), name@),
{
    let mut i: usize = 0;
    while i < names.len()
        invariant
            i <= names@.len(),
            forall|j: int| 0 <= j < i ==> names_view(names@)[j] != name@,
        decreases names@.len() - i,
    {
        if bytes_eq(&names[i], name) {
            assert(names_view(names@)[i as int] == name@);
            return true;
        }
        i = i + 1;
    }
    false
}

/// One symbol of a merged unit's table: its name, and whether it is still
/// externally visible.
pub struct SymbolVisibility {
    pub name: Vec<u8>,
    pub external: bool,
}

/// The meaning of the merge's visibility-restriction pass on one symbol
/// table: every symbol whose name is not in the export set becomes internal,
/// enabling dead-code elimination during final emission; symbols of the
/// export set keep the visibility they had.
pub fn internalize_symbols_not_exported(
    symbols: &mut Vec<SymbolVisibility>,
    exports: &Vec<Vec<u8>>,
)
    ensures
        final(symbols)@.len() == old(symbols)@.len(),
        forall|i: int|
            0 <= i < old(symbols)@.len() ==> final(symbols)@[i].name@ == old(symbols)@[i].name@,
        forall|i: int|
            0 <= i < old(symbols)@.len() ==> final(symbols)@[i].external == (old(
                symbols,
            )@[i].external && spec_names_contain(names_view(exports@), old(symbols)@[i].name@)),
{
    let n = symbols.len();
    let mut i: usize = 0;
    while i < n
        invariant
            i <= n,
            n == symbols@.len(),
            symbols@.len() == old(symbols)@.len(),
            forall|j: int|
                0 <= j < symbols@.len() ==> symbols@[j].name@ == old(symbols)@[j].name@,
            forall|j: int|
                i <= j < symbols@.len() ==> symbols@[j].external == old(symbols)@[j].external,
            forall|j: int|
                0 <= j < i ==> symbols@[j].external == (old(symbols)@[j].external
                    && spec_names_contain(names_view(exports@), old(symbols)@[j].name@)),
        decreases n - i,
    {
        let keep = names_contain(exports, &symbols[i].name);
        if !keep {
            let name = clone_bytes(&symbols[i].name);
            symbols.set(i, SymbolVisibility { name, external: false });
        }
        i = i + 1;
    }
}


/// Copies a list of names.
pub fn clone_names(names: &Vec<Vec<u8>>) -> (r: Vec<Vec<u8>>)
    ensures
        names_view(r@) == names_view(names@),
{
    let mut r: Vec<Vec<u8>> = Vec::new();
    let mut i: usize = 0;
    while i < names.len()
        invariant
            i <= names@.len(),
            names_view(r@) == names_view(names@).take(i as int),
        decreases names@.len() - i,
    {
        let ghost prev = names_view(r@);
        let name = clone_bytes(&names[i]);
        r.push(name);
        proof {
            assert(names_view(r@) =~= prev.push(names@[i as int]@));
            assert(names_view(names@).take(i + 1 as int) =~= names_view(names@).take(
                i as int,
            ).push(names@[i as int]@));
        }
        i = i + 1;
    }
    proof {
        assert(names_view(names@).take(names@.len() as int) =~= names_view(names@));
    }
    r
}

} // verus!


//! The fat-LTO merge orchestrator: configuration checks, preparation of the
//! export set and the upstream units, and the fold of every unit into one
//! base unit, in an order that does not depend on how the units were
//! discovered.

use vstd::prelude::*;
use vstd::relations::sorted_by;
use vstd::seq_lib::lemma_sorted_unique;

use crate::archive::{archive_extract_ok, archive_members, archive_members_of,
    archive_members_ok, archive_parse_ok, collect_members, looks_like_rust_object_file,
    pairs_view, spec_looks_like_rust_object_file, RlibArchive};
use crate::bytes::{bytes_le, clone_bytes, lemma_lex_le_antisym, lemma_lex_le_refl,
    lemma_lex_le_total, lemma_lex_le_trans, lemma_lex_total_ordering, lex_le, lex_leq,
    spec_join_path};
use crate::config::{CodegenContext, CrateType, Lto, SplitDebuginfo};
use crate::errors::{LtoError, UnsupportedOp};
use crate::plan::{plan_view, step_view, PlanStep, Step};
use crate::symbols::{clone_names, crates_export_threshold, names_view, profile_runtime_symbol,
    push_symbols_below_threshold, spec_crates_export_threshold, spec_included_names,
    spec_names_contain, spec_profile_runtime_symbol, spec_symbol_included, table_view,
    SymbolExportInfo, SymbolExportLevel};
use crate::units::{FatLtoInput, MergeWorkspace, ModuleBuffer, ModuleCodegen, ModuleKind,
    SerializedModule, WorkProduct};
use crate::write::{codegen, save_temp_bitcode, spec_asm_part, spec_bc_part, spec_codegen_plan,
    spec_dump_steps, spec_embed_part, spec_obj_part, CompiledModule, DumpConfig, EmitObj,
    ModuleConfig, OutputPaths};

verus! {

/// Whether a crate type can take part in whole-program merging at all.
pub open spec fn spec_crate_type_allows_lto(crate_type: CrateType) -> bool {
    match crate_type {
        CrateType::Executable | CrateType::Dylib | CrateType::Staticlib | CrateType::Cdylib =>
            true,
        CrateType::Rlib | CrateType::ProcMacro => false,
    }
}

pub fn crate_type_allows_lto(crate_type: CrateType) -> (r: bool)
    ensures
        r == spec_crate_type_allows_lto(crate_type),
{
    match crate_type {
        CrateType::Executable | CrateType::Dylib | CrateType::Staticlib | CrateType::Cdylib =>
            true,
        CrateType::Rlib | CrateType::ProcMacro => false,
    }
}

/// The first configuration fault among the crate types, in list order: a type
/// that cannot take part in LTO at all, or a dynamic library without the
/// explicit opt-in.
pub open spec fn spec_first_crate_type_error(
    crate_types: Seq<CrateType>,
    dylib_lto: bool,
) -> Option<LtoError>
    decreases crate_types.len(),
{
    if crate_types.len() == 0 {
        None
    } else if !spec_crate_type_allows_lto(crate_types[0]) {
        Some(LtoError::LtoDisallowed { crate_type: crate_types[0] })
    } else if crate_types[0] == CrateType::Dylib && !dylib_lto {
        Some(LtoError::LtoDylib)
    } else {
        spec_first_crate_type_error(crate_types.skip(1), dylib_lto)
    }
}

/// The configuration fault a whole-graph merge must fail fast on, if any:
/// first the per-crate-type checks, then the dynamic-linking check. Local
/// thin LTO is exempt from all of them.
pub open spec fn spec_config_error(cgcx: CodegenContext) -> Option<LtoError> {
    if cgcx.lto == Lto::ThinLocal {
        None
    } else {
        match spec_first_crate_type_error(cgcx.crate_types@, cgcx.dylib_lto) {
            Some(e) => Some(e),
            None => if cgcx.prefer_dynamic && !cgcx.dylib_lto {
                Some(LtoError::DynamicLinkingWithLto)
            } else {
                None
            },
        }
    }
}

proof fn lemma_first_crate_type_error_skip(
    crate_types: Seq<CrateType>,
    dylib_lto: bool,
    i: int,
)
    requires
        0 <= i <= crate_types.len(),
        forall|j: int|
            0 <= j < i ==> spec_crate_type_allows_lto(crate_types[j]) && !(crate_types[j]
                == CrateType::Dylib && !dylib_lto),
    ensures
        spec_first_crate_type_error(crate_types, dylib_lto) == spec_first_crate_type_error(
            crate_types.skip(i),
            dylib_lto,
        ),
    decreases i,
{
    if i > 0 {
        assert(forall|j: int|
            0 <= j < i - 1 ==> crate_types.skip(1)[j] == crate_types[j + 1]);
        lemma_first_crate_type_error_skip(crate_types.skip(1), dylib_lto, i - 1);
        assert(crate_types.skip(1).skip(i - 1) =~= crate_types.skip(i));
    } else {
        assert(crate_types.skip(0) =~= crate_types);
    }
}

/// Checks, before any file is touched, that the session's configuration can
/// support whole-program merging: every produced crate type must allow LTO, a
/// dynamic-library output and preferred dynamic linking each need the
/// explicit opt-in. Local thin LTO needs none of this.
pub fn check_lto_config(cgcx: &CodegenContext) -> (r: Result<(), LtoError>)
    ensures
        r matches Ok(_) <==> spec_config_error(*cgcx) is None,
        r matches Err(e) ==> spec_config_error(*cgcx) == Some(e),
{
    if matches!(cgcx.lto, Lto::ThinLocal) {
        return Ok(());
    }
    let n = cgcx.crate_types.len();
    let mut i: usize = 0;
    while i < n
        invariant
            i <= n,
            n == cgcx.crate_types@.len(),
            cgcx.lto != Lto::ThinLocal,
            forall|j: int|
                0 <= j < i ==> spec_crate_type_allows_lto(cgcx.crate_types@[j]) && !(
                cgcx.crate_types@[j] == CrateType::Dylib && !cgcx.dylib_lto),
        decreases n - i,
    {
        proof {
            lemma_first_crate_type_error_skip(cgcx.crate_types@, cgcx.dylib_lto, i as int);
        }
        let crate_type = cgcx.crate_types[i];
        if !crate_type_allows_lto(crate_type) {
            return Err(LtoError::LtoDisallowed { crate_type });
        }
        if matches!(crate_type, CrateType::Dylib) && !cgcx.dylib_lto {
            return Err(LtoError::LtoDylib);
        }
        i = i + 1;
    }
    proof {
        lemma_first_crate_type_error_skip(cgcx.crate_types@, cgcx.dylib_lto, n as int);
        assert(cgcx.crate_types@.skip(n as int) =~= Seq::<CrateType>::empty());
    }
    if cgcx.prefer_dynamic && !cgcx.dylib_lto {
        return Err(LtoError::DynamicLinkingWithLto);
    }
    Ok(())
}


/// The names of a pool of serialized units, in pool order.
pub open spec fn pool_names(pool: Seq<(SerializedModule, Vec<u8>)>) -> Seq<Seq<u8>> {
    pool.map_values(|e: (SerializedModule, Vec<u8>)| e.1@)
}

/// Sorts a pool of serialized units by name, ascending, lexicographically.
/// The result's order depends only on which units are in the pool, never on
/// the order they were discovered.
pub fn sort_modules_by_name(pool: Vec<(SerializedModule, Vec<u8>)>) -> (r: Vec<
    (SerializedModule, Vec<u8>),
>)
    ensures
        sorted_by(pool_names(r@), lex_leq()),
        r@.to_multiset() == pool@.to_multiset(),
        pool_names(r@).to_multiset() == pool_names(pool@).to_multiset(),
{
    broadcast use vstd::seq_lib::group_to_multiset_ensures;
    broadcast use vstd::multiset::group_multiset_axioms;

    let mut work = pool;
    let mut out: Vec<(SerializedModule, Vec<u8>)> = Vec::new();
    proof {
        assert(out@.to_multiset().add(work@.to_multiset()) =~= work@.to_multiset());
        assert(pool_names(out@).to_multiset().add(pool_names(work@).to_multiset())
            =~= pool_names(work@).to_multiset());
    }
    while work.len() > 0
        invariant
            out@.to_multiset().add(work@.to_multiset()) == pool@.to_multiset(),
            pool_names(out@).to_multiset().add(pool_names(work@).to_multiset()) == pool_names(
                pool@,
            ).to_multiset(),
            sorted_by(pool_names(out@), lex_leq()),
            forall|x: int, y: int|
                0 <= x < out@.len() && 0 <= y < work@.len() ==> lex_le(out@[x].1@, work@[y].1@),
        decreases work@.len(),
    {
        let mut m: usize = 0;
        let mut j: usize = 1;
        proof {
            lemma_lex_le_refl(work@[0].1@);
        }
        while j < work.len()
            invariant
                m < j,
                j <= work@.len(),
                work@.len() > 0,
                forall|k: int| 0 <= k < j ==> lex_le(work@[m as int].1@, work@[k].1@),
            decreases work@.len() - j,
        {
            let keep = bytes_le(&work[m].1, &work[j].1);
            proof {
                lemma_lex_le_refl(work@[j as int].1@);
            }
            if !keep {
                proof {
                    lemma_lex_le_total(work@[m as int].1@, work@[j as int].1@);
                    assert forall|k: int| 0 <= k < j implies lex_le(
                        work@[j as int].1@,
                        work@[k].1@,
                    ) by {
                        lemma_lex_le_trans(work@[j as int].1@, work@[m as int].1@, work@[k].1@);
                    }
                    lemma_lex_le_refl(work@[j as int].1@);
                }
                m = j;
            }
            j = j + 1;
        }
        let ghost w = work@;
        let ghost o = out@;
        let e = work.remove(m);
        out.push(e);
        proof {
            w.to_multiset_ensures();
            o.to_multiset_ensures();
            assert(w.contains(w[m as int]));
            assert(w.to_multiset().count(w[m as int]) > 0);
            assert(out@ == o.push(e));
            assert(work@ == w.remove(m as int));
            assert(out@.to_multiset().add(work@.to_multiset()) =~= o.to_multiset().add(
                w.to_multiset(),
            ));
            let nw = pool_names(w);
            let no = pool_names(o);
            nw.to_multiset_ensures();
            no.to_multiset_ensures();
            assert(pool_names(out@) =~= no.push(e.1@));
            assert(pool_names(work@) =~= nw.remove(m as int));
            assert(nw.contains(nw[m as int]));
            assert(nw.to_multiset().count(nw[m as int]) > 0);
            assert(pool_names(out@).to_multiset().add(pool_names(work@).to_multiset())
                =~= no.to_multiset().add(nw.to_multiset()));
            assert forall|x: int, y: int|
                0 <= x < out@.len() && 0 <= y < work@.len() implies lex_le(
                out@[x].1@,
                work@[y].1@,
            ) by {
                assert(work@[y] == (if y < m as int {
                    w[y]
                } else {
                    w[y + 1]
                }));
            }
            assert(sorted_by(pool_names(out@), lex_leq()));
        }
    }
    proof {
        assert(work@.to_multiset() =~= Seq::<(SerializedModule, Vec<u8>)>::empty().to_multiset());
        assert(out@.to_multiset() =~= out@.to_multiset().add(work@.to_multiset()));
        assert(pool_names(work@) =~= Seq::<Seq<u8>>::empty());
        assert(pool_names(out@).to_multiset() =~= pool_names(out@).to_multiset().add(
            pool_names(work@).to_multiset(),
        ));
    }
    out
}

/// Determinism of the fold order: two sorted pools that hold the same
/// multiset of unit names fold the units in exactly the same name order,
/// whatever order each pool was accumulated in.
pub proof fn lemma_fold_order_deterministic(xs: Seq<Seq<u8>>, ys: Seq<Seq<u8>>)
    requires
        sorted_by(xs, lex_leq()),
        sorted_by(ys, lex_leq()),
        xs.to_multiset() == ys.to_multiset(),
    ensures
        xs == ys,
{
    lemma_lex_total_ordering();
    lemma_sorted_unique(xs, ys, lex_leq());
    assert(xs =~= ys);
}


/// The in-memory units among the merge inputs, in input order.
pub open spec fn in_memory_units(modules: Seq<FatLtoInput>) -> Seq<ModuleCodegen>
    decreases modules.len(),
{
    if modules.len() == 0 {
        Seq::empty()
    } else {
        let rest = in_memory_units(modules.drop_last());
        match modules.last() {
            FatLtoInput::InMemory(m) => rest.push(m),
            FatLtoInput::Serialized { .. } => rest,
        }
    }
}

/// The serialized merge inputs as pool entries, in input order.
pub open spec fn serialized_input_entries(modules: Seq<FatLtoInput>) -> Seq<
    (SerializedModule, Vec<u8>),
>
    decreases modules.len(),
{
    if modules.len() == 0 {
        Seq::empty()
    } else {
        let rest = serialized_input_entries(modules.drop_last());
        match modules.last() {
            FatLtoInput::InMemory(_) => rest,
            FatLtoInput::Serialized { name, buffer } => rest.push(
                (SerializedModule::Local(buffer), name),
            ),
        }
    }
}

/// The names of a list of in-memory units, in order.
pub open spec fn module_names(mods: Seq<ModuleCodegen>) -> Seq<Seq<u8>> {
    mods.map_values(|m: ModuleCodegen| m.name@)
}

/// The names of the in-memory units classified `Regular`, in order.
pub open spec fn regular_module_names(mods: Seq<ModuleCodegen>) -> Seq<Seq<u8>>
    decreases mods.len(),
{
    if mods.len() == 0 {
        Seq::empty()
    } else {
        let rest = regular_module_names(mods.drop_last());
        if mods.last().kind == ModuleKind::Regular {
            rest.push(mods.last().name@)
        } else {
            rest
        }
    }
}

/// Cached work products as pool entries, in order.
pub open spec fn cached_entries(cached: Seq<(SerializedModule, WorkProduct)>) -> Seq<
    (SerializedModule, Vec<u8>),
> {
    cached.map_values(|e: (SerializedModule, WorkProduct)| (e.0, e.1.cgu_name))
}

/// Every unit name the merge takes in, over all four input sources.
pub open spec fn all_input_names(
    modules: Seq<FatLtoInput>,
    cached: Seq<(SerializedModule, WorkProduct)>,
    upstream: Seq<(SerializedModule, Vec<u8>)>,
) -> Seq<Seq<u8>> {
    pool_names(upstream) + pool_names(cached_entries(cached)) + pool_names(
        serialized_input_entries(modules),
    ) + module_names(in_memory_units(modules))
}

/// Whether every serialized unit that arrived from outside this merge — from
/// the cache or from upstream archives — is of the `Local` provenance, the
/// only one folding supports.
pub open spec fn inputs_all_local(
    cached: Seq<(SerializedModule, WorkProduct)>,
    upstream: Seq<(SerializedModule, Vec<u8>)>,
) -> bool {
    (forall|i: int| 0 <= i < upstream.len() ==> upstream[i].0.is_local()) && (forall|i: int|
        0 <= i < cached.len() ==> cached[i].0.is_local())
}

/// The backing paths of a pool of serialized units, in order.
pub open spec fn pool_paths(pool: Seq<(SerializedModule, Vec<u8>)>) -> Seq<Seq<u8>> {
    pool.map_values(|e: (SerializedModule, Vec<u8>)| e.0.local_path())
}

/// Whether every unit of the pool is of `Local` provenance.
pub open spec fn pool_all_local(pool: Seq<(SerializedModule, Vec<u8>)>) -> bool {
    forall|i: int| 0 <= i < pool.len() ==> pool[i].0.is_local()
}

/// The paths a plan hands the driver to absorb, in plan order.
pub open spec fn driver_inputs(steps: Seq<Step>) -> Seq<Seq<u8>>
    decreases steps.len(),
{
    if steps.len() == 0 {
        Seq::empty()
    } else {
        let rest = driver_inputs(steps.drop_last());
        match steps.last() {
            Step::AddDriverInput(p) => rest.push(p@),
            _ => rest,
        }
    }
}

/// The (unit name, object path) pairs a plan asks to serialize, in plan
/// order.
pub open spec fn compiled_units(steps: Seq<Step>) -> Seq<(Seq<u8>, Seq<u8>)>
    decreases steps.len(),
{
    if steps.len() == 0 {
        Seq::empty()
    } else {
        let rest = compiled_units(steps.drop_last());
        match steps.last() {
            Step::CompileUnitToObject(n, p) => rest.push((n@, p@)),
            _ => rest,
        }
    }
}

proof fn lemma_plan_push(s: Seq<Step>, x: Step)
    ensures
        driver_inputs(s.push(x)) == (match x {
            Step::AddDriverInput(p) => driver_inputs(s).push(p@),
            _ => driver_inputs(s),
        }),
        compiled_units(s.push(x)) == (match x {
            Step::CompileUnitToObject(n, p) => compiled_units(s).push((n@, p@)),
            _ => compiled_units(s),
        }),
{
    assert(s.push(x).drop_last() =~= s);
    assert(s.push(x).last() == x);
}

/// Every `Regular` unit's name is among the regular names.
proof fn lemma_regular_names_complete(mods: Seq<ModuleCodegen>, j: int)
    requires
        0 <= j < mods.len(),
        mods[j].kind == ModuleKind::Regular,
    ensures
        spec_names_contain(regular_module_names(mods), mods[j].name@),
    decreases mods.len(),
{
    let regs = regular_module_names(mods);
    if j == mods.len() - 1 {
        assert(regs == regular_module_names(mods.drop_last()).push(mods[j].name@));
        assert(regs[regs.len() - 1] == mods[j].name@);
    } else {
        assert(mods.drop_last()[j] == mods[j]);
        lemma_regular_names_complete(mods.drop_last(), j);
        let rest = regular_module_names(mods.drop_last());
        let i = choose|i: int| 0 <= i < rest.len() && rest[i] == mods[j].name@;
        if mods.last().kind == ModuleKind::Regular {
            assert(regs[i] == mods[j].name@);
        } else {
            assert(regs[i] == mods[j].name@);
        }
    }
}

/// Every regular name belongs to some `Regular` unit.
proof fn lemma_regular_names_sound(mods: Seq<ModuleCodegen>, i: int)
    requires
        0 <= i < regular_module_names(mods).len(),
    ensures
        exists|j: int|
            0 <= j < mods.len() && mods[j].kind == ModuleKind::Regular && mods[j].name@
                == regular_module_names(mods)[i],
    decreases mods.len(),
{
    let regs = regular_module_names(mods);
    let rest = regular_module_names(mods.drop_last());
    if mods.last().kind == ModuleKind::Regular && i == regs.len() - 1 {
        assert(mods[mods.len() - 1].kind == ModuleKind::Regular && mods[mods.len() - 1].name@
            == regs[i]);
    } else {
        lemma_regular_names_sound(mods.drop_last(), i);
        let j = choose|j: int|
            0 <= j < mods.drop_last().len() && mods.drop_last()[j].kind == ModuleKind::Regular
                && mods.drop_last()[j].name@ == rest[i];
        assert(mods[j].kind == ModuleKind::Regular && mods[j].name@ == regs[i]);
    }
}

/// What a successful fat merge looks like: one `Regular` base unit holding
/// the whole program, every other unit folded in by name order.
pub struct FatLtoOutput {
    /// The base unit, now containing the whole program.
    pub module: ModuleCodegen,
    /// The folded blobs, retained so their backing storage is not released
    /// before final emission completes.
    pub serialized_bitcode: Vec<SerializedModule>,
    /// The temporary workspace, passed on so it outlives emission.
    pub workspace: MergeWorkspace,
    /// The instructions for the code generator, in order: serialize the
    /// remaining in-memory units, absorb every pooled unit, then restrict
    /// symbol visibility to the export set.
    pub steps: Vec<Step>,
    /// The serialized pool in fold order.
    pub fold_pool: Ghost<Seq<(SerializedModule, Vec<u8>)>>,
    /// The index of the base unit among the in-memory units, or -1 when the
    /// base was synthesized from the first pooled unit.
    pub base_index: Ghost<int>,
}


proof fn lemma_multiset_transfer<T>(a: Seq<T>, b: Seq<T>, x: T)
    requires
        a.to_multiset() == b.to_multiset(),
        a.contains(x),
    ensures
        b.contains(x),
{
    a.to_multiset_ensures();
    b.to_multiset_ensures();
    assert(a.to_multiset().count(x) > 0);
    assert(b.to_multiset().count(x) > 0);
}

proof fn lemma_pool_names_concat(a: Seq<(SerializedModule, Vec<u8>)>, b: Seq<
    (SerializedModule, Vec<u8>)>)
    ensures
        pool_names(a + b) == pool_names(a) + pool_names(b),
{
    assert(pool_names(a + b) =~= pool_names(a) + pool_names(b));
}

proof fn lemma_serialized_inputs_local(mods: Seq<FatLtoInput>)
    ensures
        forall|i: int|
            0 <= i < serialized_input_entries(mods).len() ==> (#[trigger] serialized_input_entries(
                mods,
            )[i]).0.is_local(),
    decreases mods.len(),
{
    if mods.len() > 0 {
        lemma_serialized_inputs_local(mods.drop_last());
        let rest = serialized_input_entries(mods.drop_last());
        match mods.last() {
            FatLtoInput::InMemory(_) => {
                assert(serialized_input_entries(mods) == rest);
            },
            FatLtoInput::Serialized { name, buffer } => {
                assert(serialized_input_entries(mods) == rest.push(
                    (SerializedModule::Local(buffer), name),
                ));
                assert(forall|i: int|
                    0 <= i < rest.len() ==> (#[trigger] serialized_input_entries(mods)[i])
                        == rest[i]);
            },
        }
    }
}

/// Performs the fat-LTO merge: selects a `Regular` base unit, arranges for
/// every other unit — in-memory or serialized — to be folded into it in
/// ascending name order, and restricts the merged unit's symbol visibility
/// to the export set. The fold order depends only on which units were given,
/// never on the order they arrived in.
///
/// The base is the in-memory `Regular` unit whose name sorts last: the cost
/// model rates every unit alike, so the tie-break by name keeps the choice
/// independent of discovery order. When no in-memory `Regular` unit exists,
/// the first pooled serialized unit is reparsed to synthesize a base.
#[verifier::loop_isolation(false)]
#[verifier::rlimit(100)]
pub fn fat_lto(
    cgcx: &CodegenContext,
    modules: Vec<FatLtoInput>,
    cached_modules: Vec<(SerializedModule, WorkProduct)>,
    upstream_modules: Vec<(SerializedModule, Vec<u8>)>,
    tmp_path: MergeWorkspace,
    symbols_below_threshold: &Vec<Vec<u8>>,
) -> (r: Result<FatLtoOutput, LtoError>)
    requires
        tmp_path.live(),
        regular_module_names(in_memory_units(modules@)).len() > 0 || upstream_modules@.len()
            + cached_modules@.len() + serialized_input_entries(modules@).len() > 0,
    ensures
        r matches Ok(out) ==> {
            let regs = regular_module_names(in_memory_units(modules@));
            let mems = in_memory_units(modules@);
            let all = all_input_names(modules@, cached_modules@, upstream_modules@);
            &&& out.module.kind == ModuleKind::Regular
            &&& spec_names_contain(all, out.module.name@)
            &&& (regs.len() > 0 ==> spec_names_contain(regs, out.module.name@) && (forall|i: int|
                0 <= i < regs.len() ==> lex_le(regs[i], out.module.name@)))
            &&& sorted_by(pool_names(out.fold_pool@), lex_leq())
            &&& pool_names(out.fold_pool@).to_multiset() == all.to_multiset().remove(
                out.module.name@,
            )
            &&& pool_all_local(out.fold_pool@)
            &&& out.workspace.root@ == tmp_path.root@
            &&& out.workspace.live()
            &&& out.steps@.len() > 0
            &&& (out.steps@.last() matches Step::RestrictVisibility(e) && names_view(e@)
                == names_view(symbols_below_threshold@))
            &&& (regs.len() > 0 ==> driver_inputs(out.steps@) == pool_paths(out.fold_pool@))
            &&& (regs.len() > 0 ==> out.serialized_bitcode@ == out.fold_pool@.map_values(
                |e: (SerializedModule, Vec<u8>)| e.0,
            ))
            &&& (regs.len() == 0 ==> driver_inputs(out.steps@).len() == pool_paths(
                out.fold_pool@,
            ).len() + 1 && driver_inputs(out.steps@).skip(1) == pool_paths(out.fold_pool@))
            &&& (regs.len() > 0 ==> {
                let bi = out.base_index@;
                &&& 0 <= bi < mems.len()
                &&& mems[bi].kind == ModuleKind::Regular
                &&& mems[bi].name@ == out.module.name@
                &&& compiled_units(out.steps@).len() == mems.len() - 1
                &&& (forall|t: int|
                    0 <= t < mems.len() - 1 ==> (#[trigger] compiled_units(out.steps@)[t]).0
                        == module_names(mems.remove(bi))[t] && compiled_units(out.steps@)[t].1
                        == spec_join_path(tmp_path.root@, module_names(mems.remove(bi))[t]))
            })
            &&& (forall|i: int|
                0 <= i < out.steps@.len() ==> !((#[trigger] out.steps@[i])
                    matches Step::ReleaseWorkspace))
            &&& out.workspace.files@.len() == tmp_path.files@.len() + compiled_units(
                out.steps@,
            ).len()
            &&& (forall|t: int|
                0 <= t < compiled_units(out.steps@).len() ==> out.workspace.files@[tmp_path.files@.len()
                    + t]@ == (#[trigger] compiled_units(out.steps@)[t]).1)
        },
        (r == Err::<FatLtoOutput, LtoError>(LtoError::UnsupportedProvenance)) <==> !inputs_all_local(
            cached_modules@,
            upstream_modules@,
        ),
        (r == Err::<FatLtoOutput, LtoError>(
            LtoError::Unsupported { op: UnsupportedOp::SaveTempBitcode },
        )) <==> (inputs_all_local(cached_modules@, upstream_modules@) && cgcx.save_temps),
        (r matches Ok(_)) <==> (inputs_all_local(cached_modules@, upstream_modules@)
            && !cgcx.save_temps),
{
    let ghost mods0 = modules@;
    let ghost cached0 = cached_modules@;
    let ghost up0 = upstream_modules@;
    let ghost mems = in_memory_units(mods0);
    let ghost regs = regular_module_names(mems);
    let ghost cat = up0 + cached_entries(cached0) + serialized_input_entries(mods0);
    let ghost ulen = up0.len() as int;
    let ghost blen = cached_entries(cached0).len() as int;

    // Everything serialized goes into one pool: the upstream units, the
    // cached work products under their unit names, and the serialized merge
    // inputs.
    let mut serialized = upstream_modules;
    let mut cached = cached_modules;
    while cached.len() > 0
        invariant
            cached@.len() <= cached0.len(),
            cached@ == cached0.skip(cached0.len() - cached@.len()),
            serialized@ == up0 + cached_entries(cached0.take(cached0.len() - cached@.len())),
        decreases cached@.len(),
    {
        let ghost k = cached0.len() - cached@.len();
        let pair = cached.remove(0);
        let (buf, wp) = pair;
        proof {
            assert(cached0.skip(k)[0] == cached0[k]);
        }
        serialized.push((buf, wp.cgu_name));
        proof {
            assert(cached@ =~= cached0.skip(k + 1));
            assert(cached_entries(cached0.take(k + 1)) =~= cached_entries(
                cached0.take(k),
            ).push((cached0[k].0, cached0[k].1.cgu_name)));
            assert(serialized@ =~= up0 + cached_entries(cached0.take(k + 1)));
        }
    }
    proof {
        assert(cached0.take(cached0.len() as int) =~= cached0);
    }

    let mut in_memory: Vec<ModuleCodegen> = Vec::new();
    let mut mods = modules;
    while mods.len() > 0
        invariant
            mods@.len() <= mods0.len(),
            mods@ == mods0.skip(mods0.len() - mods@.len()),
            serialized@ == up0 + cached_entries(cached0) + serialized_input_entries(
                mods0.take(mods0.len() - mods@.len()),
            ),
            in_memory@ == in_memory_units(mods0.take(mods0.len() - mods@.len())),
        decreases mods@.len(),
    {
        let ghost k = mods0.len() - mods@.len();
        proof {
            assert(mods0.skip(k)[0] == mods0[k]);
            assert(mods0.take(k + 1).drop_last() =~= mods0.take(k));
            assert(mods0.take(k + 1).last() == mods0[k]);
        }
        let input = mods.remove(0);
        match input {
            FatLtoInput::InMemory(m) => {
                in_memory.push(m);
            },
            FatLtoInput::Serialized { name, buffer } => {
                serialized.push((SerializedModule::Local(buffer), name));
            },
        }
        proof {
            assert(mods@ =~= mods0.skip(k + 1));
        }
    }
    proof {
        assert(mods0.take(mods0.len() as int) =~= mods0);
        assert(serialized@ == cat);
        assert(in_memory@ == mems);
    }
    // Every pool entry past the upstream and cached prefixes was built here
    // and is Local.
    proof {
        lemma_serialized_inputs_local(mods0);
        assert(forall|idx: int|
            ulen + blen <= idx < cat.len() ==> (#[trigger] cat[idx]).0.is_local());
    }

    // Select the base unit: the Regular in-memory unit whose name sorts
    // last.
    let mut found = false;
    let mut base_idx: usize = 0;
    let mut scan: usize = 0;
    while scan < in_memory.len()
        invariant
            in_memory@ == mems,
            scan <= mems.len(),
            found ==> base_idx < mems.len() && mems[base_idx as int].kind == ModuleKind::Regular,
            found ==> forall|j: int|
                0 <= j < scan && mems[j].kind == ModuleKind::Regular ==> lex_le(
                    mems[j].name@,
                    mems[base_idx as int].name@,
                ),
            !found ==> forall|j: int| 0 <= j < scan ==> mems[j].kind != ModuleKind::Regular,
        decreases mems.len() - scan,
    {
        if matches!(in_memory[scan].kind, ModuleKind::Regular) {
            if !found {
                found = true;
                base_idx = scan;
                proof {
                    lemma_lex_le_refl(mems[scan as int].name@);
                }
            } else {
                let keep = bytes_le(&in_memory[scan].name, &in_memory[base_idx].name);
                if !keep {
                    proof {
                        lemma_lex_le_total(mems[scan as int].name@, mems[base_idx as int].name@);
                        assert forall|j: int|
                            0 <= j < scan && mems[j].kind == ModuleKind::Regular implies lex_le(
                            mems[j].name@,
                            mems[scan as int].name@,
                        ) by {
                            lemma_lex_le_trans(
                                mems[j].name@,
                                mems[base_idx as int].name@,
                                mems[scan as int].name@,
                            );
                        }
                        lemma_lex_le_refl(mems[scan as int].name@);
                    }
                    base_idx = scan;
                }
            }
        }
        scan = scan + 1;
    }

    let mut steps: Vec<Step> = Vec::new();
    let mut serialized_bitcode: Vec<SerializedModule> = Vec::new();
    let mut tmp = tmp_path;
    let ghost mut consumed: int = 0;
    let ghost mut base_i: int = -1;
    let module: ModuleCodegen;
    if found {
        proof {
            base_i = base_idx as int;
            lemma_regular_names_complete(mems, base_i);
            assert forall|ii: int| 0 <= ii < regs.len() implies lex_le(
                regs[ii],
                mems[base_i].name@,
            ) by {
                lemma_regular_names_sound(mems, ii);
            }
        }
        module = in_memory.remove(base_idx);
    } else {
        proof {
            assert(regs.len() == 0) by {
                if regs.len() > 0 {
                    lemma_regular_names_sound(mems, 0);
                }
            }
            assert(cat.len() > 0);
        }
        let pair = serialized.remove(0);
        let (bc, name) = pair;
        match bc {
            SerializedModule::Local(buffer) => {
                let p = clone_bytes(&buffer.path);
                let st = Step::AddDriverInput(p);
                proof {
                    lemma_plan_push(steps@, st);
                }
                steps.push(st);
                serialized_bitcode.push(SerializedModule::Local(buffer));
                module = ModuleCodegen { name, kind: ModuleKind::Regular };
            },
            _ => {
                proof {
                    assert(!cat[0].0.is_local());
                    assert(0 < ulen + blen);
                    if 0 < ulen {
                        assert(up0[0].0 == cat[0].0);
                    } else {
                        assert(cached_entries(cached0)[0].0 == cat[0].0);
                        assert(cached0[0].0 == cat[0].0);
                    }
                }
                return Err(LtoError::UnsupportedProvenance);
            },
        }
        proof {
            consumed = 1;
        }
    }
    proof {
        if found {
            assert(serialized@ == cat);
        } else {
            assert(serialized@ =~= cat.skip(1));
        }
        assert(consumed == 0 || consumed == 1);
        assert(consumed == 1 ==> cat.len() > 0 && cat[0].0.is_local());
        assert(consumed == 0 ==> serialized@ == cat);
        assert(consumed == 1 ==> serialized@ == cat.skip(1));
    }

    // Serialize every remaining in-memory unit into the workspace, under its
    // own name, and pool it.
    let ghost dprime = in_memory@;
    let ghost s_pre_base = serialized@;
    let ghost f0 = tmp.files@;
    let ghost steps0 = steps@;
    let ghost bc0 = serialized_bitcode@;
    while in_memory.len() > 0
        invariant
            in_memory@.len() <= dprime.len(),
            in_memory@ == dprime.skip(dprime.len() - in_memory@.len()),
            tmp.live(),
            tmp.root@ == tmp_path.root@,
            serialized@.len() == s_pre_base.len() + dprime.len() - in_memory@.len(),
            forall|i: int| 0 <= i < s_pre_base.len() ==> serialized@[i] == s_pre_base[i],
            forall|t: int|
                0 <= t < dprime.len() - in_memory@.len() ==> {
                    let e = #[trigger] serialized@[s_pre_base.len() + t];
                    &&& e.0.is_local()
                    &&& e.1@ == dprime[t].name@
                    &&& e.0.local_path() == spec_join_path(tmp_path.root@, dprime[t].name@)
                },
            driver_inputs(steps@) == driver_inputs(steps0),
            serialized_bitcode@ == bc0,
            compiled_units(steps0).len() == 0,
            compiled_units(steps@).len() == dprime.len() - in_memory@.len(),
            forall|t: int|
                0 <= t < dprime.len() - in_memory@.len() ==> (#[trigger] compiled_units(
                    steps@,
                )[t]).0 == dprime[t].name@ && compiled_units(steps@)[t].1 == spec_join_path(
                    tmp_path.root@,
                    dprime[t].name@,
                ),
            forall|i: int|
                0 <= i < steps@.len() ==> !((#[trigger] steps@[i]) matches Step::ReleaseWorkspace),
            tmp.files@.len() == f0.len() + dprime.len() - in_memory@.len(),
            forall|i: int| 0 <= i < f0.len() ==> tmp.files@[i] == f0[i],
            forall|t: int|
                0 <= t < dprime.len() - in_memory@.len() ==> tmp.files@[f0.len() + t]@
                    == spec_join_path(tmp_path.root@, dprime[t].name@),
        decreases in_memory@.len(),
    {
        let ghost k = dprime.len() - in_memory@.len();
        proof {
            assert(dprime.skip(k)[0] == dprime[k]);
        }
        let m = in_memory.remove(0);
        let path = tmp.create_file(&m.name);
        let nm = clone_bytes(&m.name);
        let p2 = clone_bytes(&path);
        let st = Step::CompileUnitToObject(nm, p2);
        proof {
            lemma_plan_push(steps@, st);
        }
        steps.push(st);
        serialized.push((SerializedModule::Local(ModuleBuffer::new(path)), m.name));
        proof {
            assert(in_memory@ =~= dprime.skip(k + 1));
        }
    }

    // Sort the pool so the merge output cannot depend on discovery order.
    let ghost pre_sort = serialized@;
    proof {
        assert(pre_sort.len() == s_pre_base.len() + dprime.len());
        assert(forall|i: int| 0 <= i < s_pre_base.len() ==> pre_sort[i] == s_pre_base[i]);
        assert forall|idx: int|
            s_pre_base.len() <= idx < pre_sort.len() implies ((#[trigger] pre_sort[idx]).0.is_local()
                && pre_sort[idx].1@ == dprime[idx - s_pre_base.len()].name@
                && pre_sort[idx].0.local_path() == spec_join_path(
                tmp_path.root@,
                dprime[idx - s_pre_base.len()].name@,
            )) by {
            let t = idx - s_pre_base.len();
            assert(serialized@[s_pre_base.len() + t].0.is_local() && serialized@[s_pre_base.len()
                + t].1@ == dprime[t].name@);
        }
        assert(forall|i: int|
            0 <= i < s_pre_base.len() ==> pre_sort[i] == cat[i + consumed]);
    }
    let mut sorted = sort_modules_by_name(serialized);
    let ghost pool = sorted@;

    // Fold each pooled unit into the base, in sorted order.
    let ghost prefix_di = driver_inputs(steps@);
    let ghost compiled_final = compiled_units(steps@);
    while sorted.len() > 0
        invariant
            sorted@.len() <= pool.len(),
            sorted@ == pool.skip(pool.len() - sorted@.len()),
            pool.to_multiset() == pre_sort.to_multiset(),
            forall|t: int| 0 <= t < pool.len() - sorted@.len() ==> (#[trigger] pool[t]).0.is_local(),
            driver_inputs(steps@) == prefix_di + pool_paths(pool.take(pool.len() - sorted@.len())),
            serialized_bitcode@ == bc0 + pool.take(pool.len() - sorted@.len()).map_values(
                |e: (SerializedModule, Vec<u8>)| e.0,
            ),
            compiled_units(steps@) == compiled_final,
            forall|i: int|
                0 <= i < steps@.len() ==> !((#[trigger] steps@[i]) matches Step::ReleaseWorkspace),
        decreases sorted@.len(),
    {
        let ghost cnt = pool.len() - sorted@.len();
        proof {
            assert(pool.skip(cnt)[0] == pool[cnt]);
        }
        let pair = sorted.remove(0);
        let (bc, name) = pair;
        match bc {
            SerializedModule::Local(buffer) => {
                let p = clone_bytes(&buffer.path);
                let st = Step::AddDriverInput(p);
                proof {
                    lemma_plan_push(steps@, st);
                }
                steps.push(st);
                serialized_bitcode.push(SerializedModule::Local(buffer));
                proof {
                    assert(sorted@ =~= pool.skip(cnt + 1));
                    assert(pool_paths(pool.take(cnt + 1)) =~= pool_paths(pool.take(cnt)).push(
                        pool[cnt].0.local_path(),
                    ));
                    assert(driver_inputs(steps@) =~= prefix_di + pool_paths(pool.take(cnt + 1)));
                    assert(pool.take(cnt + 1).map_values(|e: (SerializedModule, Vec<u8>)| e.0)
                        =~= pool.take(cnt).map_values(
                        |e: (SerializedModule, Vec<u8>)| e.0,
                    ).push(pool[cnt].0));
                    assert(serialized_bitcode@ =~= bc0 + pool.take(cnt + 1).map_values(
                        |e: (SerializedModule, Vec<u8>)| e.0,
                    ));
                }
            },
            _ => {
                proof {
                    let bad = pool[cnt];
                    assert(pool.contains(bad));
                    lemma_multiset_transfer(pool, pre_sort, bad);
                    let i = choose|i: int| 0 <= i < pre_sort.len() && pre_sort[i] == bad;
                    assert(!bad.0.is_local());
                    assert(i < s_pre_base.len());
                    let i2 = i + consumed;
                    assert(cat[i2] == bad);
                    assert(i2 < ulen + blen);
                    if i2 < ulen {
                        assert(up0[i2].0 == bad.0);
                    } else {
                        assert(cached_entries(cached0)[i2 - ulen].0 == bad.0);
                        assert(cached0[i2 - ulen].0 == bad.0);
                    }
                }
                return Err(LtoError::UnsupportedProvenance);
            },
        }
    }
    proof {
        assert(pool.take(pool.len() as int) =~= pool);
    }
    // Every pool entry was Local, so every serialized input from the cache
    // or from upstream was too.
    proof {
        assert forall|i: int| 0 <= i < up0.len() implies (#[trigger] up0[i]).0.is_local() by {
            assert(cat[i] == up0[i]);
            if consumed == 0 {
                assert(pre_sort[i] == cat[i]);
                lemma_multiset_transfer(pre_sort, pool, pre_sort[i]);
            } else {
                if i == 0 {
                } else {
                    assert(pre_sort[i - 1] == cat[i]);
                    lemma_multiset_transfer(pre_sort, pool, pre_sort[i - 1]);
                }
            }
        }
        assert forall|i: int| 0 <= i < cached0.len() implies (#[trigger] cached0[i]).0.is_local() by {
            assert(cat[ulen + i] == cached_entries(cached0)[i]);
            assert(cat[ulen + i].0 == cached0[i].0);
            if consumed == 0 {
                assert(pre_sort[ulen + i] == cat[ulen + i]);
                lemma_multiset_transfer(pre_sort, pool, pre_sort[ulen + i]);
            } else {
                if ulen + i == 0 {
                } else {
                    assert(pre_sort[ulen + i - 1] == cat[ulen + i]);
                    lemma_multiset_transfer(pre_sort, pool, pre_sort[ulen + i - 1]);
                }
            }
        }
        assert(inputs_all_local(cached0, up0));
    }

    let label_input: Vec<u8> = vec![108u8, 116u8, 111u8, 46u8, 105u8, 110u8, 112u8, 117u8, 116u8];
    match save_temp_bitcode(cgcx, &module, &label_input) {
        Ok(_) => {},
        Err(e) => {
            return Err(e);
        },
    }

    // Internalize everything outside the export set, so final emission can
    // strip what the whole program no longer reaches.
    let exports = clone_names(symbols_below_threshold);
    let st = Step::RestrictVisibility(exports);
    proof {
        lemma_plan_push(steps@, st);
    }
    steps.push(st);

    let label_after: Vec<u8> = vec![
        108u8, 116u8, 111u8, 46u8, 97u8, 102u8, 116u8, 101u8, 114u8, 45u8, 114u8, 101u8, 115u8,
        116u8, 114u8, 105u8, 99u8, 116u8, 105u8, 111u8, 110u8,
    ];
    match save_temp_bitcode(cgcx, &module, &label_after) {
        Ok(_) => {},
        Err(e) => {
            proof {
                assert(false);
            }
            return Err(e);
        },
    }

    proof {
        // The folded pool's name multiset is every input name except the
        // base unit's.
        broadcast use vstd::seq_lib::group_to_multiset_ensures;
        broadcast use vstd::multiset::group_multiset_axioms;

        let all = all_input_names(mods0, cached0, up0);
        let mm = module_names(mems);
        lemma_pool_names_concat(up0 + cached_entries(cached0), serialized_input_entries(mods0));
        lemma_pool_names_concat(up0, cached_entries(cached0));
        assert(pool_names(cat) =~= pool_names(up0) + pool_names(cached_entries(cached0))
            + pool_names(serialized_input_entries(mods0)));
        assert(all =~= pool_names(cat) + mm);
        if found {
            assert(dprime == mems.remove(base_i));
            assert(pool_names(pre_sort) =~= pool_names(cat) + module_names(dprime));
            assert(module_names(dprime) =~= mm.remove(base_i));
            vstd::seq_lib::lemma_multiset_commutative(pool_names(cat), module_names(dprime));
            vstd::seq_lib::lemma_multiset_commutative(pool_names(cat), mm);
            mm.to_multiset_ensures();
            assert(mm.remove(base_i).to_multiset() == mm.to_multiset().remove(mm[base_i]));
            assert(mm.contains(mm[base_i]));
            assert(mm[base_i] == module.name@);
            assert(pool_names(pre_sort).to_multiset() =~= all.to_multiset().remove(module.name@));
            assert(pool_names(pool).to_multiset() == pool_names(pre_sort).to_multiset());
        } else {
            let catn = pool_names(cat);
            assert(pool_names(pre_sort) =~= pool_names(cat.skip(1)) + module_names(dprime));
            assert(dprime == mems);
            assert(pool_names(cat.skip(1)) =~= catn.skip(1));
            assert(catn.skip(1) =~= catn.remove(0));
            vstd::seq_lib::lemma_multiset_commutative(catn.remove(0), mm);
            vstd::seq_lib::lemma_multiset_commutative(catn, mm);
            catn.to_multiset_ensures();
            assert(catn.remove(0).to_multiset() == catn.to_multiset().remove(catn[0]));
            assert(catn.contains(catn[0]));
            assert(catn[0] == module.name@);
            assert(all[0] == catn[0]);
            assert(pool_names(pre_sort).to_multiset() =~= all.to_multiset().remove(module.name@));
            assert(pool_names(pool).to_multiset() == pool_names(pre_sort).to_multiset());
        }
        // The base unit's name is among the inputs.
        if found {
            assert(all[pool_names(cat).len() + base_i] == module.name@);
        } else {
            assert(all[0] == module.name@);
        }
    }

    let ghost final_pool = pool;
    proof {
        if found {
            assert(driver_inputs(steps@) =~= pool_paths(final_pool));
            assert(serialized_bitcode@ =~= final_pool.map_values(
                |e: (SerializedModule, Vec<u8>)| e.0,
            ));
        } else {
            assert(driver_inputs(steps@).skip(1) =~= pool_paths(final_pool));
        }
    }

    Ok(FatLtoOutput {
        module,
        serialized_bitcode,
        workspace: tmp,
        steps,
        fold_pool: Ghost(final_pool),
        base_index: Ghost(base_i),
    })
}


/// The archive members that hold serialized units, by the naming convention,
/// in archive order.
pub open spec fn spec_rust_members(members: Seq<(Seq<u8>, Seq<u8>)>) -> Seq<(Seq<u8>, Seq<u8>)>
    decreases members.len(),
{
    if members.len() == 0 {
        Seq::empty()
    } else {
        let rest = spec_rust_members(members.drop_last());
        if spec_looks_like_rust_object_file(members.last().0) {
            rest.push(members.last())
        } else {
            rest
        }
    }
}

/// Every embedded unit of every linked upstream crate, in crate order then
/// archive order.
pub open spec fn spec_all_rust_members(linked: Seq<LinkedRlib>) -> Seq<(Seq<u8>, Seq<u8>)>
    decreases linked.len(),
{
    if linked.len() == 0 {
        Seq::empty()
    } else {
        spec_all_rust_members(linked.drop_last()) + spec_rust_members(
            archive_members_of(linked.last().archive@),
        )
    }
}

/// One statically linked upstream crate, as the merge sees it: its export
/// table and the raw bytes of its archive file.
pub struct LinkedRlib {
    /// The crate's (symbol name, export info) table.
    pub exports: Vec<(Vec<u8>, SymbolExportInfo)>,
    /// The bytes of the crate's library archive.
    pub archive: Vec<u8>,
}

/// Extracts every embedded serialized unit of one upstream archive: each
/// member matching the naming convention becomes a file of the workspace, a
/// pending write of its bytes, and a `Local` unit under the member's name.
#[verifier::loop_isolation(false)]
fn load_rlib_modules(
    archive: &RlibArchive,
    tmp_path: &mut MergeWorkspace,
    upstream: &mut Vec<(SerializedModule, Vec<u8>)>,
    writes: &mut Vec<Step>,
) -> (r: Result<(), LtoError>)
    requires
        old(tmp_path).live(),
        archive_members(*archive).len() <= usize::MAX,
    ensures
        final(tmp_path).root@ == old(tmp_path).root@,
        final(tmp_path).live(),
        archive_members_ok(*archive) ==> r matches Ok(_),
        r matches Err(e) ==> !archive_members_ok(*archive) && (e == LtoError::ArchiveParse || (e
            matches LtoError::BitcodeFromArchive { .. })),
        r matches Ok(_) ==> {
            let ms = spec_rust_members(archive_members(*archive));
            let root = old(tmp_path).root@;
            &&& final(upstream)@.len() == old(upstream)@.len() + ms.len()
            &&& (forall|i: int|
                0 <= i < old(upstream)@.len() ==> final(upstream)@[i] == old(upstream)@[i])
            &&& (forall|t: int|
                0 <= t < ms.len() ==> {
                    let e = #[trigger] final(upstream)@[old(upstream)@.len() + t];
                    &&& e.0.is_local()
                    &&& e.1@ == ms[t].0
                    &&& e.0.local_path() == spec_join_path(root, ms[t].0)
                })
            &&& final(writes)@.len() == old(writes)@.len() + ms.len()
            &&& (forall|i: int|
                0 <= i < old(writes)@.len() ==> final(writes)@[i] == old(writes)@[i])
            &&& (forall|t: int|
                0 <= t < ms.len() ==> ((#[trigger] final(writes)@[old(writes)@.len() + t])
                    matches Step::WriteFile(p, b) && p@ == spec_join_path(root, ms[t].0) && b@
                    == ms[t].1))
            &&& final(tmp_path).files@.len() == old(tmp_path).files@.len() + ms.len()
            &&& (forall|i: int|
                0 <= i < old(tmp_path).files@.len() ==> final(tmp_path).files@[i] == old(
                    tmp_path,
                ).files@[i])
            &&& (forall|t: int|
                0 <= t < ms.len() ==> final(tmp_path).files@[old(tmp_path).files@.len() + t]@
                    == spec_join_path(root, ms[t].0))
        },
{
    let ghost all_m = archive_members(*archive);
    let ghost u0 = upstream@;
    let ghost w0 = writes@;
    let ghost f0 = tmp_path.files@;
    let ghost root = tmp_path.root@;
    let mut members = match collect_members(archive) {
        Ok(m) => m,
        Err(e) => {
            return Err(e);
        },
    };
    let ghost mtotal = members@.len() as int;
    proof {
        assert(pairs_view(members@) == all_m);
        assert(mtotal == all_m.len());
    }
    while members.len() > 0
        invariant
            members@.len() <= mtotal,
            pairs_view(members@) == all_m.skip(mtotal - members@.len()),
            tmp_path.live(),
            tmp_path.root@ == root,
            upstream@.len() == u0.len() + spec_rust_members(
                all_m.take(mtotal - members@.len()),
            ).len(),
            forall|i: int| 0 <= i < u0.len() ==> upstream@[i] == u0[i],
            forall|t: int|
                0 <= t < spec_rust_members(all_m.take(mtotal - members@.len())).len() ==> {
                    let ms = spec_rust_members(all_m.take(mtotal - members@.len()));
                    let e = #[trigger] upstream@[u0.len() + t];
                    &&& e.0.is_local()
                    &&& e.1@ == ms[t].0
                    &&& e.0.local_path() == spec_join_path(root, ms[t].0)
                },
            writes@.len() == w0.len() + spec_rust_members(all_m.take(mtotal - members@.len())).len(),
            forall|i: int| 0 <= i < w0.len() ==> writes@[i] == w0[i],
            forall|t: int|
                0 <= t < spec_rust_members(all_m.take(mtotal - members@.len())).len() ==> {
                    let ms = spec_rust_members(all_m.take(mtotal - members@.len()));
                    &&& (#[trigger] writes@[w0.len() + t]) matches Step::WriteFile(p, b)
                    &&& writes@[w0.len() + t] matches Step::WriteFile(p, b) ==> p@
                        == spec_join_path(root, ms[t].0) && b@ == ms[t].1
                },
            tmp_path.files@.len() == f0.len() + spec_rust_members(
                all_m.take(mtotal - members@.len()),
            ).len(),
            forall|i: int| 0 <= i < f0.len() ==> tmp_path.files@[i] == f0[i],
            forall|t: int|
                0 <= t < spec_rust_members(all_m.take(mtotal - members@.len())).len() ==> {
                    let ms = spec_rust_members(all_m.take(mtotal - members@.len()));
                    #[trigger] tmp_path.files@[f0.len() + t]@ == spec_join_path(root, ms[t].0)
                },
        decreases members@.len(),
    {
        let ghost k = mtotal - members@.len();
        proof {
            assert(pairs_view(members@)[0] == all_m.skip(k)[0]);
            assert(all_m.skip(k)[0] == all_m[k]);
            assert(all_m.take(k + 1).drop_last() =~= all_m.take(k));
            assert(all_m.take(k + 1).last() == all_m[k]);
        }
        let ghost before_m = members@;
        let pair = members.remove(0);
        let (name, bytes) = pair;
        proof {
            assert(name@ == all_m[k].0 && bytes@ == all_m[k].1);
        }
        if looks_like_rust_object_file(&name) {
            let path = tmp_path.create_file(&name);
            let p2 = clone_bytes(&path);
            writes.push(Step::WriteFile(p2, bytes));
            upstream.push((SerializedModule::Local(ModuleBuffer::new(path)), name));
        }
        proof {
            assert(members@ == before_m.remove(0));
            assert(pairs_view(members@) =~= pairs_view(before_m).remove(0));
            assert(all_m.skip(k).remove(0) =~= all_m.skip(k + 1));
        }
    }
    proof {
        assert(all_m.take(mtotal) =~= all_m);
    }
    Ok(())
}


/// The export threshold the session's LTO mode calls for: local thin LTO
/// keeps every Rust-level symbol of the one crate; whole-graph modes compute
/// the threshold from the full set of produced crate types.
pub open spec fn spec_export_threshold(cgcx: CodegenContext) -> SymbolExportLevel
    recommends
        cgcx.lto != Lto::No,
{
    if cgcx.lto == Lto::ThinLocal {
        SymbolExportLevel::Rust
    } else {
        spec_crates_export_threshold(cgcx.crate_types@)
    }
}

/// The names every linked upstream crate contributes to the export set, in
/// crate order then table order.
pub open spec fn spec_upstream_symbols(
    linked: Seq<LinkedRlib>,
    threshold: SymbolExportLevel,
) -> Seq<Seq<u8>>
    decreases linked.len(),
{
    if linked.len() == 0 {
        Seq::empty()
    } else {
        spec_upstream_symbols(linked.drop_last(), threshold) + spec_included_names(
            table_view(linked.last().exports@),
            threshold,
        )
    }
}

/// The whole export set of one merge: the current crate's surviving symbols,
/// those of every linked crate in whole-graph modes, and always the synthetic
/// runtime profiling symbol last.
pub open spec fn spec_export_set(
    cgcx: CodegenContext,
    local: Seq<(Vec<u8>, SymbolExportInfo)>,
    linked: Seq<LinkedRlib>,
) -> Seq<Seq<u8>> {
    let threshold = spec_export_threshold(cgcx);
    let base = spec_included_names(table_view(local), threshold);
    let with_upstream = if cgcx.lto == Lto::ThinLocal {
        base
    } else {
        base + spec_upstream_symbols(linked, threshold)
    };
    with_upstream.push(spec_profile_runtime_symbol())
}

/// Whether every linked upstream crate's archive can be read whole: its bytes
/// parse as an archive and every member of its table extracts. What the
/// loader does succeeds exactly on such inputs.
pub open spec fn spec_upstream_load_ok(linked: Seq<LinkedRlib>) -> bool {
    forall|i: int|
        0 <= i < linked.len() ==> archive_parse_ok((#[trigger] linked[i]).archive@)
            && archive_extract_ok(linked[i].archive@)
}

/// What `prepare_lto` hands the merge: the export set, the upstream units
/// pooled for folding, the workspace that owns their backing files, and the
/// writes that materialize them.
pub struct LtoData {
    /// Every symbol name that must stay externally visible after the merge.
    pub symbols_below_threshold: Vec<Vec<u8>>,
    /// The units extracted from upstream archives, each under its member
    /// name.
    pub upstream_modules: Vec<(SerializedModule, Vec<u8>)>,
    /// The scoped temporary directory owning every extracted blob's file.
    pub tmp_path: MergeWorkspace,
    /// The pending file writes that put each extracted blob on disk.
    pub writes: Vec<Step>,
}

/// Prepares one merge: checks the configuration fast — before any archive is
/// touched or the temporary directory exists — then builds the export set
/// and extracts every embedded unit of every linked upstream crate. The
/// synthetic runtime profiling symbol is always in the export set, whatever
/// the crates export. Succeeds whenever the configuration is sound and — in
/// whole-graph modes — every linked archive can be read whole; fails only
/// with the configuration's own fault or the distinct archive errors.
#[verifier::loop_isolation(false)]
pub fn prepare_lto(
    cgcx: &CodegenContext,
    exported_symbols: &Vec<(Vec<u8>, SymbolExportInfo)>,
    each_linked_rlib_for_lto: &Vec<LinkedRlib>,
    tmp_root: Vec<u8>,
) -> (r: Result<LtoData, LtoError>)
    requires
        cgcx.lto != Lto::No,
    ensures
        spec_config_error(*cgcx) matches Some(e) ==> r == Err::<LtoData, LtoError>(e),
        (spec_config_error(*cgcx) is None && (cgcx.lto == Lto::ThinLocal || spec_upstream_load_ok(
            each_linked_rlib_for_lto@,
        ))) ==> r matches Ok(_),
        r matches Err(e) ==> (spec_config_error(*cgcx) is Some || (cgcx.lto != Lto::ThinLocal
            && !spec_upstream_load_ok(each_linked_rlib_for_lto@) && (e == LtoError::ArchiveParse
            || (e matches LtoError::BitcodeFromArchive { .. })))),
        r matches Ok(data) ==> {
            let ms = if cgcx.lto == Lto::ThinLocal {
                Seq::<(Seq<u8>, Seq<u8>)>::empty()
            } else {
                spec_all_rust_members(each_linked_rlib_for_lto@)
            };
            &&& spec_config_error(*cgcx) is None
            &&& names_view(data.symbols_below_threshold@) == spec_export_set(
                *cgcx,
                exported_symbols@,
                each_linked_rlib_for_lto@,
            )
            &&& spec_names_contain(
                names_view(data.symbols_below_threshold@),
                spec_profile_runtime_symbol(),
            )
            &&& data.tmp_path.root@ == tmp_root@
            &&& data.tmp_path.live()
            &&& data.upstream_modules@.len() == ms.len()
            &&& (forall|t: int|
                0 <= t < ms.len() ==> {
                    let e = #[trigger] data.upstream_modules@[t];
                    &&& e.0.is_local()
                    &&& e.1@ == ms[t].0
                    &&& e.0.local_path() == spec_join_path(tmp_root@, ms[t].0)
                })
            &&& data.writes@.len() == ms.len()
            &&& (forall|t: int|
                0 <= t < ms.len() ==> ((#[trigger] data.writes@[t]) matches Step::WriteFile(p, b)
                    && p@ == spec_join_path(tmp_root@, ms[t].0) && b@ == ms[t].1))
            &&& data.tmp_path.files@.len() == ms.len()
            &&& (forall|t: int|
                0 <= t < ms.len() ==> (#[trigger] data.tmp_path.files@[t])@ == spec_join_path(
                    tmp_root@,
                    ms[t].0,
                ))
        },
{
    let ghost root0 = tmp_root@;
    let ghost linked0 = each_linked_rlib_for_lto@;
    let export_threshold = if matches!(cgcx.lto, Lto::ThinLocal) {
        SymbolExportLevel::Rust
    } else {
        crates_export_threshold(&cgcx.crate_types)
    };

    // A misconfigured build fails here, before any file I/O and before the
    // temporary directory is created.
    match check_lto_config(cgcx) {
        Ok(_) => {},
        Err(e) => {
            return Err(e);
        },
    }

    let mut symbols_below_threshold: Vec<Vec<u8>> = Vec::new();
    push_symbols_below_threshold(&mut symbols_below_threshold, exported_symbols, export_threshold);
    let ghost local_names = names_view(symbols_below_threshold@);

    let mut tmp_path = MergeWorkspace::new(tmp_root);
    let mut upstream_modules: Vec<(SerializedModule, Vec<u8>)> = Vec::new();
    let mut writes: Vec<Step> = Vec::new();

    if !matches!(cgcx.lto, Lto::ThinLocal) {
        let mut ci: usize = 0;
        while ci < each_linked_rlib_for_lto.len()
            invariant
                ci <= linked0.len(),
                tmp_path.live(),
                tmp_path.root@ == root0,
                names_view(symbols_below_threshold@) == local_names + spec_upstream_symbols(
                    linked0.take(ci as int),
                    export_threshold,
                ),
                upstream_modules@.len() == spec_all_rust_members(linked0.take(ci as int)).len(),
                forall|t: int|
                    0 <= t < spec_all_rust_members(linked0.take(ci as int)).len() ==> {
                        let ms = spec_all_rust_members(linked0.take(ci as int));
                        let e = #[trigger] upstream_modules@[t];
                        &&& e.0.is_local()
                        &&& e.1@ == ms[t].0
                        &&& e.0.local_path() == spec_join_path(root0, ms[t].0)
                    },
                writes@.len() == spec_all_rust_members(linked0.take(ci as int)).len(),
                forall|t: int|
                    0 <= t < spec_all_rust_members(linked0.take(ci as int)).len() ==> ((
                    #[trigger] writes@[t]) matches Step::WriteFile(p, b) && p@ == spec_join_path(
                        root0,
                        spec_all_rust_members(linked0.take(ci as int))[t].0,
                    ) && b@ == spec_all_rust_members(linked0.take(ci as int))[t].1),
                tmp_path.files@.len() == spec_all_rust_members(linked0.take(ci as int)).len(),
                forall|t: int|
                    0 <= t < spec_all_rust_members(linked0.take(ci as int)).len() ==> (
                    #[trigger] tmp_path.files@[t])@ == spec_join_path(
                        root0,
                        spec_all_rust_members(linked0.take(ci as int))[t].0,
                    ),
            decreases linked0.len() - ci,
        {
            proof {
                assert(linked0.take(ci + 1 as int).drop_last() =~= linked0.take(ci as int));
                assert(linked0.take(ci + 1 as int).last() == linked0[ci as int]);
            }
            let linked = &each_linked_rlib_for_lto[ci];
            push_symbols_below_threshold(
                &mut symbols_below_threshold,
                &linked.exports,
                export_threshold,
            );
            let data = clone_bytes(&linked.archive);
            let archive = match RlibArchive::parse(data) {
                Ok(a) => a,
                Err(e) => {
                    proof {
                        assert(!archive_parse_ok(linked0[ci as int].archive@));
                    }
                    return Err(e);
                },
            };
            let ghost u_prev = upstream_modules@;
            let ghost w_prev = writes@;
            let ghost f_prev = tmp_path.files@;
            match load_rlib_modules(&archive, &mut tmp_path, &mut upstream_modules, &mut writes) {
                Ok(_) => {},
                Err(e) => {
                    proof {
                        assert(!archive_extract_ok(linked0[ci as int].archive@));
                    }
                    return Err(e);
                },
            }
            proof {
                let prev = spec_all_rust_members(linked0.take(ci as int));
                let msnew = spec_rust_members(archive_members(archive));
                assert(msnew == spec_rust_members(
                    archive_members_of(linked0[ci as int].archive@),
                ));
                assert(spec_all_rust_members(linked0.take(ci + 1 as int)) == prev + msnew);
                let comb = prev + msnew;
                assert(upstream_modules@.len() == comb.len());
                assert forall|t: int| 0 <= t < comb.len() implies {
                    let e = #[trigger] upstream_modules@[t];
                    &&& e.0.is_local()
                    &&& e.1@ == comb[t].0
                    &&& e.0.local_path() == spec_join_path(root0, comb[t].0)
                } by {
                    if t < prev.len() {
                        assert(upstream_modules@[t] == u_prev[t]);
                    } else {
                        let t2 = t - prev.len();
                        let e2 = upstream_modules@[u_prev.len() + t2];
                        assert(e2.0.is_local() && e2.1@ == msnew[t2].0 && e2.0.local_path()
                            == spec_join_path(root0, msnew[t2].0));
                        assert(comb[t] == msnew[t2]);
                    }
                }
                assert forall|t: int| 0 <= t < comb.len() implies ((#[trigger] writes@[t])
                    matches Step::WriteFile(p, b) && p@ == spec_join_path(root0, comb[t].0) && b@
                    == comb[t].1) by {
                    if t < prev.len() {
                        assert(writes@[t] == w_prev[t]);
                    } else {
                        let t2 = t - prev.len();
                        assert((writes@[w_prev.len() + t2]) matches Step::WriteFile(p, b) && p@
                            == spec_join_path(root0, msnew[t2].0) && b@ == msnew[t2].1);
                        assert(comb[t] == msnew[t2]);
                    }
                }
                assert forall|t: int| 0 <= t < comb.len() implies (
                #[trigger] tmp_path.files@[t])@ == spec_join_path(root0, comb[t].0) by {
                    if t < prev.len() {
                        assert(tmp_path.files@[t] == f_prev[t]);
                    } else {
                        let t2 = t - prev.len();
                        assert(tmp_path.files@[f_prev.len() + t2]@ == spec_join_path(
                            root0,
                            msnew[t2].0,
                        ));
                        assert(comb[t] == msnew[t2]);
                    }
                }
            }
            ci = ci + 1;
        }
        proof {
            assert(linked0.take(linked0.len() as int) =~= linked0);
        }
    }

    // The runtime profiling symbol is pulled in by an undefined reference at
    // final link time, so its visibility cannot be decided here: always keep
    // it exported.
    let ghost pre_profile = names_view(symbols_below_threshold@);
    let profile = profile_runtime_symbol();
    symbols_below_threshold.push(profile);
    proof {
        assert(names_view(symbols_below_threshold@) =~= pre_profile.push(
            spec_profile_runtime_symbol(),
        ));
        let set = names_view(symbols_below_threshold@);
        assert(set[set.len() - 1] == spec_profile_runtime_symbol());
    }

    Ok(LtoData { symbols_below_threshold, upstream_modules, tmp_path, writes })
}


proof fn lemma_plan_concat(a: Seq<Step>, b: Seq<Step>)
    ensures
        driver_inputs(a + b) == driver_inputs(a) + driver_inputs(b),
        compiled_units(a + b) == compiled_units(a) + compiled_units(b),
    decreases b.len(),
{
    if b.len() == 0 {
        assert(a + b =~= a);
        assert(driver_inputs(a) + driver_inputs(b) =~= driver_inputs(a));
        assert(compiled_units(a) + compiled_units(b) =~= compiled_units(a));
    } else {
        lemma_plan_concat(a, b.drop_last());
        assert((a + b).drop_last() =~= a + b.drop_last());
        assert((a + b).last() == b.last());
        match b.last() {
            Step::AddDriverInput(p) => {
                assert(driver_inputs(a) + driver_inputs(b) =~= (driver_inputs(a)
                    + driver_inputs(b.drop_last())).push(p@));
                assert(compiled_units(a) + compiled_units(b) =~= compiled_units(a)
                    + compiled_units(b.drop_last()));
            },
            Step::CompileUnitToObject(n, p) => {
                assert(compiled_units(a) + compiled_units(b) =~= (compiled_units(a)
                    + compiled_units(b.drop_last())).push((n@, p@)));
                assert(driver_inputs(a) + driver_inputs(b) =~= driver_inputs(a) + driver_inputs(
                    b.drop_last(),
                ));
            },
            _ => {
                assert(driver_inputs(a) + driver_inputs(b) =~= driver_inputs(a) + driver_inputs(
                    b.drop_last(),
                ));
                assert(compiled_units(a) + compiled_units(b) =~= compiled_units(a)
                    + compiled_units(b.drop_last()));
            },
        }
    }
}

proof fn lemma_writes_plan(w: Seq<Step>)
    requires
        forall|t: int| 0 <= t < w.len() ==> (#[trigger] w[t]) matches Step::WriteFile(_, _),
    ensures
        driver_inputs(w).len() == 0,
        compiled_units(w).len() == 0,
    decreases w.len(),
{
    if w.len() > 0 {
        assert(forall|t: int|
            0 <= t < w.drop_last().len() ==> (#[trigger] w.drop_last()[t]) matches Step::WriteFile(
                _,
                _,
            ));
        lemma_writes_plan(w.drop_last());
    }
}

/// The names of a list of extracted members, in order.
pub open spec fn member_names(ms: Seq<(Seq<u8>, Seq<u8>)>) -> Seq<Seq<u8>> {
    ms.map_values(|m: (Seq<u8>, Seq<u8>)| m.0)
}

/// Whether every cached work product is of the `Local` provenance — the only
/// serialized inputs a whole merge starting from upstream archives can still
/// refuse, since everything the loader pools is `Local` by construction.
pub open spec fn cached_modules_local(cached: Seq<(SerializedModule, WorkProduct)>) -> bool {
    forall|i: int| 0 <= i < cached.len() ==> (#[trigger] cached[i]).0.is_local()
}

/// Every unit name one whole fat merge takes in: the embedded units of the
/// linked crates, the cached work products, and the serialized and in-memory
/// merge inputs.
pub open spec fn spec_run_fat_input_names(
    cgcx: CodegenContext,
    modules: Seq<FatLtoInput>,
    cached: Seq<(SerializedModule, WorkProduct)>,
    linked: Seq<LinkedRlib>,
) -> Seq<Seq<u8>> {
    let ms = if cgcx.lto == Lto::ThinLocal {
        Seq::<(Seq<u8>, Seq<u8>)>::empty()
    } else {
        spec_all_rust_members(linked)
    };
    member_names(ms) + pool_names(cached_entries(cached)) + pool_names(
        serialized_input_entries(modules),
    ) + module_names(in_memory_units(modules))
}

/// Performs fat LTO end to end: prepares the export set and the upstream
/// units — failing fast on a bad configuration, before any file is touched —
/// then merges every unit into one `Regular` base unit, folding in ascending
/// name order. The returned plan begins with the writes that put the
/// extracted blobs on disk, and ends with the visibility restriction to the
/// export set, which always includes the synthetic runtime profiling symbol.
/// Succeeds whenever the configuration is sound, the linked archives read
/// whole, every cached unit is `Local` and no bitcode snapshots were asked
/// for; each failure carries the fault that caused it.
#[verifier::loop_isolation(false)]
pub fn run_fat(
    cgcx: &CodegenContext,
    modules: Vec<FatLtoInput>,
    cached_modules: Vec<(SerializedModule, WorkProduct)>,
    exported_symbols: &Vec<(Vec<u8>, SymbolExportInfo)>,
    each_linked_rlib_for_lto: &Vec<LinkedRlib>,
    tmp_root: Vec<u8>,
) -> (r: Result<FatLtoOutput, LtoError>)
    requires
        cgcx.lto != Lto::No,
        regular_module_names(in_memory_units(modules@)).len() > 0 || cached_modules@.len()
            + serialized_input_entries(modules@).len() > 0,
    ensures
        spec_config_error(*cgcx) matches Some(e) ==> r == Err::<FatLtoOutput, LtoError>(e),
        (spec_config_error(*cgcx) is None && (cgcx.lto == Lto::ThinLocal || spec_upstream_load_ok(
            each_linked_rlib_for_lto@,
        )) && cached_modules_local(cached_modules@) && !cgcx.save_temps) ==> r matches Ok(_),
        r matches Err(e) ==> (spec_config_error(*cgcx) matches Some(e0) && e == e0) || (
        spec_config_error(*cgcx) is None && ((cgcx.lto != Lto::ThinLocal && !spec_upstream_load_ok(
            each_linked_rlib_for_lto@,
        ) && (e == LtoError::ArchiveParse || (e matches LtoError::BitcodeFromArchive { .. }))) || (
        e == LtoError::UnsupportedProvenance && !cached_modules_local(cached_modules@)) || (e == (
        LtoError::Unsupported { op: UnsupportedOp::SaveTempBitcode }) && cached_modules_local(
            cached_modules@,
        ) && cgcx.save_temps))),
        r matches Ok(out) ==> {
            let regs = regular_module_names(in_memory_units(modules@));
            let all = spec_run_fat_input_names(
                *cgcx,
                modules@,
                cached_modules@,
                each_linked_rlib_for_lto@,
            );
            &&& spec_config_error(*cgcx) is None
            &&& out.module.kind == ModuleKind::Regular
            &&& spec_names_contain(all, out.module.name@)
            &&& (regs.len() > 0 ==> spec_names_contain(regs, out.module.name@) && (forall|i: int|
                0 <= i < regs.len() ==> lex_le(regs[i], out.module.name@)))
            &&& sorted_by(pool_names(out.fold_pool@), lex_leq())
            &&& pool_names(out.fold_pool@).to_multiset() == all.to_multiset().remove(
                out.module.name@,
            )
            &&& pool_all_local(out.fold_pool@)
            &&& out.workspace.root@ == tmp_root@
            &&& out.workspace.live()
            &&& out.steps@.len() > 0
            &&& (out.steps@.last() matches Step::RestrictVisibility(e) && names_view(e@)
                == spec_export_set(*cgcx, exported_symbols@, each_linked_rlib_for_lto@))
            &&& spec_names_contain(
                spec_export_set(*cgcx, exported_symbols@, each_linked_rlib_for_lto@),
                spec_profile_runtime_symbol(),
            )
            &&& (regs.len() > 0 ==> driver_inputs(out.steps@) == pool_paths(out.fold_pool@))
            &&& (forall|i: int|
                0 <= i < out.steps@.len() ==> !((#[trigger] out.steps@[i])
                    matches Step::ReleaseWorkspace))
        },
{
    let ghost linked0 = each_linked_rlib_for_lto@;
    let ghost mods0 = modules@;
    let ghost cached0 = cached_modules@;
    let data = match prepare_lto(cgcx, exported_symbols, each_linked_rlib_for_lto, tmp_root) {
        Ok(d) => d,
        Err(e) => {
            return Err(e);
        },
    };
    let LtoData { symbols_below_threshold, upstream_modules, tmp_path, writes } = data;
    let ghost up0v = upstream_modules@;
    let ghost writes0 = writes@;
    proof {
        let ms = if cgcx.lto == Lto::ThinLocal {
            Seq::<(Seq<u8>, Seq<u8>)>::empty()
        } else {
            spec_all_rust_members(linked0)
        };
        assert(pool_names(up0v) =~= member_names(ms));
        assert(spec_run_fat_input_names(*cgcx, mods0, cached0, linked0) =~= all_input_names(
            mods0,
            cached0,
            up0v,
        ));
    }
    let mut out = match fat_lto(
        cgcx,
        modules,
        cached_modules,
        upstream_modules,
        tmp_path,
        &symbols_below_threshold,
    ) {
        Ok(o) => o,
        Err(e) => {
            proof {
                // Every extracted upstream unit is Local, so the provenance
                // condition reduces to the cached work products.
                assert(inputs_all_local(cached0, up0v) == cached_modules_local(cached0));
            }
            return Err(e);
        },
    };
    let ghost fat_steps = out.steps@;
    let mut all_steps = writes;
    all_steps.append(&mut out.steps);
    proof {
        assert(all_steps@ == writes0 + fat_steps);
        lemma_plan_concat(writes0, fat_steps);
        lemma_writes_plan(writes0);
        assert(driver_inputs(all_steps@) =~= driver_inputs(fat_steps));
        assert(all_steps@.last() == fat_steps.last());
        assert forall|i: int| 0 <= i < all_steps@.len() implies !((#[trigger] all_steps@[i])
            matches Step::ReleaseWorkspace) by {
            if i < writes0.len() {
                assert(writes0[i] matches Step::WriteFile(_, _));
            } else {
                assert(all_steps@[i] == fat_steps[i - writes0.len()]);
            }
        }
    }
    out.steps = all_steps;
    Ok(out)
}


#[verifier::rlimit(100)]
proof fn lemma_codegen_plan_no_release(
    config: ModuleConfig,
    dumps: DumpConfig,
    combine_mode: bool,
    bc_out: Seq<u8>,
    obj_out: Seq<u8>,
    asm_out: Seq<u8>,
    name: Seq<u8>,
)
    ensures
        forall|i: int|
            0 <= i < spec_codegen_plan(config, dumps, combine_mode, bc_out, obj_out, asm_out,
                name,
            ).len() ==> !((#[trigger] spec_codegen_plan(
                config,
                dumps,
                combine_mode,
                bc_out,
                obj_out,
                asm_out,
                name,
            )[i]) matches PlanStep::ReleaseWorkspace),
{
    let p1 = spec_bc_part(config, bc_out);
    let p2 = spec_embed_part(config, bc_out);
    let p3 = spec_asm_part(config, asm_out);
    let p4 = spec_obj_part(config, dumps, combine_mode, bc_out, obj_out, name);
    let pd = spec_dump_steps(dumps, name);
    assert(forall|i: int|
        0 <= i < p1.len() ==> !((#[trigger] p1[i]) matches PlanStep::ReleaseWorkspace));
    assert(forall|i: int|
        0 <= i < p2.len() ==> !((#[trigger] p2[i]) matches PlanStep::ReleaseWorkspace));
    assert(forall|i: int|
        0 <= i < p3.len() ==> !((#[trigger] p3[i]) matches PlanStep::ReleaseWorkspace));
    assert(forall|i: int|
        0 <= i < pd.len() ==> !((#[trigger] pd[i]) matches PlanStep::ReleaseWorkspace));
    assert(forall|i: int|
        0 <= i < p4.len() ==> !((#[trigger] p4[i]) matches PlanStep::ReleaseWorkspace));
    assert(spec_codegen_plan(config, dumps, combine_mode, bc_out, obj_out, asm_out, name) == p1
        + p2 + p3 + p4);
}

/// Runs one whole-program merge and the merged unit's emission as a single
/// plan, with the temporary workspace owned across both stages. Its storage
/// is released only by the very last step of the plan, after every artifact
/// of the merged unit has been written: no step ever reads a workspace file
/// after the release, and no earlier step releases anything. The plan is the
/// merge — ending with the visibility restriction to the export set —
/// followed by exactly the merged unit's emission plan, then the release.
#[verifier::loop_isolation(false)]
#[verifier::rlimit(60)]
pub fn merge_and_emit(
    cgcx: &CodegenContext,
    modules: Vec<FatLtoInput>,
    cached_modules: Vec<(SerializedModule, WorkProduct)>,
    exported_symbols: &Vec<(Vec<u8>, SymbolExportInfo)>,
    each_linked_rlib_for_lto: &Vec<LinkedRlib>,
    tmp_root: Vec<u8>,
    config: &ModuleConfig,
    dumps: &DumpConfig,
    paths: &OutputPaths,
    combine_mode: bool,
) -> (r: Result<(Vec<Step>, CompiledModule), LtoError>)
    requires
        cgcx.lto != Lto::No,
        regular_module_names(in_memory_units(modules@)).len() > 0 || cached_modules@.len()
            + serialized_input_entries(modules@).len() > 0,
    ensures
        spec_config_error(*cgcx) matches Some(e) ==> r == Err::<(Vec<Step>, CompiledModule),
            LtoError,
        >(e),
        (spec_config_error(*cgcx) is None && (cgcx.lto == Lto::ThinLocal || spec_upstream_load_ok(
            each_linked_rlib_for_lto@,
        )) && cached_modules_local(cached_modules@) && !cgcx.save_temps && !(combine_mode
            && config.spec_bitcode_needed()) && !config.emit_ir) ==> r matches Ok(_),
        r matches Ok(out) ==> {
            let regs = regular_module_names(in_memory_units(modules@));
            let emit = spec_codegen_plan(
                *config,
                *dumps,
                combine_mode,
                paths.bc_out@,
                paths.obj_out@,
                paths.asm_out@,
                out.1.name@,
            );
            let n = out.0@.len();
            &&& n >= emit.len() + 2
            &&& out.0@.last() == Step::ReleaseWorkspace
            &&& (forall|i: int|
                0 <= i < n - 1 ==> !((#[trigger] out.0@[i]) matches Step::ReleaseWorkspace))
            &&& plan_view(out.0@).subrange(n - 1 - emit.len(), n - 1) == emit
            &&& (plan_view(out.0@)[n - 2 - emit.len()] matches PlanStep::RestrictVisibility(ex)
                && ex == spec_export_set(*cgcx, exported_symbols@, each_linked_rlib_for_lto@))
            &&& (regs.len() > 0 ==> spec_names_contain(regs, out.1.name@) && (forall|i: int|
                0 <= i < regs.len() ==> lex_le(regs[i], out.1.name@)))
            &&& (config.emit_obj != EmitObj::NoObject ==> (out.1.object matches Some(p) && p@
                == paths.obj_out@))
            &&& (config.emit_obj == EmitObj::NoObject ==> out.1.object is None)
            &&& (config.emit_bc ==> (out.1.bytecode matches Some(p) && p@ == paths.bc_out@))
            &&& (!config.emit_bc ==> out.1.bytecode is None)
            &&& (config.emit_asm ==> (out.1.assembly matches Some(p) && p@ == paths.asm_out@))
            &&& (!config.emit_asm ==> out.1.assembly is None)
            &&& out.1.dwarf_object == (cgcx.target_can_use_split_dwarf && cgcx.split_debuginfo
                == SplitDebuginfo::Unpacked)
        },
{
    let merged = match run_fat(
        cgcx,
        modules,
        cached_modules,
        exported_symbols,
        each_linked_rlib_for_lto,
        tmp_root,
    ) {
        Ok(m) => m,
        Err(e) => {
            return Err(e);
        },
    };
    // The folded blobs' backing files are tracked by the workspace ledger
    // here; the buffers themselves are not needed once the plan is written.
    let FatLtoOutput {
        module,
        serialized_bitcode: _serialized_bitcode,
        workspace,
        steps,
        fold_pool: _fold_pool,
        base_index: _base_index,
    } = merged;
    let ghost merge_steps = steps@;
    let (emit_steps, compiled) = match codegen(cgcx, module, config, dumps, paths, combine_mode) {
        Ok(p) => p,
        Err(e) => {
            return Err(e);
        },
    };
    let ghost emit0 = emit_steps@;
    let mut all_steps = steps;
    let mut emit_steps = emit_steps;
    all_steps.append(&mut emit_steps);
    // The merged unit is fully emitted: the workspace's files may go away
    // now, and only now.
    let mut workspace = workspace;
    workspace.release();
    all_steps.push(Step::ReleaseWorkspace);
    proof {
        lemma_codegen_plan_no_release(
            *config,
            *dumps,
            combine_mode,
            paths.bc_out@,
            paths.obj_out@,
            paths.asm_out@,
            module.name@,
        );
        assert forall|i: int| 0 <= i < all_steps@.len() - 1 implies !((#[trigger] all_steps@[i])
            matches Step::ReleaseWorkspace) by {
            if i < merge_steps.len() {
                assert(all_steps@[i] == merge_steps[i]);
            } else {
                assert(all_steps@[i] == emit0[i - merge_steps.len()]);
                assert(plan_view(emit0)[i - merge_steps.len()] == step_view(
                    emit0[i - merge_steps.len()],
                ));
            }
        }
        // The plan is the merge, the emission plan, the release, in order.
        let pv = plan_view(all_steps@);
        let emit = plan_view(emit0);
        let n = all_steps@.len() as int;
        assert(pv =~= plan_view(merge_steps) + emit + seq![PlanStep::ReleaseWorkspace]);
        assert(pv.subrange(n - 1 - emit.len(), n - 1) =~= emit);
        assert(merge_steps.last() == all_steps@[merge_steps.len() - 1]);
        assert(pv[n - 2 - emit.len()] == step_view(merge_steps.last()));
        match merge_steps.last() {
            Step::RestrictVisibility(ex) => {
                assert(ex@.map_values(|v: Vec<u8>| v@) =~= names_view(ex@));
            },
            _ => {
                assert(false);
            },
        }
    }
    Ok((all_steps, compiled))
}

/// Determinism of the merge (law): two merges over the same multiset of unit
/// names — however each discovered its units — choose base units with the
/// same name and fold the remaining units in exactly the same order. The
/// hypotheses are what `fat_lto` guarantees of any run with an in-memory
/// `Regular` unit.
pub proof fn lemma_merge_deterministic(
    all1: Seq<Seq<u8>>,
    all2: Seq<Seq<u8>>,
    regs1: Seq<Seq<u8>>,
    regs2: Seq<Seq<u8>>,
    base1: Seq<u8>,
    base2: Seq<u8>,
    pool1: Seq<Seq<u8>>,
    pool2: Seq<Seq<u8>>,
)
    requires
        all1.to_multiset() == all2.to_multiset(),
        regs1.to_multiset() == regs2.to_multiset(),
        regs1.len() > 0,
        spec_names_contain(regs1, base1),
        forall|i: int| 0 <= i < regs1.len() ==> lex_le(regs1[i], base1),
        spec_names_contain(regs2, base2),
        forall|i: int| 0 <= i < regs2.len() ==> lex_le(regs2[i], base2),
        sorted_by(pool1, lex_leq()),
        sorted_by(pool2, lex_leq()),
        pool1.to_multiset() == all1.to_multiset().remove(base1),
        pool2.to_multiset() == all2.to_multiset().remove(base2),
    ensures
        base1 == base2,
        pool1 == pool2,
{
    regs1.to_multiset_ensures();
    regs2.to_multiset_ensures();
    let i1 = choose|i: int| 0 <= i < regs1.len() && regs1[i] == base1;
    assert(regs1.contains(base1));
    assert(regs2.to_multiset().count(base1) > 0);
    assert(regs2.contains(base1));
    let j1 = choose|j: int| 0 <= j < regs2.len() && regs2[j] == base1;
    assert(lex_le(base1, base2));
    let i2 = choose|i: int| 0 <= i < regs2.len() && regs2[i] == base2;
    assert(regs2.contains(base2));
    assert(regs1.to_multiset().count(base2) > 0);
    assert(regs1.contains(base2));
    let j2 = choose|j: int| 0 <= j < regs1.len() && regs1[j] == base2;
    assert(lex_le(base2, base1));
    lemma_lex_le_antisym(base1, base2);
    lemma_fold_order_deterministic(pool1, pool2);
}

/// Every name of a table survives the `Rust` threshold.
proof fn lemma_rust_threshold_keeps_all(table: Seq<(Seq<u8>, SymbolExportInfo)>, j: int)
    requires
        0 <= j < table.len(),
    ensures
        spec_names_contain(spec_included_names(table, SymbolExportLevel::Rust), table[j].0),
    decreases table.len(),
{
    let inc = spec_included_names(table, SymbolExportLevel::Rust);
    if j == table.len() - 1 {
        assert(inc[inc.len() - 1] == table[j].0);
    } else {
        lemma_rust_threshold_keeps_all(table.drop_last(), j);
        let rest = spec_included_names(table.drop_last(), SymbolExportLevel::Rust);
        let i = choose|i: int| 0 <= i < rest.len() && rest[i] == table.drop_last()[j].0;
        assert(inc[i] == table[j].0);
    }
}

/// Every name the threshold filter keeps is a name of the table.
proof fn lemma_included_names_from_table(
    table: Seq<(Seq<u8>, SymbolExportInfo)>,
    threshold: SymbolExportLevel,
    i: int,
)
    requires
        0 <= i < spec_included_names(table, threshold).len(),
    ensures
        exists|j: int|
            0 <= j < table.len() && table[j].0 == spec_included_names(table, threshold)[i],
    decreases table.len(),
{
    let inc = spec_included_names(table, threshold);
    let rest = spec_included_names(table.drop_last(), threshold);
    if spec_symbol_included(table.last().1, threshold) && i == inc.len() - 1 {
        assert(table[table.len() - 1].0 == inc[i]);
    } else {
        lemma_included_names_from_table(table.drop_last(), threshold, i);
        let j = choose|j: int|
            0 <= j < table.drop_last().len() && table.drop_last()[j].0 == rest[i];
        assert(table[j].0 == inc[i]);
    }
}

/// Threshold monotonicity (law): whatever threshold a crate graph computes,
/// the names a table keeps under it are among the names the permissive
/// `Rust` threshold — the one local-only merging uses — would keep of the
/// same table.
pub proof fn lemma_threshold_monotone(
    table: Seq<(Seq<u8>, SymbolExportInfo)>,
    threshold: SymbolExportLevel,
)
    ensures
        forall|n: Seq<u8>|
            spec_names_contain(spec_included_names(table, threshold), n) ==> spec_names_contain(
                spec_included_names(table, SymbolExportLevel::Rust),
                n,
            ),
{
    assert forall|n: Seq<u8>|
        spec_names_contain(spec_included_names(table, threshold), n) implies spec_names_contain(
        spec_included_names(table, SymbolExportLevel::Rust),
        n,
    ) by {
        let i = choose|i: int|
            0 <= i < spec_included_names(table, threshold).len() && spec_included_names(
                table,
                threshold,
            )[i] == n;
        lemma_included_names_from_table(table, threshold, i);
        let j = choose|j: int| 0 <= j < table.len() && table[j].0 == n;
        lemma_rust_threshold_keeps_all(table, j);
    }
}

/// Under a threshold that keeps every symbol of the table, the filter keeps
/// exactly what the permissive `Rust` threshold keeps.
proof fn lemma_included_names_all(table: Seq<(Seq<u8>, SymbolExportInfo)>, th: SymbolExportLevel)
    requires
        forall|j: int| 0 <= j < table.len() ==> spec_symbol_included(#[trigger] table[j].1, th),
    ensures
        spec_included_names(table, th) == spec_included_names(table, SymbolExportLevel::Rust),
    decreases table.len(),
{
    if table.len() > 0 {
        assert(forall|j: int|
            0 <= j < table.drop_last().len() ==> spec_symbol_included(
                #[trigger] table.drop_last()[j].1,
                th,
            ));
        lemma_included_names_all(table.drop_last(), th);
        assert(spec_symbol_included(table[table.len() - 1].1, th));
    }
}

/// Threshold correctness (law, restricted): a non-local crate's contribution
/// to the whole-graph export set includes everything local-only merging —
/// which filters at the permissive `Rust` level — would keep of the same
/// table, whenever the graph's computed threshold is `Rust`, or the table
/// has no symbol the stricter `C` threshold would drop. A graph of only
/// foreign-facing crate types computes the `C` threshold, and a Rust-level
/// symbol not marked used is then dropped: the hypothesis leaves exactly
/// those inputs out.
pub proof fn lemma_whole_graph_threshold_superset(
    table: Seq<(Seq<u8>, SymbolExportInfo)>,
    crate_types: Seq<CrateType>,
)
    requires
        spec_crates_export_threshold(crate_types) == SymbolExportLevel::Rust || (forall|j: int|
            0 <= j < table.len() ==> spec_symbol_included(
                #[trigger] table[j].1,
                spec_crates_export_threshold(crate_types),
            )),
    ensures
        forall|n: Seq<u8>|
            spec_names_contain(spec_included_names(table, SymbolExportLevel::Rust), n)
                ==> spec_names_contain(
                spec_included_names(table, spec_crates_export_threshold(crate_types)),
                n,
            ),
{
    let th = spec_crates_export_threshold(crate_types);
    if th != SymbolExportLevel::Rust {
        lemma_included_names_all(table, th);
    }
}

} // verus!








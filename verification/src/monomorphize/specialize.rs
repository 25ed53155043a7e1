use vstd::prelude::*;
use crate::item::{EnumDef, HirItem, HirVariant, StructDef, StructField};
use crate::monomorphize::concretize::{
    build_subst, lemma_subst_budget_equiv, lemma_subst_concretized_equiv, lemma_subst_concretized_extends,
    lemma_syms_below_mono, lemma_syms_below_short, lemma_ty_eq_budget, param_map, subst_budget, subst_concretized,
    subst_equiv, substitute_and_concretize, syms_below,
};
use crate::monomorphize::index::{struct_at, MonoIndex};
use crate::monomorphize::mangle_table::{args_ok, MangleTable};
use crate::monomorphize::mangling::{extends, mangled_name};
use crate::node::HirFn;
use crate::symbol::{Interner, Symbol};
use crate::types::{copy_type, ty_eq, HirType, TypeSubst};

verus! {

broadcast use vstd::std_specs::vec::group_vec_axioms;

/// The sum of the substitution budgets of the first `n` fields' types.
pub open spec fn fields_budget(fields: Seq<StructField>, sub: Map<Symbol, HirType>, n: nat) -> nat
    decreases n,
{
    if n == 0 || n > fields.len() {
        0
    } else {
        fields_budget(fields, sub, (n - 1) as nat) + subst_budget(fields[n - 1].ty, sub)
    }
}

/// The sum of the field budgets of the first `n` variants.
pub open spec fn variants_budget(vs: Seq<HirVariant>, sub: Map<Symbol, HirType>, n: nat) -> nat
    decreases n,
{
    if n == 0 || n > vs.len() {
        0
    } else {
        variants_budget(vs, sub, (n - 1) as nat) + fields_budget(vs[n - 1].fields@, sub, vs[n - 1].fields@.len())
    }
}

/// Each field of `out` is the field of `fields` at its position, with its type
/// substituted by `sub` and made concrete.
pub open spec fn fields_specialized(fields: Seq<StructField>, out: Seq<StructField>, sub: Map<Symbol, HirType>, items: Seq<HirItem>, strs: Seq<Seq<char>>) -> bool {
    &&& out.len() == fields.len()
    &&& forall|i: int| 0 <= i < fields.len() ==> {
        &&& (#[trigger] out[i]).name == fields[i].name
        &&& out[i].doc == fields[i].doc
        &&& subst_concretized(fields[i].ty, sub, out[i].ty, items, strs)
    }
}

/// Budgets of longer prefixes are larger.
proof fn lemma_fields_budget_mono(fields: Seq<StructField>, sub: Map<Symbol, HirType>, n: nat, m: nat)
    requires
        n <= m <= fields.len(),
    ensures
        fields_budget(fields, sub, n) <= fields_budget(fields, sub, m),
    decreases m,
{
    if n < m {
        lemma_fields_budget_mono(fields, sub, n, (m - 1) as nat);
    }
}

/// Budgets of longer prefixes are larger.
proof fn lemma_variants_budget_mono(vs: Seq<HirVariant>, sub: Map<Symbol, HirType>, n: nat, m: nat)
    requires
        n <= m <= vs.len(),
    ensures
        variants_budget(vs, sub, n) <= variants_budget(vs, sub, m),
    decreases m,
{
    if n < m {
        lemma_variants_budget_mono(vs, sub, n, (m - 1) as nat);
    }
}

/// Equivalent substitutions give the same field budgets.
proof fn lemma_fields_budget_equiv(fields: Seq<StructField>, m1: Map<Symbol, HirType>, m2: Map<Symbol, HirType>, n: nat)
    requires
        subst_equiv(m1, m2),
    ensures
        fields_budget(fields, m1, n) == fields_budget(fields, m2, n),
    decreases n,
{
    if n > 0 && n <= fields.len() {
        lemma_subst_budget_equiv(fields[n - 1].ty, m1, m2);
        lemma_fields_budget_equiv(fields, m1, m2, (n - 1) as nat);
    }
}

/// Equivalent substitutions give the same variant budgets.
proof fn lemma_variants_budget_equiv(vs: Seq<HirVariant>, m1: Map<Symbol, HirType>, m2: Map<Symbol, HirType>, n: nat)
    requires
        subst_equiv(m1, m2),
    ensures
        variants_budget(vs, m1, n) == variants_budget(vs, m2, n),
    decreases n,
{
    if n > 0 && n <= vs.len() {
        lemma_fields_budget_equiv(vs[n - 1].fields@, m1, m2, vs[n - 1].fields@.len());
        lemma_variants_budget_equiv(vs, m1, m2, (n - 1) as nat);
    }
}

/// The substitution equivalence is symmetric.
proof fn lemma_subst_equiv_symm(m1: Map<Symbol, HirType>, m2: Map<Symbol, HirType>)
    requires
        subst_equiv(m1, m2),
    ensures
        subst_equiv(m2, m1),
{
    assert forall|k: Symbol| #[trigger] m2.contains_key(k) implies ty_eq(m2[k], m1[k]) by {
        crate::types::lemma_ty_eq_symm(m1[k], m2[k]);
    }
}

/// The bindings built from `params` and `args` stay below a bound that the arguments
/// respect.
proof fn lemma_param_map_syms(params: Seq<Symbol>, args: Seq<HirType>, sub: Map<Symbol, HirType>, n: nat)
    requires
        forall|i: int| 0 <= i < args.len() ==> syms_below(#[trigger] args[i], n),
        subst_equiv(sub, param_map(params, args)),
    ensures
        forall|k: Symbol| #[trigger] sub.contains_key(k) ==> syms_below(sub[k], n),
{
    assert forall|k: Symbol| #[trigger] sub.contains_key(k) implies syms_below(sub[k], n) by {
        let z = if params.len() < args.len() { params.len() } else { args.len() };
        crate::monomorphize::concretize::lemma_last_pos(params, k, z);
        let j = crate::monomorphize::concretize::last_pos(params, k, z);
        assert(param_map(params, args)[k] == args[j]);
        crate::types::lemma_ty_eq_symm(sub[k], args[j]);
        lemma_ty_eq_budget(args[j], sub[k], n);
    }
}

/// Specializes the types of `fields` with `sub`, in order.
fn specialize_fields(fields: &Vec<StructField>, sub: &TypeSubst, index: &MonoIndex, mangle_table: &mut MangleTable, interner: &mut Interner) -> (r: Vec<StructField>)
    requires
        old(mangle_table).agrees_with(old(interner)@),
        forall|i: int| 0 <= i < fields@.len() ==> syms_below(#[trigger] fields@[i].ty, old(interner)@.len()),
        forall|k: Symbol| #[trigger] sub@.contains_key(k) ==> syms_below(sub@[k], old(interner)@.len()),
        old(interner)@.len() + fields_budget(fields@, sub@, fields@.len()) < u32::MAX,
    ensures
        final(mangle_table).agrees_with(final(interner)@),
        extends(old(interner)@, final(interner)@),
        final(interner)@.len() <= old(interner)@.len() + fields_budget(fields@, sub@, fields@.len()),
        fields_specialized(fields@, r@, sub@, index.items(), final(interner)@),
{
    let ghost s0 = interner@;
    let ghost items = index.items();
    let mut out: Vec<StructField> = Vec::new();
    let mut i: usize = 0;
    while i < fields.len()
        invariant
            0 <= i <= fields@.len(),
            out@.len() == i,
            s0 == old(interner)@,
            items == index.items(),
            mangle_table.agrees_with(interner@),
            extends(s0, interner@),
            interner@.len() <= s0.len() + fields_budget(fields@, sub@, i as nat),
            forall|k: int| 0 <= k < fields@.len() ==> syms_below(#[trigger] fields@[k].ty, s0.len()),
            forall|k: Symbol| #[trigger] sub@.contains_key(k) ==> syms_below(sub@[k], s0.len()),
            s0.len() + fields_budget(fields@, sub@, fields@.len()) < u32::MAX,
            forall|k: int| 0 <= k < i ==> {
                &&& (#[trigger] out@[k]).name == fields@[k].name
                &&& out@[k].doc == fields@[k].doc
                &&& subst_concretized(fields@[k].ty, sub@, out@[k].ty, items, interner@)
            },
        decreases fields@.len() - i,
    {
        proof {
            lemma_fields_budget_mono(fields@, sub@, (i + 1) as nat, fields@.len());
            lemma_syms_below_mono(fields@[i as int].ty, s0.len(), interner@.len());
            assert forall|k: Symbol| #[trigger] sub@.contains_key(k) implies syms_below(sub@[k], interner@.len()) by {
                lemma_syms_below_mono(sub@[k], s0.len(), interner@.len());
            }
        }
        let ghost before = interner@;
        let f = &fields[i];
        let ty = substitute_and_concretize(&f.ty, sub, index, mangle_table, interner);
        let doc = match &f.doc {
            Some(d) => Some(d.clone()),
            None => None,
        };
        let ghost prev = out@;
        out.push(StructField { name: f.name, ty, doc });
        proof {
            assert forall|k: int| 0 <= k < i + 1 implies {
                &&& (#[trigger] out@[k]).name == fields@[k].name
                &&& out@[k].doc == fields@[k].doc
                &&& subst_concretized(fields@[k].ty, sub@, out@[k].ty, items, interner@)
            } by {
                if k < i {
                    assert(out@[k] == prev[k]);
                    lemma_subst_concretized_extends(fields@[k].ty, sub@, out@[k].ty, items, before, interner@);
                }
            }
        }
        i = i + 1;
    }
    out
}

/// The concrete definition of a generic struct for the given type arguments: named by
/// the mangled name, without type parameters, each field's type substituted and made
/// concrete.
pub fn specialize_struct(generic: &StructDef, type_args: &Vec<HirType>, index: &MonoIndex, mangle_table: &mut MangleTable, interner: &mut Interner) -> (r: StructDef)
    requires
        old(mangle_table).agrees_with(old(interner)@),
        generic.name.index() < old(interner)@.len(),
        forall|i: int| 0 <= i < type_args@.len() ==> syms_below(#[trigger] type_args@[i], old(interner)@.len()),
        forall|i: int| 0 <= i < generic.fields@.len() ==> syms_below(#[trigger] generic.fields@[i].ty, old(interner)@.len()),
        old(interner)@.len() + 1 + fields_budget(generic.fields@, param_map(generic.type_params@, type_args@), generic.fields@.len())
            < u32::MAX,
    ensures
        final(mangle_table).agrees_with(final(interner)@),
        extends(old(interner)@, final(interner)@),
        r.name.index() < final(interner)@.len(),
        final(interner)@[r.name.index() as int] == mangled_name(final(interner)@, generic.name, *type_args),
        r.type_params@.len() == 0,
        r.doc == generic.doc,
        r.span == generic.span,
        r.is_pub == generic.is_pub,
        fields_specialized(generic.fields@, r.fields@, param_map(generic.type_params@, type_args@), index.items(), final(interner)@),
{
    let sub = build_subst(generic.type_params.as_slice(), type_args.as_slice());
    let ghost pm = param_map(generic.type_params@, type_args@);
    proof {
        assert(subst_equiv(sub@, pm));
        lemma_subst_equiv_symm(sub@, pm);
        lemma_fields_budget_equiv(generic.fields@, sub@, pm, generic.fields@.len());
        assert forall|i: int| 0 <= i < type_args@.len() implies crate::monomorphize::mangling::short_syms_ok(#[trigger] type_args@[i], interner@.len()) by {
            lemma_syms_below_short(type_args@[i], interner@.len());
        }
    }
    let ghost s0 = interner@;
    let name = mangle_table.mangle(generic.name, type_args, interner);
    let ghost s1 = interner@;
    proof {
        assert forall|i: int| 0 <= i < type_args@.len() implies syms_below(#[trigger] type_args@[i], s1.len()) by {
            lemma_syms_below_mono(type_args@[i], s0.len(), s1.len());
        }
        lemma_param_map_syms(generic.type_params@, type_args@, sub@, s1.len());
        assert forall|i: int| 0 <= i < generic.fields@.len() implies syms_below(#[trigger] generic.fields@[i].ty, s1.len()) by {
            lemma_syms_below_mono(generic.fields@[i].ty, s0.len(), s1.len());
        }
    }
    let fields = specialize_fields(&generic.fields, &sub, index, mangle_table, interner);
    proof {
        let s2 = interner@;
        assert forall|i: int| 0 <= i < generic.fields@.len() implies
            subst_concretized(generic.fields@[i].ty, pm, #[trigger] fields@[i].ty, index.items(), s2) by {
            lemma_subst_concretized_equiv(generic.fields@[i].ty, sub@, pm, fields@[i].ty, index.items(), s2);
        }
        assert forall|i: int| 0 <= i < type_args@.len() implies crate::monomorphize::mangling::short_syms_ok(#[trigger] type_args@[i], s1.len()) by {
            lemma_syms_below_short(type_args@[i], s1.len());
        }
        crate::monomorphize::mangling::lemma_types_joined_extends(*type_args, type_args@.len(), s1, s2);
        assert(s2[generic.name.index() as int] == s1[generic.name.index() as int]);
    }
    let doc = match &generic.doc {
        Some(d) => Some(d.clone()),
        None => None,
    };
    StructDef { doc, name, type_params: Vec::new(), fields, span: generic.span, is_pub: generic.is_pub }
}

/// Each variant of `out` is the variant of `vs` at its position with its fields
/// specialized by `sub`.
pub open spec fn variants_specialized(vs: Seq<HirVariant>, out: Seq<HirVariant>, sub: Map<Symbol, HirType>, items: Seq<HirItem>, strs: Seq<Seq<char>>) -> bool {
    &&& out.len() == vs.len()
    &&& forall|i: int| 0 <= i < vs.len() ==> {
        &&& (#[trigger] out[i]).name == vs[i].name
        &&& out[i].tag == vs[i].tag
        &&& out[i].doc == vs[i].doc
        &&& fields_specialized(vs[i].fields@, out[i].fields@, sub, items, strs)
    }
}

/// Specialized fields stay so when the table grows.
proof fn lemma_fields_specialized_extends(fields: Seq<StructField>, out: Seq<StructField>, sub: Map<Symbol, HirType>, items: Seq<HirItem>, small: Seq<Seq<char>>, big: Seq<Seq<char>>)
    requires
        extends(small, big),
        fields_specialized(fields, out, sub, items, small),
    ensures
        fields_specialized(fields, out, sub, items, big),
{
    assert forall|i: int| 0 <= i < fields.len() implies subst_concretized(fields[i].ty, sub, (#[trigger] out[i]).ty, items, big) by {
        lemma_subst_concretized_extends(fields[i].ty, sub, out[i].ty, items, small, big);
    }
}

/// Specialized fields stay so under an equivalent substitution.
proof fn lemma_fields_specialized_equiv(fields: Seq<StructField>, out: Seq<StructField>, m1: Map<Symbol, HirType>, m2: Map<Symbol, HirType>, items: Seq<HirItem>, strs: Seq<Seq<char>>)
    requires
        subst_equiv(m1, m2),
        fields_specialized(fields, out, m1, items, strs),
    ensures
        fields_specialized(fields, out, m2, items, strs),
{
    assert forall|i: int| 0 <= i < fields.len() implies subst_concretized(fields[i].ty, m2, (#[trigger] out[i]).ty, items, strs) by {
        lemma_subst_concretized_equiv(fields[i].ty, m1, m2, out[i].ty, items, strs);
    }
}

/// The concrete definition of a generic enum for the given type arguments: named by
/// the mangled name, without type parameters, each variant's field types substituted
/// and made concrete.
pub fn specialize_enum(generic: &EnumDef, type_args: &Vec<HirType>, index: &MonoIndex, mangle_table: &mut MangleTable, interner: &mut Interner) -> (r: EnumDef)
    requires
        old(mangle_table).agrees_with(old(interner)@),
        generic.name.index() < old(interner)@.len(),
        forall|i: int| 0 <= i < type_args@.len() ==> syms_below(#[trigger] type_args@[i], old(interner)@.len()),
        forall|i: int, j: int| 0 <= i < generic.variants@.len() && 0 <= j < generic.variants@[i].fields@.len()
            ==> syms_below(#[trigger] generic.variants@[i].fields@[j].ty, old(interner)@.len()),
        old(interner)@.len() + 1 + variants_budget(generic.variants@, param_map(generic.type_params@, type_args@), generic.variants@.len())
            < u32::MAX,
    ensures
        final(mangle_table).agrees_with(final(interner)@),
        extends(old(interner)@, final(interner)@),
        r.name.index() < final(interner)@.len(),
        final(interner)@[r.name.index() as int] == mangled_name(final(interner)@, generic.name, *type_args),
        r.type_params@.len() == 0,
        r.doc == generic.doc,
        r.span == generic.span,
        r.is_pub == generic.is_pub,
        variants_specialized(generic.variants@, r.variants@, param_map(generic.type_params@, type_args@), index.items(), final(interner)@),
{
    let sub = build_subst(generic.type_params.as_slice(), type_args.as_slice());
    let ghost pm = param_map(generic.type_params@, type_args@);
    proof {
        lemma_subst_equiv_symm(sub@, pm);
        lemma_variants_budget_equiv(generic.variants@, sub@, pm, generic.variants@.len());
        assert forall|i: int| 0 <= i < type_args@.len() implies crate::monomorphize::mangling::short_syms_ok(#[trigger] type_args@[i], interner@.len()) by {
            lemma_syms_below_short(type_args@[i], interner@.len());
        }
    }
    let ghost s0 = interner@;
    let name = mangle_table.mangle(generic.name, type_args, interner);
    let ghost s1 = interner@;
    let ghost items = index.items();
    proof {
        assert forall|i: int| 0 <= i < type_args@.len() implies syms_below(#[trigger] type_args@[i], s1.len()) by {
            lemma_syms_below_mono(type_args@[i], s0.len(), s1.len());
        }
        lemma_param_map_syms(generic.type_params@, type_args@, sub@, s1.len());
    }
    let mut variants: Vec<HirVariant> = Vec::new();
    let mut i: usize = 0;
    while i < generic.variants.len()
        invariant
            0 <= i <= generic.variants@.len(),
            variants@.len() == i,
            s1.len() <= interner@.len(),
            items == index.items(),
            mangle_table.agrees_with(interner@),
            extends(s1, interner@),
            interner@.len() <= s1.len() + variants_budget(generic.variants@, sub@, i as nat),
            s1.len() + variants_budget(generic.variants@, sub@, generic.variants@.len()) < u32::MAX,
            forall|a: int, b: int| 0 <= a < generic.variants@.len() && 0 <= b < generic.variants@[a].fields@.len()
                ==> syms_below(#[trigger] generic.variants@[a].fields@[b].ty, s0.len()),
            s0.len() <= s1.len(),
            forall|k: Symbol| #[trigger] sub@.contains_key(k) ==> syms_below(sub@[k], s1.len()),
            forall|k: int| 0 <= k < i ==> {
                &&& (#[trigger] variants@[k]).name == generic.variants@[k].name
                &&& variants@[k].tag == generic.variants@[k].tag
                &&& variants@[k].doc == generic.variants@[k].doc
                &&& fields_specialized(generic.variants@[k].fields@, variants@[k].fields@, sub@, items, interner@)
            },
        decreases generic.variants@.len() - i,
    {
        let v = &generic.variants[i];
        proof {
            lemma_variants_budget_mono(generic.variants@, sub@, (i + 1) as nat, generic.variants@.len());
            assert forall|j: int| 0 <= j < v.fields@.len() implies syms_below(#[trigger] v.fields@[j].ty, interner@.len()) by {
                assert(syms_below(generic.variants@[i as int].fields@[j].ty, s0.len()));
                lemma_syms_below_mono(v.fields@[j].ty, s0.len(), interner@.len());
            }
            assert forall|k: Symbol| #[trigger] sub@.contains_key(k) implies syms_below(sub@[k], interner@.len()) by {
                lemma_syms_below_mono(sub@[k], s1.len(), interner@.len());
            }
        }
        let ghost before = interner@;
        let fields = specialize_fields(&v.fields, &sub, index, mangle_table, interner);
        let doc = match &v.doc {
            Some(d) => Some(d.clone()),
            None => None,
        };
        let ghost prev = variants@;
        variants.push(HirVariant { name: v.name, fields, tag: v.tag, doc });
        proof {
            assert forall|k: int| 0 <= k < i + 1 implies {
                &&& (#[trigger] variants@[k]).name == generic.variants@[k].name
                &&& variants@[k].tag == generic.variants@[k].tag
                &&& variants@[k].doc == generic.variants@[k].doc
                &&& fields_specialized(generic.variants@[k].fields@, variants@[k].fields@, sub@, items, interner@)
            } by {
                if k < i {
                    assert(variants@[k] == prev[k]);
                    lemma_fields_specialized_extends(generic.variants@[k].fields@, variants@[k].fields@, sub@, items, before, interner@);
                }
            }
        }
        i = i + 1;
    }
    proof {
        let s2 = interner@;
        assert forall|k: int| 0 <= k < generic.variants@.len() implies
            fields_specialized(generic.variants@[k].fields@, (#[trigger] variants@[k]).fields@, pm, items, s2) by {
            lemma_fields_specialized_equiv(generic.variants@[k].fields@, variants@[k].fields@, sub@, pm, items, s2);
        }
        assert forall|j: int| 0 <= j < type_args@.len() implies crate::monomorphize::mangling::short_syms_ok(#[trigger] type_args@[j], s1.len()) by {
            lemma_syms_below_short(type_args@[j], s1.len());
        }
        crate::monomorphize::mangling::lemma_types_joined_extends(*type_args, type_args@.len(), s1, s2);
        assert(s2[generic.name.index() as int] == s1[generic.name.index() as int]);
    }
    let doc = match &generic.doc {
        Some(d) => Some(d.clone()),
        None => None,
    };
    EnumDef { doc, name, type_params: Vec::new(), variants, span: generic.span, is_pub: generic.is_pub }
}

/// Binds `tps[i]` to `args[i]` for the first `n` positions that have an argument,
/// keeping any binding already made.
pub open spec fn or_insert_all(m: Map<Symbol, HirType>, tps: Seq<Symbol>, args: Seq<HirType>, n: nat) -> Map<Symbol, HirType>
    decreases n,
{
    if n == 0 || n > tps.len() {
        m
    } else {
        let m1 = or_insert_all(m, tps, args, (n - 1) as nat);
        if n - 1 < args.len() && !m1.contains_key(tps[n - 1]) {
            m1.insert(tps[n - 1], args[n - 1])
        } else {
            m1
        }
    }
}

/// The struct that a method's first parameter names: `S<..>` or `*S<..>`.
pub open spec fn receiver_struct(f: HirFn) -> Option<Symbol> {
    if f.params@.len() == 0 {
        None
    } else {
        match f.params@[0].1 {
            HirType::Generic(s, _) => Some(s),
            HirType::RawPtr(inner) => match *inner {
                HirType::Generic(s, _) => Some(s),
                _ => None,
            },
            _ => None,
        }
    }
}

/// The substitution for specializing `f` with `args`: its own type parameters bound
/// as `build_subst` binds them, then, when its first parameter is a struct of the
/// program, that struct's type parameters bound to the arguments at their positions
/// where not bound already.
pub open spec fn fn_subst(f: HirFn, args: Seq<HirType>, items: Seq<HirItem>) -> Map<Symbol, HirType> {
    let base = param_map(f.type_params@, args);
    let sm = struct_at(items, items.len());
    match receiver_struct(f) {
        Some(s) => if sm.contains_key(s) {
            let tps = items[sm[s] as int]->Struct_0.type_params@;
            or_insert_all(base, tps, args, tps.len())
        } else {
            base
        },
        None => base,
    }
}

/// Binds each of `tps` that has an argument at its position and is not bound yet.
fn bind_missing(sub: &mut TypeSubst, tps: &Vec<Symbol>, args: &Vec<HirType>)
    ensures
        forall|m: Map<Symbol, HirType>| subst_equiv(old(sub)@, m) ==> subst_equiv(final(sub)@, or_insert_all(m, tps@, args@, tps@.len())),
{
    let ghost s0 = sub@;
    let mut i: usize = 0;
    while i < tps.len()
        invariant
            0 <= i <= tps@.len(),
            forall|m: Map<Symbol, HirType>| subst_equiv(s0, m) ==> subst_equiv(sub@, or_insert_all(m, tps@, args@, i as nat)),
            s0 == old(sub)@,
        decreases tps@.len() - i,
    {
        if i < args.len() && sub.get(&tps[i]).is_none() {
            let t = copy_type(&args[i]);
            let ghost before = sub@;
            sub.insert(tps[i], t);
            proof {
                assert forall|m: Map<Symbol, HirType>| subst_equiv(s0, m) implies subst_equiv(sub@, or_insert_all(m, tps@, args@, (i + 1) as nat)) by {
                    let m1 = or_insert_all(m, tps@, args@, i as nat);
                    assert(subst_equiv(before, m1));
                    assert(!m1.contains_key(tps@[i as int]));
                    assert(sub@.dom() =~= m1.insert(tps@[i as int], args@[i as int]).dom());
                }
            }
        } else {
            proof {
                assert forall|m: Map<Symbol, HirType>| subst_equiv(s0, m) implies subst_equiv(sub@, or_insert_all(m, tps@, args@, (i + 1) as nat)) by {
                    let m1 = or_insert_all(m, tps@, args@, i as nat);
                    assert(subst_equiv(sub@, m1));
                }
            }
        }
        i = i + 1;
    }
}

/// The substitution for specializing a function: see `fn_subst`.
pub fn build_fn_subst(generic_fn: &HirFn, type_args: &Vec<HirType>, index: &MonoIndex, interner: &Interner) -> (r: TypeSubst)
    ensures
        subst_equiv(r@, fn_subst(*generic_fn, type_args@, index.items())),
{
    let mut sub = build_subst(generic_fn.type_params.as_slice(), type_args.as_slice());
    let ghost base = param_map(generic_fn.type_params@, type_args@);
    if generic_fn.params.len() > 0 {
        let target = match &generic_fn.params[0].1 {
            HirType::Generic(s, _) => Some(*s),
            HirType::RawPtr(inner) => match &**inner {
                HirType::Generic(s, _) => Some(*s),
                _ => None,
            },
            _ => None,
        };
        assert(target == receiver_struct(*generic_fn));
        if let Some(s) = target {
            if let Some(info) = index.find_struct(s) {
                let ghost s0 = sub@;
                bind_missing(&mut sub, &info.type_params, type_args);
                proof {
                    assert(subst_equiv(s0, base));
                    assert(index.struct_named(s) == Some(*info));
                }
                return sub;
            }
        }
    }
    sub
}

} // verus!

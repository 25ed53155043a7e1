use vstd::prelude::*;
use vstd::string::StringExecFns;
use crate::item::HirItem;
use crate::monomorphize::call_args::CallTypeArgs;
use crate::monomorphize::concretize::{
    budgets, builtin_enum, concrete_facts, has_unresolved_type_param, intern_budget, lemma_budgets_mono,
    lemma_last_pos, lemma_subst_budget, lemma_subst_concretized_extends, lemma_syms_below_mono, lemma_syms_below_short,
    names_below, param_map, subst_equiv, build_subst,
    seq_subst_budget, subst_budget, subst_budgets, subst_concretized, substitute_and_concretize_slice, syms_below,
    unresolved_param,
};
use crate::monomorphize::index::{enum_at, generic_methods, struct_at, MonoIndex};
use crate::node::{HirExpr, HirFn, HirStmt, MatchArm};
use crate::monomorphize::mangle_table::MangleTable;
use crate::monomorphize::mangling::{extends, mangled_name, short_syms_ok};
use crate::monomorphize::work::{ItemKind, WorkItem};
use crate::symbol::{is_first_index, table_has, Interner, Symbol};
use crate::types::{copy_type, copy_types, substitute_type, substituted, ty_eq, ty_seq_eq, tys_eq, ExprId, HirType, TypeSubst};

verus! {

broadcast use vstd::std_specs::vec::group_vec_axioms;

/// A unit of work as plain values: the definition, what to do, the type arguments.
pub type Work = (Symbol, ItemKind, Seq<HirType>);

/// The work items `ws` are the units `ds`, in order, type arguments compared
/// structurally.
pub open spec fn works_match(ws: Seq<WorkItem>, ds: Seq<Work>) -> bool {
    &&& ws.len() == ds.len()
    &&& forall|i: int| 0 <= i < ws.len() ==> {
        &&& (#[trigger] ws[i]).def_id == ds[i].0
        &&& ws[i].kind == ds[i].1
        &&& ty_seq_eq(ws[i].type_args@, ds[i].2)
    }
}

/// The symbol of the first occurrence of `name` in `strs`.
pub open spec fn first_sym(strs: Seq<Seq<char>>, name: Seq<char>) -> Symbol {
    Symbol((choose|i: int| is_first_index(strs, name, i)) as u32)
}

/// A string has one first position.
pub proof fn lemma_first_index_unique(strs: Seq<Seq<char>>, name: Seq<char>, i: int, j: int)
    requires
        is_first_index(strs, name, i),
        is_first_index(strs, name, j),
    ensures
        i == j,
{
}

/// The symbol at the first position of `name` is `first_sym`.
pub proof fn lemma_first_sym(strs: Seq<Seq<char>>, name: Seq<char>, i: int)
    requires
        is_first_index(strs, name, i),
        i < u32::MAX,
    ensures
        first_sym(strs, name) == Symbol(i as u32),
{
    let k = choose|k: int| is_first_index(strs, name, k);
    lemma_first_index_unique(strs, name, i, k);
}

/// Some element of `xs` holds an unresolved type parameter.
pub open spec fn any_unresolved(xs: Vec<HirType>, strs: Seq<Seq<char>>) -> bool {
    exists|i: int| 0 <= i < xs@.len() && unresolved_param(#[trigger] xs@[i], strs)
}

/// The specializations that a type asks for, outermost first, each followed by those
/// of its components: a generic struct or enum of the program whose arguments hold no
/// unresolved type parameter, and `Option` or `Result` over such arguments when the
/// program declares them as enums.
pub open spec fn type_disc(t: HirType, items: Seq<HirItem>, strs: Seq<Seq<char>>) -> Seq<Work>
    decreases t, 0nat,
{
    match t {
        HirType::Generic(s, xs) => head_disc_generic(s, xs, items, strs) + types_disc(xs, xs@.len(), items, strs),
        HirType::Option(x) => head_disc_option(*x, items, strs) + type_disc(*x, items, strs),
        HirType::Result(x, e) => head_disc_result(*x, *e, items, strs) + type_disc(*x, items, strs)
            + type_disc(*e, items, strs),
        HirType::RawPtr(x) => type_disc(*x, items, strs),
        HirType::Tuple(xs) => types_disc(xs, xs@.len(), items, strs),
        HirType::Func(xs, r) => types_disc(xs, xs@.len(), items, strs) + type_disc(*r, items, strs),
        _ => Seq::empty(),
    }
}

/// The unit that a generic type asks for itself, if any.
pub open spec fn head_disc_generic(s: Symbol, xs: Vec<HirType>, items: Seq<HirItem>, strs: Seq<Seq<char>>) -> Seq<Work> {
    if any_unresolved(xs, strs) {
        Seq::empty()
    } else if struct_at(items, items.len()).contains_key(s) {
        seq![(s, ItemKind::StructSpecialize, xs@)]
    } else if enum_at(items, items.len()).contains_key(s) {
        seq![(s, ItemKind::EnumSpecialize, xs@)]
    } else {
        Seq::empty()
    }
}

/// The unit that `Option<x>` asks for itself, if any.
pub open spec fn head_disc_option(x: HirType, items: Seq<HirItem>, strs: Seq<Seq<char>>) -> Seq<Work> {
    if !unresolved_param(x, strs) && builtin_enum(items, strs, "Option"@) {
        seq![(first_sym(strs, "Option"@), ItemKind::EnumSpecialize, seq![x])]
    } else {
        Seq::empty()
    }
}

/// The unit that `Result<x, e>` asks for itself, if any.
pub open spec fn head_disc_result(x: HirType, e: HirType, items: Seq<HirItem>, strs: Seq<Seq<char>>) -> Seq<Work> {
    if !unresolved_param(x, strs) && !unresolved_param(e, strs) && builtin_enum(items, strs, "Result"@) {
        seq![(first_sym(strs, "Result"@), ItemKind::EnumSpecialize, seq![x, e])]
    } else {
        Seq::empty()
    }
}

/// The specializations that the first `n` types of `xs` ask for, in order.
pub open spec fn types_disc(xs: Vec<HirType>, n: nat, items: Seq<HirItem>, strs: Seq<Seq<char>>) -> Seq<Work>
    decreases xs, n,
{
    if n == 0 || n > xs@.len() {
        Seq::empty()
    } else {
        types_disc(xs, (n - 1) as nat, items, strs) + type_disc(xs@[n - 1], items, strs)
    }
}

/// The names `Option` and `Result` are interned wherever discovery of `t` looks them up.
pub open spec fn disc_ready(t: HirType, strs: Seq<Seq<char>>) -> bool
    decreases t,
{
    match t {
        HirType::Generic(_, xs) => forall|i: int| 0 <= i < xs@.len() ==> disc_ready(#[trigger] xs@[i], strs),
        HirType::Tuple(xs) => forall|i: int| 0 <= i < xs@.len() ==> disc_ready(#[trigger] xs@[i], strs),
        HirType::Func(xs, r) => (forall|i: int| 0 <= i < xs@.len() ==> disc_ready(#[trigger] xs@[i], strs))
            && disc_ready(*r, strs),
        HirType::RawPtr(x) => disc_ready(*x, strs),
        HirType::Option(x) => (!unresolved_param(*x, strs) ==> table_has(strs, "Option"@)) && disc_ready(*x, strs),
        HirType::Result(x, e) => (!unresolved_param(*x, strs) && !unresolved_param(*e, strs) ==> table_has(strs, "Result"@))
            && disc_ready(*x, strs) && disc_ready(*e, strs),
        _ => true,
    }
}

/// A name bound holds for any larger bound.
pub proof fn lemma_names_below_mono(t: HirType, n: nat, m: nat)
    requires
        names_below(t, n),
        n <= m,
    ensures
        names_below(t, m),
    decreases t,
{
    match t {
        HirType::Generic(_, xs) => {
            assert forall|i: int| 0 <= i < xs@.len() implies names_below(#[trigger] xs@[i], m) by {
                assert(decreases_to!(t => t->Generic_1));
                lemma_names_below_mono(xs@[i], n, m);
            }
        },
        HirType::Tuple(xs) => {
            assert forall|i: int| 0 <= i < xs@.len() implies names_below(#[trigger] xs@[i], m) by {
                assert(decreases_to!(t => t->Tuple_0));
                lemma_names_below_mono(xs@[i], n, m);
            }
        },
        HirType::Func(xs, r) => {
            assert forall|i: int| 0 <= i < xs@.len() implies names_below(#[trigger] xs@[i], m) by {
                assert(decreases_to!(t => t->Func_0));
                lemma_names_below_mono(xs@[i], n, m);
            }
            lemma_names_below_mono(*r, n, m);
        },
        HirType::RawPtr(x) => lemma_names_below_mono(*x, n, m),
        HirType::Option(x) => lemma_names_below_mono(*x, n, m),
        HirType::Result(x, e) => {
            lemma_names_below_mono(*x, n, m);
            lemma_names_below_mono(*e, n, m);
        },
        _ => {},
    }
}

/// Whether a type holds an unresolved parameter does not change when the table grows.
pub proof fn lemma_unresolved_extends(t: HirType, small: Seq<Seq<char>>, big: Seq<Seq<char>>)
    requires
        names_below(t, small.len()),
        extends(small, big),
    ensures
        unresolved_param(t, small) == unresolved_param(t, big),
    decreases t,
{
    match t {
        HirType::Generic(_, xs) => {
            assert forall|i: int| 0 <= i < xs@.len() implies unresolved_param(#[trigger] xs@[i], small) == unresolved_param(xs@[i], big) by {
                assert(decreases_to!(t => t->Generic_1));
                lemma_unresolved_extends(xs@[i], small, big);
            }
        },
        HirType::Tuple(xs) => {
            assert forall|i: int| 0 <= i < xs@.len() implies unresolved_param(#[trigger] xs@[i], small) == unresolved_param(xs@[i], big) by {
                assert(decreases_to!(t => t->Tuple_0));
                lemma_unresolved_extends(xs@[i], small, big);
            }
        },
        HirType::Func(xs, r) => {
            assert forall|i: int| 0 <= i < xs@.len() implies unresolved_param(#[trigger] xs@[i], small) == unresolved_param(xs@[i], big) by {
                assert(decreases_to!(t => t->Func_0));
                lemma_unresolved_extends(xs@[i], small, big);
            }
            lemma_unresolved_extends(*r, small, big);
        },
        HirType::RawPtr(x) => lemma_unresolved_extends(*x, small, big),
        HirType::Option(x) => lemma_unresolved_extends(*x, small, big),
        HirType::Result(x, e) => {
            lemma_unresolved_extends(*x, small, big);
            lemma_unresolved_extends(*e, small, big);
        },
        HirType::Named(s) => {
            assert(big[s.index() as int] == small[s.index() as int]);
        },
        _ => {},
    }
}

/// `any_unresolved` does not change when the table grows.
pub proof fn lemma_any_unresolved_extends(xs: Vec<HirType>, small: Seq<Seq<char>>, big: Seq<Seq<char>>)
    requires
        forall|i: int| 0 <= i < xs@.len() ==> names_below(#[trigger] xs@[i], small.len()),
        extends(small, big),
    ensures
        any_unresolved(xs, small) == any_unresolved(xs, big),
{
    assert forall|i: int| 0 <= i < xs@.len() implies unresolved_param(#[trigger] xs@[i], small) == unresolved_param(xs@[i], big) by {
        lemma_unresolved_extends(xs@[i], small, big);
    }
}

/// Readiness for discovery survives the table growing.
pub proof fn lemma_disc_ready_extends(t: HirType, small: Seq<Seq<char>>, big: Seq<Seq<char>>)
    requires
        names_below(t, small.len()),
        extends(small, big),
        disc_ready(t, small),
    ensures
        disc_ready(t, big),
    decreases t,
{
    match t {
        HirType::Generic(_, xs) => {
            assert forall|i: int| 0 <= i < xs@.len() implies disc_ready(#[trigger] xs@[i], big) by {
                assert(decreases_to!(t => t->Generic_1));
                lemma_disc_ready_extends(xs@[i], small, big);
            }
        },
        HirType::Tuple(xs) => {
            assert forall|i: int| 0 <= i < xs@.len() implies disc_ready(#[trigger] xs@[i], big) by {
                assert(decreases_to!(t => t->Tuple_0));
                lemma_disc_ready_extends(xs@[i], small, big);
            }
        },
        HirType::Func(xs, r) => {
            assert forall|i: int| 0 <= i < xs@.len() implies disc_ready(#[trigger] xs@[i], big) by {
                assert(decreases_to!(t => t->Func_0));
                lemma_disc_ready_extends(xs@[i], small, big);
            }
            lemma_disc_ready_extends(*r, small, big);
        },
        HirType::RawPtr(x) => lemma_disc_ready_extends(*x, small, big),
        HirType::Option(x) => {
            lemma_disc_ready_extends(*x, small, big);
            lemma_unresolved_extends(*x, small, big);
            if table_has(small, "Option"@) {
                let j = choose|j: int| 0 <= j < small.len() && small[j] == "Option"@;
                assert(big[j] == "Option"@);
            }
        },
        HirType::Result(x, e) => {
            lemma_disc_ready_extends(*x, small, big);
            lemma_disc_ready_extends(*e, small, big);
            lemma_unresolved_extends(*x, small, big);
            lemma_unresolved_extends(*e, small, big);
            if table_has(small, "Result"@) {
                let j = choose|j: int| 0 <= j < small.len() && small[j] == "Result"@;
                assert(big[j] == "Result"@);
            }
        },
        _ => {},
    }
}

/// The first symbol of an interned name does not change when the table grows.
pub proof fn lemma_first_sym_extends(small: Seq<Seq<char>>, big: Seq<Seq<char>>, name: Seq<char>)
    requires
        extends(small, big),
        table_has(small, name),
    ensures
        first_sym(small, name) == first_sym(big, name),
{
    let j = choose|j: int| 0 <= j < small.len() && small[j] == name;
    let i = lemma_first_position(small, name, j);
    assert(is_first_index(big, name, i));
    let a = choose|k: int| is_first_index(small, name, k);
    let b = choose|k: int| is_first_index(big, name, k);
    lemma_first_index_unique(small, name, a, i);
    lemma_first_index_unique(big, name, b, i);
}

/// A string that occurs has a first position.
pub proof fn lemma_first_position(strs: Seq<Seq<char>>, name: Seq<char>, j: int) -> (i: int)
    requires
        0 <= j < strs.len(),
        strs[j] == name,
    ensures
        is_first_index(strs, name, i),
        i <= j,
    decreases j,
{
    if exists|k: int| 0 <= k < j && strs[k] == name {
        let k = choose|k: int| 0 <= k < j && strs[k] == name;
        lemma_first_position(strs, name, k)
    } else {
        j
    }
}

/// Discovery of a type gives the same units when the table grows, once it is ready.
pub proof fn lemma_type_disc_extends(t: HirType, items: Seq<HirItem>, small: Seq<Seq<char>>, big: Seq<Seq<char>>)
    requires
        names_below(t, small.len()),
        extends(small, big),
        disc_ready(t, small),
    ensures
        type_disc(t, items, small) == type_disc(t, items, big),
    decreases t, 0nat,
{
    match t {
        HirType::Generic(_, xs) => {
            assert(decreases_to!(t => t->Generic_1));
            lemma_any_unresolved_extends(xs, small, big);
            lemma_types_disc_extends(xs, xs@.len(), items, small, big);
        },
        HirType::Tuple(xs) => {
            assert(decreases_to!(t => t->Tuple_0));
            lemma_types_disc_extends(xs, xs@.len(), items, small, big);
        },
        HirType::Func(xs, r) => {
            assert(decreases_to!(t => t->Func_0));
            lemma_types_disc_extends(xs, xs@.len(), items, small, big);
            lemma_type_disc_extends(*r, items, small, big);
        },
        HirType::RawPtr(x) => lemma_type_disc_extends(*x, items, small, big),
        HirType::Option(x) => {
            lemma_type_disc_extends(*x, items, small, big);
            lemma_unresolved_extends(*x, small, big);
            if !unresolved_param(*x, small) {
                lemma_builtin_enum_same(items, small, big, "Option"@);
                lemma_first_sym_extends(small, big, "Option"@);
            }
        },
        HirType::Result(x, e) => {
            lemma_type_disc_extends(*x, items, small, big);
            lemma_type_disc_extends(*e, items, small, big);
            lemma_unresolved_extends(*x, small, big);
            lemma_unresolved_extends(*e, small, big);
            if !unresolved_param(*x, small) && !unresolved_param(*e, small) {
                lemma_builtin_enum_same(items, small, big, "Result"@);
                lemma_first_sym_extends(small, big, "Result"@);
            }
        },
        _ => {},
    }
}

/// Whether a builtin enum is known does not change when the table grows, once its
/// name is interned.
proof fn lemma_builtin_enum_same(items: Seq<HirItem>, small: Seq<Seq<char>>, big: Seq<Seq<char>>, name: Seq<char>)
    requires
        extends(small, big),
        table_has(small, name),
    ensures
        builtin_enum(items, small, name) == builtin_enum(items, big, name),
{
    crate::monomorphize::concretize::lemma_builtin_enum_extends(items, small, big, name);
}

/// Discovery of a list of types gives the same units when the table grows.
pub proof fn lemma_types_disc_extends(xs: Vec<HirType>, n: nat, items: Seq<HirItem>, small: Seq<Seq<char>>, big: Seq<Seq<char>>)
    requires
        forall|i: int| 0 <= i < xs@.len() ==> names_below(#[trigger] xs@[i], small.len()),
        forall|i: int| 0 <= i < n && i < xs@.len() ==> disc_ready(#[trigger] xs@[i], small),
        extends(small, big),
    ensures
        types_disc(xs, n, items, small) == types_disc(xs, n, items, big),
    decreases xs, n,
{
    if n == 0 || n > xs@.len() {
    } else {
        assert(decreases_to!(xs => xs@[n - 1]));
        lemma_type_disc_extends(xs@[n - 1], items, small, big);
        lemma_types_disc_extends(xs, (n - 1) as nat, items, small, big);
    }
}

/// Some element of `xs` holds an unresolved type parameter.
fn args_unresolved(xs: &Vec<HirType>, interner: &Interner) -> (r: bool)
    requires
        forall|i: int| 0 <= i < xs@.len() ==> names_below(#[trigger] xs@[i], interner@.len()),
    ensures
        r == any_unresolved(*xs, interner@),
{
    let mut i: usize = 0;
    while i < xs.len()
        invariant
            0 <= i <= xs@.len(),
            forall|k: int| 0 <= k < xs@.len() ==> names_below(#[trigger] xs@[k], interner@.len()),
            forall|k: int| 0 <= k < i ==> !unresolved_param(#[trigger] xs@[k], interner@),
        decreases xs@.len() - i,
    {
        if has_unresolved_type_param(&xs[i], interner) {
            return true;
        }
        i = i + 1;
    }
    false
}

/// What discovering a type appends: the earlier items stay, and the new ones are the
/// units that the type asks for.
pub open spec fn appended(before: Seq<WorkItem>, after: Seq<WorkItem>, ds: Seq<Work>) -> bool {
    &&& before.len() <= after.len()
    &&& after.subrange(0, before.len() as int) == before
    &&& works_match(after.subrange(before.len() as int, after.len() as int), ds)
}

/// Appending in two steps appends the concatenation.
pub proof fn lemma_appended_chain(a: Seq<WorkItem>, b: Seq<WorkItem>, c: Seq<WorkItem>, d1: Seq<Work>, d2: Seq<Work>)
    requires
        appended(a, b, d1),
        appended(b, c, d2),
    ensures
        appended(a, c, d1 + d2),
{
    assert(c.subrange(0, a.len() as int) == b.subrange(0, a.len() as int));
    let m = c.subrange(a.len() as int, c.len() as int);
    assert forall|i: int| 0 <= i < m.len() implies {
        &&& (#[trigger] m[i]).def_id == (d1 + d2)[i].0
        &&& m[i].kind == (d1 + d2)[i].1
        &&& ty_seq_eq(m[i].type_args@, (d1 + d2)[i].2)
    } by {
        if i < d1.len() {
            assert(m[i] == b.subrange(a.len() as int, b.len() as int)[i]);
        } else {
            assert(m[i] == c.subrange(b.len() as int, c.len() as int)[i - d1.len()]);
        }
    }
}

/// Appending nothing.
pub proof fn lemma_appended_none(a: Seq<WorkItem>)
    ensures
        appended(a, a, Seq::empty()),
{
    assert(a.subrange(0, a.len() as int) == a);
}

/// Appending one item.
pub proof fn lemma_appended_one(a: Seq<WorkItem>, w: WorkItem, d: Work)
    requires
        w.def_id == d.0,
        w.kind == d.1,
        ty_seq_eq(w.type_args@, d.2),
    ensures
        appended(a, a.push(w), seq![d]),
{
    assert(a.push(w).subrange(0, a.len() as int) == a);
    assert(a.push(w).subrange(a.len() as int, a.len() + 1 as int)[0] == w);
}

/// Appends the specializations that the types of `xs` ask for, in order.
fn discover_types_into(xs: &Vec<HirType>, index: &MonoIndex, interner: &mut Interner, items: &mut Vec<WorkItem>)
    requires
        forall|i: int| 0 <= i < xs@.len() ==> names_below(#[trigger] xs@[i], old(interner)@.len()),
        old(interner)@.len() + budgets(*xs, xs@.len()) < u32::MAX,
    ensures
        extends(old(interner)@, final(interner)@),
        final(interner)@.len() <= old(interner)@.len() + budgets(*xs, xs@.len()),
        forall|i: int| 0 <= i < xs@.len() ==> disc_ready(#[trigger] xs@[i], final(interner)@),
        appended(old(items)@, final(items)@, types_disc(*xs, xs@.len(), index.items(), final(interner)@)),
    decreases xs, xs@.len(),
{
    let ghost s0 = interner@;
    let ghost w0 = items@;
    let ghost its = index.items();
    proof {
        lemma_appended_none(w0);
    }
    let mut i: usize = 0;
    while i < xs.len()
        invariant
            0 <= i <= xs@.len(),
            s0 == old(interner)@,
            w0 == old(items)@,
            its == index.items(),
            extends(s0, interner@),
            interner@.len() <= s0.len() + budgets(*xs, i as nat),
            forall|k: int| 0 <= k < xs@.len() ==> names_below(#[trigger] xs@[k], s0.len()),
            s0.len() + budgets(*xs, xs@.len()) < u32::MAX,
            forall|k: int| 0 <= k < i ==> disc_ready(#[trigger] xs@[k], interner@),
            appended(w0, items@, types_disc(*xs, i as nat, its, interner@)),
        decreases xs@.len() - i,
    {
        proof {
            assert(decreases_to!(*xs => xs@[i as int]));
            lemma_budgets_mono(*xs, (i + 1) as nat, xs@.len());
            lemma_names_below_mono(xs@[i as int], s0.len(), interner@.len());
        }
        let ghost s1 = interner@;
        let ghost w1 = items@;
        discover_type_into(&xs[i], index, interner, items);
        proof {
            let s2 = interner@;
            assert forall|k: int| 0 <= k < i implies disc_ready(#[trigger] xs@[k], s2) by {
                lemma_names_below_mono(xs@[k], s0.len(), s1.len());
                lemma_disc_ready_extends(xs@[k], s1, s2);
            }
            assert forall|k: int| 0 <= k < xs@.len() implies names_below(#[trigger] xs@[k], s1.len()) by {
                lemma_names_below_mono(xs@[k], s0.len(), s1.len());
            }
            lemma_types_disc_extends(*xs, i as nat, its, s1, s2);
            lemma_appended_chain(w0, w1, items@, types_disc(*xs, i as nat, its, s2), type_disc(xs@[i as int], its, s2));
        }
        i = i + 1;
    }
    items.len();
}

/// Appends the specializations that `ty` asks for; see `type_disc`.
fn discover_type_into(ty: &HirType, index: &MonoIndex, interner: &mut Interner, items: &mut Vec<WorkItem>)
    requires
        names_below(*ty, old(interner)@.len()),
        old(interner)@.len() + intern_budget(*ty) < u32::MAX,
    ensures
        extends(old(interner)@, final(interner)@),
        final(interner)@.len() <= old(interner)@.len() + intern_budget(*ty),
        disc_ready(*ty, final(interner)@),
        appended(old(items)@, final(items)@, type_disc(*ty, index.items(), final(interner)@)),
    decreases ty, 0nat,
{
    let ghost s0 = interner@;
    let ghost w0 = items@;
    let ghost its = index.items();
    match ty {
        HirType::Generic(sym, args) => {
            proof { assert(decreases_to!(*ty => (*ty)->Generic_1)); }
            let unres = args_unresolved(args, interner);
            if !unres {
                if index.find_struct(*sym).is_some() {
                    let w = WorkItem::struct_specialize(*sym, copy_types(args));
                    proof { lemma_appended_one(w0, w, (*sym, ItemKind::StructSpecialize, args@)); }
                    items.push(w);
                } else if index.find_enum(*sym).is_some() {
                    let w = WorkItem::enum_specialize(*sym, copy_types(args));
                    proof { lemma_appended_one(w0, w, (*sym, ItemKind::EnumSpecialize, args@)); }
                    items.push(w);
                } else {
                    proof { lemma_appended_none(w0); }
                }
            } else {
                proof { lemma_appended_none(w0); }
            }
            let ghost w1 = items@;
            let ghost head = w1.subrange(w0.len() as int, w1.len() as int);
            discover_types_into(args, index, interner, items);
            proof {
                let s2 = interner@;
                lemma_any_unresolved_extends(*args, s0, s2);
                lemma_appended_chain(w0, w1, items@, head_disc_generic(*sym, *args, its, s2), types_disc(*args, args@.len(), its, s2));
                assert(type_disc(*ty, its, s2) == head_disc_generic(*sym, *args, its, s2) + types_disc(*args, args@.len(), its, s2));
            }
        },
        HirType::Option(inner) => {
            let unres = has_unresolved_type_param(inner, interner);
            if !unres {
                let opt_sym = interner.intern("Option");
                let ghost s1 = interner@;
                proof {
                    lemma_builtin_at(its, s1, "Option"@, opt_sym);
                }
                if index.find_enum(opt_sym).is_some() {
                    let mut args: Vec<HirType> = Vec::new();
                    args.push(copy_type(inner));
                    let w = WorkItem::enum_specialize(opt_sym, args);
                    proof { lemma_appended_one(w0, w, (opt_sym, ItemKind::EnumSpecialize, seq![**inner])); }
                    items.push(w);
                } else {
                    proof { lemma_appended_none(w0); }
                }
            } else {
                proof { lemma_appended_none(w0); }
            }
            let ghost s1 = interner@;
            let ghost w1 = items@;
            proof {
                lemma_names_below_mono(**inner, s0.len(), s1.len());
                lemma_unresolved_extends(**inner, s0, s1);
                assert(appended(w0, w1, head_disc_option(**inner, its, s1)));
                assert(!unresolved_param(**inner, s1) ==> table_has(s1, "Option"@));
            }
            discover_type_into(inner, index, interner, items);
            proof {
                let s2 = interner@;
                lemma_head_option_extends(**inner, its, s1, s2);
                lemma_unresolved_extends(**inner, s1, s2);
                lemma_appended_chain(w0, w1, items@, head_disc_option(**inner, its, s2), type_disc(**inner, its, s2));
                if table_has(s1, "Option"@) {
                    let j = choose|j: int| 0 <= j < s1.len() && s1[j] == "Option"@;
                    assert(s2[j] == "Option"@);
                }
            }
        },
        HirType::Result(ok, err) => {
            let unres = has_unresolved_type_param(ok, interner) || has_unresolved_type_param(err, interner);
            if !unres {
                let res_sym = interner.intern("Result");
                let ghost s1 = interner@;
                proof {
                    lemma_builtin_at(its, s1, "Result"@, res_sym);
                }
                if index.find_enum(res_sym).is_some() {
                    let mut args: Vec<HirType> = Vec::new();
                    args.push(copy_type(ok));
                    args.push(copy_type(err));
                    let w = WorkItem::enum_specialize(res_sym, args);
                    proof {
                        assert(w.type_args@[0] == args@[0]);
                        lemma_appended_one(w0, w, (res_sym, ItemKind::EnumSpecialize, seq![**ok, **err]));
                    }
                    items.push(w);
                } else {
                    proof { lemma_appended_none(w0); }
                }
            } else {
                proof { lemma_appended_none(w0); }
            }
            let ghost s1 = interner@;
            let ghost w1 = items@;
            proof {
                lemma_names_below_mono(**ok, s0.len(), s1.len());
                lemma_names_below_mono(**err, s0.len(), s1.len());
                lemma_unresolved_extends(**ok, s0, s1);
                lemma_unresolved_extends(**err, s0, s1);
                assert(appended(w0, w1, head_disc_result(**ok, **err, its, s1)));
            }
            discover_type_into(ok, index, interner, items);
            let ghost s2 = interner@;
            let ghost w2 = items@;
            proof {
                lemma_names_below_mono(**err, s1.len(), s2.len());
            }
            discover_type_into(err, index, interner, items);
            proof {
                let s3 = interner@;
                lemma_head_result_extends(**ok, **err, its, s1, s3);
                lemma_names_below_mono(**ok, s1.len(), s2.len());
                lemma_type_disc_extends(**ok, its, s2, s3);
                lemma_disc_ready_extends(**ok, s2, s3);
                lemma_unresolved_extends(**ok, s1, s3);
                lemma_unresolved_extends(**err, s1, s3);
                lemma_appended_chain(w0, w1, w2, head_disc_result(**ok, **err, its, s3), type_disc(**ok, its, s3));
                lemma_appended_chain(w0, w2, items@, head_disc_result(**ok, **err, its, s3) + type_disc(**ok, its, s3), type_disc(**err, its, s3));
                if table_has(s1, "Result"@) {
                    let j = choose|j: int| 0 <= j < s1.len() && s1[j] == "Result"@;
                    assert(s3[j] == "Result"@);
                }
            }
        },
        HirType::RawPtr(inner) => {
            discover_type_into(inner, index, interner, items);
        },
        HirType::Tuple(elems) => {
            proof { assert(decreases_to!(*ty => (*ty)->Tuple_0)); }
            discover_types_into(elems, index, interner, items);
        },
        HirType::Func(params, ret) => {
            proof { assert(decreases_to!(*ty => (*ty)->Func_0)); }
            discover_types_into(params, index, interner, items);
            let ghost s1 = interner@;
            let ghost w1 = items@;
            proof {
                lemma_budgets_mono(*params, params@.len(), params@.len());
                lemma_names_below_mono(**ret, s0.len(), s1.len());
            }
            discover_type_into(ret, index, interner, items);
            proof {
                let s2 = interner@;
                assert forall|k: int| 0 <= k < params@.len() implies names_below(#[trigger] params@[k], s1.len()) by {
                    lemma_names_below_mono(params@[k], s0.len(), s1.len());
                }
                assert forall|k: int| 0 <= k < params@.len() implies disc_ready(#[trigger] params@[k], s2) by {
                    lemma_disc_ready_extends(params@[k], s1, s2);
                }
                lemma_types_disc_extends(*params, params@.len(), its, s1, s2);
                lemma_appended_chain(w0, w1, items@, types_disc(*params, params@.len(), its, s2), type_disc(**ret, its, s2));
            }
        },
        _ => {
            proof { lemma_appended_none(w0); }
        },
    }
}

/// After interning `name` as `sym`, the builtin enum of that name is known exactly
/// when `sym` names an enum, and `sym` is its first symbol.
proof fn lemma_builtin_at(items: Seq<HirItem>, strs: Seq<Seq<char>>, name: Seq<char>, sym: Symbol)
    requires
        is_first_index(strs, name, sym.index() as int),
        strs.len() < u32::MAX,
    ensures
        builtin_enum(items, strs, name) == enum_at(items, items.len()).contains_key(sym),
        first_sym(strs, name) == sym,
{
    lemma_first_sym(strs, name, sym.index() as int);
    if builtin_enum(items, strs, name) {
        let i = choose|i: int| #[trigger] is_first_index(strs, name, i) && enum_at(items, items.len()).contains_key(Symbol(i as u32));
        lemma_first_index_unique(strs, name, i, sym.index() as int);
    }
    if enum_at(items, items.len()).contains_key(sym) {
        assert(is_first_index(strs, name, sym.index() as int) && enum_at(items, items.len()).contains_key(Symbol(sym.index() as u32)));
    }
}

/// The unit `Option<x>` asks for itself is unchanged when the table grows.
proof fn lemma_head_option_extends(x: HirType, items: Seq<HirItem>, small: Seq<Seq<char>>, big: Seq<Seq<char>>)
    requires
        names_below(x, small.len()),
        extends(small, big),
        !unresolved_param(x, small) ==> table_has(small, "Option"@),
    ensures
        head_disc_option(x, items, small) == head_disc_option(x, items, big),
{
    lemma_unresolved_extends(x, small, big);
    if !unresolved_param(x, small) {
        lemma_builtin_enum_same(items, small, big, "Option"@);
        lemma_first_sym_extends(small, big, "Option"@);
    }
}

/// The unit `Result<x, e>` asks for itself is unchanged when the table grows.
proof fn lemma_head_result_extends(x: HirType, e: HirType, items: Seq<HirItem>, small: Seq<Seq<char>>, big: Seq<Seq<char>>)
    requires
        names_below(x, small.len()),
        names_below(e, small.len()),
        extends(small, big),
        !unresolved_param(x, small) && !unresolved_param(e, small) ==> table_has(small, "Result"@),
    ensures
        head_disc_result(x, e, items, small) == head_disc_result(x, e, items, big),
{
    lemma_unresolved_extends(x, small, big);
    lemma_unresolved_extends(e, small, big);
    if !unresolved_param(x, small) && !unresolved_param(e, small) {
        lemma_builtin_enum_same(items, small, big, "Result"@);
        lemma_first_sym_extends(small, big, "Result"@);
    }
}

/// The struct and enum specializations that `ty` asks for, outermost first: each
/// generic struct or enum of the program whose type arguments hold no unresolved type
/// parameter, and `Option` or `Result` over such arguments when the program declares
/// them as enums (their names are interned to look them up). Components are visited
/// even where the enclosing type cannot be specialized yet.
pub fn discover_type_specializations(ty: &HirType, index: &MonoIndex, interner: &mut Interner) -> (r: Vec<WorkItem>)
    requires
        names_below(*ty, old(interner)@.len()),
        old(interner)@.len() + intern_budget(*ty) < u32::MAX,
    ensures
        extends(old(interner)@, final(interner)@),
        final(interner)@.len() <= old(interner)@.len() + intern_budget(*ty),
        disc_ready(*ty, final(interner)@),
        works_match(r@, type_disc(*ty, index.items(), final(interner)@)),
{
    let mut items: Vec<WorkItem> = Vec::new();
    discover_type_into(ty, index, interner, &mut items);
    proof {
        assert(items@.subrange(0, items@.len() as int) == items@);
    }
    items
}

/// The full symbol bound implies the bound on named types.
pub proof fn lemma_syms_below_names(t: HirType, n: nat)
    requires
        syms_below(t, n),
    ensures
        names_below(t, n),
    decreases t,
{
    match t {
        HirType::Generic(_, xs) => {
            assert forall|i: int| 0 <= i < xs@.len() implies names_below(#[trigger] xs@[i], n) by {
                assert(decreases_to!(t => t->Generic_1));
                lemma_syms_below_names(xs@[i], n);
            }
        },
        HirType::Tuple(xs) => {
            assert forall|i: int| 0 <= i < xs@.len() implies names_below(#[trigger] xs@[i], n) by {
                assert(decreases_to!(t => t->Tuple_0));
                lemma_syms_below_names(xs@[i], n);
            }
        },
        HirType::Func(xs, r) => {
            assert forall|i: int| 0 <= i < xs@.len() implies names_below(#[trigger] xs@[i], n) by {
                assert(decreases_to!(t => t->Func_0));
                lemma_syms_below_names(xs@[i], n);
            }
            lemma_syms_below_names(*r, n);
        },
        HirType::RawPtr(x) => lemma_syms_below_names(*x, n),
        HirType::Option(x) => lemma_syms_below_names(*x, n),
        HirType::Result(x, e) => {
            lemma_syms_below_names(*x, n);
            lemma_syms_below_names(*e, n);
        },
        _ => {},
    }
}

/// The function needs specialization: it has type parameters of its own, or it is a
/// method of an impl block for a generic type (see `MonoIndex::is_generic_fn`).
pub open spec fn generic_fn(index: &MonoIndex, name: Symbol) -> bool {
    (index.fn_named(name) matches Some(f) && f.type_params@.len() > 0)
        || generic_methods(index.items(), index.items().len()).contains(name)
}

/// Two underscores start at position `i` of `s`.
pub open spec fn dunder_at(s: Seq<char>, i: int) -> bool {
    0 <= i && i + 1 < s.len() && s[i] == '_' && s[i + 1] == '_'
}

/// The first position, at `i` or after, where two underscores start.
pub open spec fn first_dunder(s: Seq<char>, i: nat) -> Option<nat>
    decreases s.len() - i,
{
    if i + 1 >= s.len() {
        None
    } else if dunder_at(s, i as int) {
        Some(i)
    } else {
        first_dunder(s, i + 1)
    }
}

/// The base name of a possibly mangled function name: a name `base__args` stands for
/// `base` (the part before the first `__`); any other name stands for itself.
pub open spec fn demangled(callee: Symbol, strs: Seq<Seq<char>>) -> Symbol {
    let s = strs[callee.index() as int];
    match first_dunder(s, 0) {
        Some(p) => first_sym(strs, s.take(p as int)),
        None => callee,
    }
}

/// The base name of `callee`: its part before the first `__`, interned, or `callee`
/// itself when it holds no `__`.
fn demangle_callee(callee: Symbol, interner: &mut Interner) -> (r: Symbol)
    requires
        callee.index() < old(interner)@.len(),
        old(interner)@.len() + 1 < u32::MAX,
    ensures
        extends(old(interner)@, final(interner)@),
        final(interner)@.len() <= old(interner)@.len() + 1,
        r.index() < final(interner)@.len(),
        r == demangled(callee, final(interner)@),
        first_dunder(old(interner)@[callee.index() as int], 0) is None ==> final(interner)@ == old(interner)@,
        first_dunder(old(interner)@[callee.index() as int], 0) matches Some(p)
            ==> table_has(final(interner)@, old(interner)@[callee.index() as int].take(p as int)),
{
    let s: String = interner.resolve(callee).to_owned();
    let ghost sv = s@;
    let n = s.as_str().unicode_len();
    let mut i: usize = 0;
    while n > 0 && i < n - 1
        invariant
            n == sv.len(),
            sv == s@,
            sv == interner@[callee.index() as int],
            callee.index() < interner@.len(),
            interner@ == old(interner)@,
            interner@.len() + 1 < u32::MAX,
            i <= n,
            first_dunder(sv, 0) == first_dunder(sv, i as nat),
        decreases n - i,
    {
        if s.as_str().get_char(i) == '_' && s.as_str().get_char(i + 1) == '_' {
            assert(dunder_at(sv, i as int));
            assert(first_dunder(sv, i as nat) == Some(i as nat));
            let prefix = s.as_str().substring_char(0, i);
            assert(prefix@ == sv.take(i as int));
            let b = interner.intern(prefix);
            proof {
                let strs = interner@;
                assert(strs[callee.index() as int] == sv);
                lemma_first_sym(strs, sv.take(i as int), b.index() as int);
                assert(strs[b.index() as int] == sv.take(i as int));
            }
            return b;
        }
        i = i + 1;
    }
    proof {
        assert(first_dunder(sv, i as nat) is None);
    }
    callee
}

/// `cs` are the concrete forms of the types of `raw` under `sub`.
pub open spec fn concretes(raw: Vec<HirType>, sub: Map<Symbol, HirType>, cs: Vec<HirType>, items: Seq<HirItem>, strs: Seq<Seq<char>>) -> bool {
    &&& cs@.len() == raw@.len()
    &&& forall|i: int| 0 <= i < raw@.len() ==> subst_concretized(#[trigger] raw@[i], sub, cs@[i], items, strs)
}

/// A call to `base` with the concrete type arguments `cs` is renamed to the mangled
/// name of `base` applied to `cs`, and a generic `base` is to be specialized with `cs`.
pub open spec fn specialized(index: &MonoIndex, table: &MangleTable, strs: Seq<Seq<char>>, base: Symbol,
    cs: Vec<HirType>, r: (Symbol, Vec<WorkItem>)) -> bool
{
    &&& works_match(r.1@, if generic_fn(index, base) { seq![(base, ItemKind::FnSpecialize, cs@)] } else { Seq::empty() })
    &&& r.0.index() < strs.len()
    &&& strs[r.0.index() as int] == mangled_name(strs, base, cs)
    &&& table.maps(base, cs, r.0)
}

/// The outcome of discovering a call whose recorded type arguments are `raw`, where
/// `cs` are their concrete forms under `sub`: with no argument, or with one that still
/// holds an unresolved type parameter, the callee stays and nothing is discovered;
/// otherwise the call is `specialized` for the base name of the callee.
pub open spec fn call_outcome(index: &MonoIndex, table: &MangleTable, strs: Seq<Seq<char>>, callee: Symbol,
    raw: Vec<HirType>, sub: Map<Symbol, HirType>, cs: Vec<HirType>, r: (Symbol, Vec<WorkItem>)) -> bool
{
    &&& concretes(raw, sub, cs, index.items(), strs)
    &&& if cs@.len() == 0 || any_unresolved(cs, strs) {
        r.0 == callee && r.1@.len() == 0
    } else {
        specialized(index, table, strs, demangled(callee, strs), cs, r)
    }
}

/// The interner can take `extra` more strings beyond concretizing `raw` under `sub`.
pub open spec fn room_for(strs_len: nat, raw: Vec<HirType>, sub: Map<Symbol, HirType>, extra: nat) -> bool {
    strs_len + seq_subst_budget(raw@, sub, raw@.len()) + extra < u32::MAX
}

/// Every type of `raw` and of `sub` spells out only symbols below `n`.
pub open spec fn inputs_below(raw: Vec<HirType>, sub: Map<Symbol, HirType>, n: nat) -> bool {
    &&& forall|i: int| 0 <= i < raw@.len() ==> syms_below(#[trigger] raw@[i], n)
    &&& forall|k: Symbol| #[trigger] sub.contains_key(k) ==> syms_below(sub[k], n)
}

/// Concretizes `raw` under `sub` and, when every argument is concrete, renames the
/// callee and discovers the specialization; see `call_outcome`.
fn specialize_call_args(callee: Symbol, raw: &Vec<HirType>, sub: &TypeSubst, index: &MonoIndex,
    mangle_table: &mut MangleTable, interner: &mut Interner) -> (r: (Symbol, Vec<WorkItem>))
    requires
        old(mangle_table).agrees_with(old(interner)@),
        callee.index() < old(interner)@.len(),
        inputs_below(*raw, sub@, old(interner)@.len()),
        room_for(old(interner)@.len(), *raw, sub@, 2),
    ensures
        final(mangle_table).agrees_with(final(interner)@),
        extends(old(interner)@, final(interner)@),
        final(interner)@.len() <= old(interner)@.len() + seq_subst_budget(raw@, sub@, raw@.len()) + 2,
        exists|cs: Vec<HirType>| call_outcome(index, &*final(mangle_table), final(interner)@, callee, *raw, sub@, cs, r),
{
    let ghost s0 = interner@;
    let ghost its = index.items();
    let mut items: Vec<WorkItem> = Vec::new();
    let concrete = substitute_and_concretize_slice(raw.as_slice(), sub, index, mangle_table, interner);
    let ghost s1 = interner@;
    proof {
        assert forall|i: int| 0 <= i < concrete@.len() implies syms_below(#[trigger] concrete@[i], s1.len()) by {
            assert(subst_concretized(raw@[i], sub@, concrete@[i], its, s1));
            let mid = choose|mid: HirType| substituted(raw@[i], sub@, mid) && #[trigger] concrete_facts(mid, concrete@[i], its, s1);
        }
        assert forall|i: int| 0 <= i < concrete@.len() implies names_below(#[trigger] concrete@[i], s1.len()) by {
            lemma_syms_below_names(concrete@[i], s1.len());
        }
    }
    if concrete.len() == 0 || args_unresolved(&concrete, interner) {
        proof {
            assert(call_outcome(index, &*mangle_table, interner@, callee, *raw, sub@, concrete, (callee, items)));
        }
        return (callee, items);
    }
    proof {
        mangle_table.lemma_agrees_extends(s1, s1);
    }
    let base = demangle_callee(callee, interner);
    let ghost s2 = interner@;
    proof {
        mangle_table.lemma_agrees_extends(s1, s2);
        assert forall|i: int| 0 <= i < concrete@.len() implies short_syms_ok(#[trigger] concrete@[i], s2.len()) by {
            lemma_syms_below_mono(concrete@[i], s1.len(), s2.len());
            lemma_syms_below_short(concrete@[i], s2.len());
        }
    }
    if index.is_generic_fn(base) {
        let w = WorkItem::fn_specialize(base, copy_types(&concrete));
        items.push(w);
    }
    let new_callee = mangle_table.mangle_fn(base, &concrete, interner);
    proof {
        let s3 = interner@;
        assert forall|i: int| 0 <= i < raw@.len() implies subst_concretized(#[trigger] raw@[i], sub@, concrete@[i], its, s3) by {
            lemma_subst_concretized_extends(raw@[i], sub@, concrete@[i], its, s1, s3);
        }
        lemma_any_unresolved_extends(concrete, s1, s3);
        lemma_demangled_extends(callee, s0, s2, s3);
        assert(call_outcome(index, &*mangle_table, s3, callee, *raw, sub@, concrete, (new_callee, items)));
    }
    (new_callee, items)
}

/// The base name of a callee does not change when the table grows past the point
/// where it was interned.
proof fn lemma_demangled_extends(callee: Symbol, s0: Seq<Seq<char>>, small: Seq<Seq<char>>, big: Seq<Seq<char>>)
    requires
        callee.index() < s0.len(),
        extends(s0, small),
        extends(small, big),
        first_dunder(s0[callee.index() as int], 0) matches Some(p)
            ==> table_has(small, s0[callee.index() as int].take(p as int)),
    ensures
        demangled(callee, small) == demangled(callee, big),
{
    assert(small[callee.index() as int] == s0[callee.index() as int]);
    assert(big[callee.index() as int] == s0[callee.index() as int]);
    if let Some(p) = first_dunder(s0[callee.index() as int], 0) {
        lemma_first_sym_extends(small, big, s0[callee.index() as int].take(p as int));
    }
}

/// The specialization that a call asks for. The type arguments that type checking
/// recorded for the call `original_id` are substituted with `sub` and made concrete;
/// when there are none recorded the callee stays and nothing is discovered. Otherwise
/// see `call_outcome`: a pre-mangled callee such as `Vec_push__i64` is reduced to its
/// base name `Vec_push` first.
pub fn discover_call_specialization(original_id: ExprId, callee: Symbol, call_type_args: &CallTypeArgs,
    sub: &TypeSubst, index: &MonoIndex, mangle_table: &mut MangleTable, interner: &mut Interner) -> (r: (Symbol, Vec<WorkItem>))
    requires
        old(mangle_table).agrees_with(old(interner)@),
        callee.index() < old(interner)@.len(),
        call_type_args@.contains_key(original_id) ==> inputs_below(call_type_args@[original_id], sub@, old(interner)@.len())
            && room_for(old(interner)@.len(), call_type_args@[original_id], sub@, 2),
    ensures
        final(mangle_table).agrees_with(final(interner)@),
        extends(old(interner)@, final(interner)@),
        !call_type_args@.contains_key(original_id) ==> r.0 == callee && r.1@.len() == 0
            && final(interner)@ == old(interner)@ && final(mangle_table).entries() == old(mangle_table).entries(),
        call_type_args@.contains_key(original_id) ==> exists|cs: Vec<HirType>| call_outcome(index, &*final(mangle_table),
            final(interner)@, callee, call_type_args@[original_id], sub@, cs, r),
{
    match call_type_args.get(&original_id) {
        Some(raw) => specialize_call_args(callee, raw, sub, index, mangle_table, interner),
        None => (callee, Vec::new()),
    }
}

/// The receiver type with one raw-pointer layer removed: the type a method is looked
/// up on.
pub open spec fn receiver_inner(t: HirType) -> HirType {
    match t {
        HirType::RawPtr(x) => *x,
        _ => t,
    }
}

/// The struct or enum name of a type, if it has one.
pub open spec fn type_head(t: HirType) -> Option<Symbol> {
    match t {
        HirType::Named(n) => Some(n),
        HirType::Generic(n, _) => Some(n),
        _ => None,
    }
}

/// The symbol of the name `Type_method`.
pub open spec fn method_base(strs: Seq<Seq<char>>, tn: Symbol, m: Symbol) -> Symbol {
    first_sym(strs, strs[tn.index() as int] + "_"@ + strs[m.index() as int])
}

/// The type arguments that a method call is specialized with: those recorded for the
/// call, else those of a generic receiver type.
pub open spec fn method_raw(cta: Map<ExprId, Vec<HirType>>, id: ExprId, inner: HirType) -> Option<Vec<HirType>> {
    if cta.contains_key(id) {
        Some(cta[id])
    } else {
        match inner {
            HirType::Generic(_, xs) => Some(xs),
            _ => None,
        }
    }
}

/// The name of the receiver's type and the type arguments that a method call is
/// specialized with, if both exist: the receiver has a recorded type, with one
/// raw-pointer layer removed it is a struct or enum type, and there are type arguments
/// recorded for the call or the receiver type is generic.
pub open spec fn method_plan(cta: Map<ExprId, Vec<HirType>>, id: ExprId, rid: ExprId, input: Seq<HirType>) -> Option<(Symbol, Vec<HirType>)> {
    if rid.0 >= input.len() {
        None
    } else {
        let inner = receiver_inner(input[rid.0 as int]);
        match type_head(inner) {
            None => None,
            Some(tn) => match method_raw(cta, id, inner) {
                None => None,
                Some(raw) => Some((tn, raw)),
            },
        }
    }
}

/// The outcome of discovering a method call: without a `method_plan` the call is left
/// alone (`None`); so it is when the concrete type arguments `cs` are empty or still
/// hold an unresolved type parameter. Otherwise the call becomes a call of
/// `Type_method`, `specialized` with `cs`.
pub open spec fn method_outcome(index: &MonoIndex, table: &MangleTable, strs: Seq<Seq<char>>,
    cta: Map<ExprId, Vec<HirType>>, id: ExprId, rid: ExprId, method_name: Symbol, input: Seq<HirType>,
    sub: Map<Symbol, HirType>, r: Option<(Symbol, Vec<WorkItem>)>) -> bool
{
    match method_plan(cta, id, rid, input) {
        None => r is None,
        Some(plan) => method_exists(index, table, strs, plan.1, sub, method_base(strs, plan.0, method_name), r),
    }
}

/// Some concrete forms of `raw` give the outcome `r` for a method call of `base`.
pub open spec fn method_exists(index: &MonoIndex, table: &MangleTable, strs: Seq<Seq<char>>, raw: Vec<HirType>,
    sub: Map<Symbol, HirType>, base: Symbol, r: Option<(Symbol, Vec<WorkItem>)>) -> bool
{
    exists|cs: Vec<HirType>| #[trigger] method_with(index, table, strs, raw, sub, cs, base, r)
}

/// The outcome of a method call of `base` whose type arguments `raw` have the concrete
/// forms `cs`.
pub open spec fn method_with(index: &MonoIndex, table: &MangleTable, strs: Seq<Seq<char>>, raw: Vec<HirType>,
    sub: Map<Symbol, HirType>, cs: Vec<HirType>, base: Symbol, r: Option<(Symbol, Vec<WorkItem>)>) -> bool
{
    &&& concretes(raw, sub, cs, index.items(), strs)
    &&& if cs@.len() == 0 || any_unresolved(cs, strs) {
        r is None
    } else {
        r matches Some(p) && specialized(index, table, strs, base, cs, p)
    }
}

/// What a method call needs of its inputs: symbols below `n` and room for `extra`
/// names beyond concretizing its type arguments.
pub open spec fn method_inputs_ok(cta: Map<ExprId, Vec<HirType>>, id: ExprId, rid: ExprId, input: Seq<HirType>,
    sub: Map<Symbol, HirType>, n: nat, extra: nat) -> bool
{
    rid.0 < input.len() ==> {
        let inner = receiver_inner(input[rid.0 as int]);
        &&& syms_below(inner, n)
        &&& method_raw(cta, id, inner) matches Some(raw) ==> inputs_below(raw, sub, n) && room_for(n, raw, sub, extra)
    }
}

/// The specialization that a method call asks for, using the receiver's type from
/// `input_expr_types` to name the method `Type_method` (the name is interned), with
/// the type arguments recorded for the call, else those of a generic receiver type;
/// see `method_outcome`.
pub fn discover_method_call_specialization(original_id: ExprId, receiver_original_id: ExprId, method_name: Symbol,
    input_expr_types: &[HirType], call_type_args: &CallTypeArgs, sub: &TypeSubst, index: &MonoIndex,
    mangle_table: &mut MangleTable, interner: &mut Interner) -> (r: Option<(Symbol, Vec<WorkItem>)>)
    requires
        old(mangle_table).agrees_with(old(interner)@),
        method_name.index() < old(interner)@.len(),
        method_inputs_ok(call_type_args@, original_id, receiver_original_id, input_expr_types@, sub@, old(interner)@.len(), 2),
        old(interner)@.len() + 2 < u32::MAX,
    ensures
        final(mangle_table).agrees_with(final(interner)@),
        extends(old(interner)@, final(interner)@),
        method_outcome(index, &*final(mangle_table), final(interner)@, call_type_args@, original_id,
            receiver_original_id, method_name, input_expr_types@, sub@, r),
{
    let ghost s0 = interner@;
    let ghost its = index.items();
    let ridx = receiver_original_id.as_usize();
    if ridx >= input_expr_types.len() {
        return None;
    }
    let receiver_ty = &input_expr_types[ridx];
    let inner_ty: &HirType = match receiver_ty {
        HirType::RawPtr(inner) => inner,
        other => other,
    };
    assert(*inner_ty == receiver_inner(input_expr_types@[ridx as int]));
    let head_name = match inner_ty {
        HirType::Named(n) => *n,
        HirType::Generic(n, _) => *n,
        _ => {
            return None;
        },
    };
    let mut name: String = interner.resolve(head_name).to_owned();
    name.append("_");
    name.append(interner.resolve(method_name));
    let base = interner.intern(name.as_str());
    let ghost s1 = interner@;
    proof {
        lemma_first_sym(s1, name@, base.index() as int);
        assert(s1[head_name.index() as int] == s0[head_name.index() as int]);
        assert(s1[method_name.index() as int] == s0[method_name.index() as int]);
        assert(base == method_base(s1, head_name, method_name));
        mangle_table.lemma_agrees_extends(s0, s1);
    }
    let raw: &Vec<HirType> = match call_type_args.get(&original_id) {
        Some(a) => a,
        None => match inner_ty {
            HirType::Generic(_, targs) => targs,
            _ => {
                return None;
            },
        },
    };
    proof {
        assert(method_raw(call_type_args@, original_id, *inner_ty) == Some(*raw));
        assert forall|i: int| 0 <= i < raw@.len() implies syms_below(#[trigger] raw@[i], s1.len()) by {
            lemma_syms_below_mono(raw@[i], s0.len(), s1.len());
        }
        assert forall|k: Symbol| #[trigger] sub@.contains_key(k) implies syms_below(sub@[k], s1.len()) by {
            lemma_syms_below_mono(sub@[k], s0.len(), s1.len());
        }
    }
    let concrete = substitute_and_concretize_slice(raw.as_slice(), sub, index, mangle_table, interner);
    let ghost s2 = interner@;
    proof {
        assert forall|i: int| 0 <= i < concrete@.len() implies syms_below(#[trigger] concrete@[i], s2.len()) by {
            assert(subst_concretized(raw@[i], sub@, concrete@[i], its, s2));
            let mid = choose|mid: HirType| substituted(raw@[i], sub@, mid) && #[trigger] concrete_facts(mid, concrete@[i], its, s2);
        }
        assert forall|i: int| 0 <= i < concrete@.len() implies names_below(#[trigger] concrete@[i], s2.len()) by {
            lemma_syms_below_names(concrete@[i], s2.len());
        }
    }
    if concrete.len() == 0 || args_unresolved(&concrete, interner) {
        proof {
            assert(concretes(*raw, sub@, concrete, its, s2));
            assert(type_head(*inner_ty) == Some(head_name));
            assert(table_has(s1, name@)) by {
                assert(s1[base.index() as int] == name@);
            }
            lemma_first_sym_extends(s1, s2, name@);
            assert(s2[head_name.index() as int] == s0[head_name.index() as int]);
            assert(s2[method_name.index() as int] == s0[method_name.index() as int]);
            assert(base == method_base(s2, head_name, method_name));
            assert(method_with(index, &*mangle_table, s2, *raw, sub@, concrete, base, None));
            assert(method_plan(call_type_args@, original_id, receiver_original_id, input_expr_types@) == Some((head_name, *raw)));
            assert(method_exists(index, &*mangle_table, s2, *raw, sub@, base, None));
            assert(method_outcome(index, &*mangle_table, s2, call_type_args@, original_id, receiver_original_id,
                method_name, input_expr_types@, sub@, None));
        }
        return None;
    }
    let mut items: Vec<WorkItem> = Vec::new();
    if index.is_generic_fn(base) {
        let w = WorkItem::fn_specialize(base, copy_types(&concrete));
        items.push(w);
    }
    proof {
        assert forall|i: int| 0 <= i < concrete@.len() implies short_syms_ok(#[trigger] concrete@[i], s2.len()) by {
            lemma_syms_below_short(concrete@[i], s2.len());
        }
    }
    let new_callee = mangle_table.mangle_fn(base, &concrete, interner);
    proof {
        let s3 = interner@;
        assert forall|i: int| 0 <= i < raw@.len() implies subst_concretized(#[trigger] raw@[i], sub@, concrete@[i], its, s3) by {
            lemma_subst_concretized_extends(raw@[i], sub@, concrete@[i], its, s2, s3);
        }
        lemma_any_unresolved_extends(concrete, s2, s3);
        assert(table_has(s1, name@)) by {
            assert(s1[base.index() as int] == name@);
        }
        lemma_first_sym_extends(s1, s3, name@);
        assert(s3[head_name.index() as int] == s0[head_name.index() as int]);
        assert(s3[method_name.index() as int] == s0[method_name.index() as int]);
        assert(base == method_base(s3, head_name, method_name));
        assert(concretes(*raw, sub@, concrete, its, s3));
        assert(specialized(index, &*mangle_table, s3, base, concrete, (new_callee, items)));
        assert(type_head(*inner_ty) == Some(head_name));
        assert(method_with(index, &*mangle_table, s3, *raw, sub@, concrete, base, Some((new_callee, items))));
        assert(method_plan(call_type_args@, original_id, receiver_original_id, input_expr_types@) == Some((head_name, *raw)));
        assert(method_exists(index, &*mangle_table, s3, *raw, sub@, base, Some((new_callee, items))));
        assert(method_outcome(index, &*mangle_table, s3, call_type_args@, original_id, receiver_original_id,
            method_name, input_expr_types@, sub@, Some((new_callee, items))));
    }
    Some((new_callee, items))
}


/// `x`, or `u64::MAX` when `x` is larger.
pub open spec fn capped(x: nat) -> nat {
    if x < u64::MAX { x } else { u64::MAX as nat }
}

/// Saturating sum of two capped values.
fn add_capped(a: u64, b: u64, Ghost(x): Ghost<nat>, Ghost(y): Ghost<nat>) -> (r: u64)
    requires
        a == capped(x),
        b == capped(y),
    ensures
        r == capped(x + y),
{
    match a.checked_add(b) {
        Some(c) => c,
        None => u64::MAX,
    }
}

/// `intern_budget(t)`, capped at `u64::MAX`.
fn intern_budget_capped(t: &HirType) -> (r: u64)
    ensures
        r == capped(intern_budget(*t)),
    decreases t,
{
    match t {
        HirType::Generic(_, xs) => {
            proof { assert(decreases_to!(*t => (*t)->Generic_1)); }
            add_capped(1, budgets_capped(xs), Ghost(1), Ghost(budgets(*xs, xs@.len())))
        },
        HirType::Tuple(xs) => {
            proof { assert(decreases_to!(*t => (*t)->Tuple_0)); }
            budgets_capped(xs)
        },
        HirType::RawPtr(x) => intern_budget_capped(x),
        HirType::Option(x) => add_capped(2, intern_budget_capped(x), Ghost(2), Ghost(intern_budget(**x))),
        HirType::Result(x, e) => {
            let a = add_capped(2, intern_budget_capped(x), Ghost(2), Ghost(intern_budget(**x)));
            add_capped(a, intern_budget_capped(e), Ghost(2 + intern_budget(**x)), Ghost(intern_budget(**e)))
        },
        HirType::Func(xs, r) => {
            proof { assert(decreases_to!(*t => (*t)->Func_0)); }
            add_capped(budgets_capped(xs), intern_budget_capped(r), Ghost(budgets(*xs, xs@.len())), Ghost(intern_budget(**r)))
        },
        _ => 0,
    }
}

/// `budgets(xs)`, capped at `u64::MAX`.
fn budgets_capped(xs: &Vec<HirType>) -> (r: u64)
    ensures
        r == capped(budgets(*xs, xs@.len())),
    decreases xs,
{
    let mut acc: u64 = 0;
    let mut i: usize = 0;
    while i < xs.len()
        invariant
            0 <= i <= xs@.len(),
            acc == capped(budgets(*xs, i as nat)),
        decreases xs@.len() - i,
    {
        proof { assert(decreases_to!(*xs => xs@[i as int])); }
        let b = intern_budget_capped(&xs[i]);
        acc = add_capped(acc, b, Ghost(budgets(*xs, i as nat)), Ghost(intern_budget(xs@[i as int])));
        i = i + 1;
    }
    acc
}

/// `subst_budget(t, sub)`, capped at `u64::MAX`.
fn subst_budget_capped(t: &HirType, sub: &TypeSubst) -> (r: u64)
    ensures
        r == capped(subst_budget(*t, sub@)),
    decreases t,
{
    match t {
        HirType::Named(s) | HirType::Param(s) => match sub.get(s) {
            Some(b) => intern_budget_capped(b),
            None => 0,
        },
        HirType::Generic(_, xs) => {
            proof { assert(decreases_to!(*t => (*t)->Generic_1)); }
            add_capped(1, subst_budgets_capped(xs, sub), Ghost(1), Ghost(subst_budgets(*xs, sub@, xs@.len())))
        },
        HirType::Tuple(xs) => {
            proof { assert(decreases_to!(*t => (*t)->Tuple_0)); }
            subst_budgets_capped(xs, sub)
        },
        HirType::RawPtr(x) => subst_budget_capped(x, sub),
        HirType::Option(x) => add_capped(2, subst_budget_capped(x, sub), Ghost(2), Ghost(subst_budget(**x, sub@))),
        HirType::Result(x, e) => {
            let a = add_capped(2, subst_budget_capped(x, sub), Ghost(2), Ghost(subst_budget(**x, sub@)));
            add_capped(a, subst_budget_capped(e, sub), Ghost(2 + subst_budget(**x, sub@)), Ghost(subst_budget(**e, sub@)))
        },
        HirType::Func(xs, r) => {
            proof { assert(decreases_to!(*t => (*t)->Func_0)); }
            add_capped(subst_budgets_capped(xs, sub), subst_budget_capped(r, sub),
                Ghost(subst_budgets(*xs, sub@, xs@.len())), Ghost(subst_budget(**r, sub@)))
        },
        _ => 0,
    }
}

/// `subst_budgets(xs, sub)`, capped at `u64::MAX`; it equals the budget of the
/// sequence `xs@`.
fn subst_budgets_capped(xs: &Vec<HirType>, sub: &TypeSubst) -> (r: u64)
    ensures
        r == capped(subst_budgets(*xs, sub@, xs@.len())),
        r == capped(seq_subst_budget(xs@, sub@, xs@.len())),
    decreases xs,
{
    let mut acc: u64 = 0;
    let mut i: usize = 0;
    while i < xs.len()
        invariant
            0 <= i <= xs@.len(),
            acc == capped(subst_budgets(*xs, sub@, i as nat)),
            subst_budgets(*xs, sub@, i as nat) == seq_subst_budget(xs@, sub@, i as nat),
        decreases xs@.len() - i,
    {
        proof { assert(decreases_to!(*xs => xs@[i as int])); }
        let b = subst_budget_capped(&xs[i], sub);
        acc = add_capped(acc, b, Ghost(subst_budgets(*xs, sub@, i as nat)), Ghost(subst_budget(xs@[i as int], sub@)));
        i = i + 1;
    }
    acc
}

/// Whether the interner can take `b` (a capped budget) more names and stay below its
/// limit.
fn has_room(interner: &Interner, b: u64, Ghost(x): Ghost<nat>) -> (r: bool)
    requires
        b == capped(x),
    ensures
        r <==> interner@.len() + x < u32::MAX,
{
    if b >= 0xffff_ffffu64 {
        false
    } else {
        (interner.len() as u64) + b < 0xffff_ffffu64
    }
}


/// The return types of the program's functions spell out only symbols below `n`.
pub open spec fn fn_rets_below(index: &MonoIndex, n: nat) -> bool {
    forall|s: Symbol| #[trigger] index.fn_named(s) matches Some(f) ==> (f.ret matches Some(r) ==> syms_below(r, n))
}

/// The recorded types spell out only symbols below `n`.
pub open spec fn types_below(types: Seq<HirType>, n: nat) -> bool {
    forall|i: int| 0 <= i < types.len() ==> syms_below(#[trigger] types[i], n)
}

/// The bound types of `sub` spell out only symbols below `n`.
pub open spec fn sub_below(sub: Map<Symbol, HirType>, n: nat) -> bool {
    forall|k: Symbol| #[trigger] sub.contains_key(k) ==> syms_below(sub[k], n)
}

/// The type name and type arguments of a `for` loop's iterator, when its recorded type
/// (with one raw-pointer layer removed) is generic.
pub open spec fn forin_head(types: Seq<HirType>, iter_id: ExprId) -> Option<(Symbol, Vec<HirType>)> {
    if iter_id.0 < types.len() {
        match receiver_inner(types[iter_id.0 as int]) {
            HirType::Generic(tn, targs) => Some((tn, targs)),
            _ => None,
        }
    } else {
        None
    }
}

/// What a `for` loop over `types[iter_id]` discovers: see `forin_with`. Near the
/// interner's limit, when the names that the first step may intern would not fit,
/// nothing is discovered.
pub open spec fn forin_ok(index: &MonoIndex, types: Seq<HirType>, sub: Map<Symbol, HirType>, strs: Seq<Seq<char>>,
    iter_id: ExprId, out: Seq<WorkItem>) -> bool
{
    match forin_head(types, iter_id) {
        None => out.len() == 0,
        Some(h) => {
            ||| out.len() == 0 && strs.len() + seq_subst_budget(h.1@, sub, h.1@.len()) + 2 >= u32::MAX
            ||| exists|cs: Vec<HirType>| #[trigger] forin_with(index, sub, strs, h.0, h.1, cs, out)
        },
    }
}

/// The iterator type `tn<targs>` has the concrete arguments `cs`. When they are empty
/// or not all resolved nothing is discovered. Otherwise, when the program has a
/// function `tn_iter` (the name is interned), it is to be specialized with `cs`, and
/// then `next_ok` tells what its return type adds.
pub open spec fn forin_with(index: &MonoIndex, sub: Map<Symbol, HirType>, strs: Seq<Seq<char>>, tn: Symbol,
    targs: Vec<HirType>, cs: Vec<HirType>, out: Seq<WorkItem>) -> bool
{
    &&& concretes(targs, sub, cs, index.items(), strs)
    &&& tn.index() < strs.len()
    &&& if cs@.len() == 0 || any_unresolved(cs, strs) {
        out.len() == 0
    } else {
        let name = strs[tn.index() as int] + "_iter"@;
        &&& table_has(strs, name)
        &&& match index.fn_named(first_sym(strs, name)) {
            None => out.len() == 0,
            Some(f) => out.len() >= 1
                && works_match(out.take(1), seq![(first_sym(strs, name), ItemKind::FnSpecialize, cs@)])
                && next_ok(index, strs, f, cs, out.skip(1)),
        }
    }
}

/// What the return type of the iterator function `f`, with its type parameters bound
/// to `cs`, adds: see `next_with`; nothing when `f` returns nothing.
pub open spec fn next_ok(index: &MonoIndex, strs: Seq<Seq<char>>, f: HirFn, cs: Vec<HirType>, out: Seq<WorkItem>) -> bool {
    match f.ret {
        None => out.len() == 0,
        Some(ret) => exists|m: Map<Symbol, HirType>, rt: HirType| #[trigger] next_with(index, strs, m, rt, out)
            && subst_equiv(m, param_map(f.type_params@, cs@)) && substituted(ret, m, rt),
    }
}

/// When the bound return type `rt` is generic, `iname<iargs>`, the name `iname_next` is
/// interned, and when the program has that function it is to be specialized with the
/// concrete forms of `iargs` under `m`, unless they are empty or not all resolved.
/// Near the interner's limit, when concretizing `iargs` would not fit, it is skipped.
pub open spec fn next_with(index: &MonoIndex, strs: Seq<Seq<char>>, m: Map<Symbol, HirType>, rt: HirType, out: Seq<WorkItem>) -> bool {
    match rt {
        HirType::Generic(iname, iargs) => {
            let name = strs[iname.index() as int] + "_next"@;
            &&& iname.index() < strs.len()
            &&& table_has(strs, name)
            &&& if index.fn_named(first_sym(strs, name)) is None {
                out.len() == 0
            } else {
                ||| out.len() == 0 && strs.len() + seq_subst_budget(iargs@, m, iargs@.len()) >= u32::MAX
                ||| exists|ncs: Vec<HirType>| #[trigger] concretes(iargs, m, ncs, index.items(), strs)
                    && if ncs@.len() == 0 || any_unresolved(ncs, strs) {
                        out.len() == 0
                    } else {
                        works_match(out, seq![(first_sym(strs, name), ItemKind::FnSpecialize, ncs@)])
                    }
            }
        },
        _ => out.len() == 0,
    }
}

/// The bindings of `param_map` are among the arguments, so they keep a symbol bound.
proof fn lemma_param_map_below(params: Seq<Symbol>, args: Seq<HirType>, n: nat)
    requires
        forall|i: int| 0 <= i < args.len() ==> syms_below(#[trigger] args[i], n),
    ensures
        sub_below(param_map(params, args), n),
{
    let z = if params.len() < args.len() { params.len() } else { args.len() };
    assert forall|k: Symbol| #[trigger] param_map(params, args).contains_key(k) implies syms_below(param_map(params, args)[k], n) by {
        lemma_last_pos(params, k, z);
    }
}

/// The concrete forms of types spell out only symbols below the table's length.
proof fn lemma_concretes_below(raw: Vec<HirType>, sub: Map<Symbol, HirType>, cs: Vec<HirType>, items: Seq<HirItem>, strs: Seq<Seq<char>>)
    requires
        concretes(raw, sub, cs, items, strs),
    ensures
        forall|i: int| 0 <= i < cs@.len() ==> syms_below(#[trigger] cs@[i], strs.len()),
        forall|i: int| 0 <= i < cs@.len() ==> names_below(#[trigger] cs@[i], strs.len()),
{
    assert forall|i: int| 0 <= i < cs@.len() implies syms_below(#[trigger] cs@[i], strs.len()) && names_below(cs@[i], strs.len()) by {
        assert(subst_concretized(raw@[i], sub, cs@[i], items, strs));
        let mid = choose|mid: HirType| substituted(raw@[i], sub, mid) && #[trigger] concrete_facts(mid, cs@[i], items, strs);
        lemma_syms_below_names(cs@[i], strs.len());
    }
}

/// Concrete forms stay so when the table grows.
proof fn lemma_concretes_extends(raw: Vec<HirType>, sub: Map<Symbol, HirType>, cs: Vec<HirType>, items: Seq<HirItem>,
    small: Seq<Seq<char>>, big: Seq<Seq<char>>)
    requires
        concretes(raw, sub, cs, items, small),
        extends(small, big),
    ensures
        concretes(raw, sub, cs, items, big),
        any_unresolved(cs, small) == any_unresolved(cs, big),
{
    assert forall|i: int| 0 <= i < raw@.len() implies subst_concretized(#[trigger] raw@[i], sub, cs@[i], items, big) by {
        lemma_subst_concretized_extends(raw@[i], sub, cs@[i], items, small, big);
    }
    lemma_concretes_below(raw, sub, cs, items, small);
    lemma_any_unresolved_extends(cs, small, big);
}

/// What a `for` loop discovers stays so when the table grows.
pub proof fn lemma_forin_ok_extends(index: &MonoIndex, types: Seq<HirType>, sub: Map<Symbol, HirType>,
    small: Seq<Seq<char>>, big: Seq<Seq<char>>, iter_id: ExprId, out: Seq<WorkItem>)
    requires
        forin_ok(index, types, sub, small, iter_id, out),
        extends(small, big),
    ensures
        forin_ok(index, types, sub, big, iter_id, out),
{
    if let Some(h) = forin_head(types, iter_id) {
        if out.len() == 0 && small.len() + seq_subst_budget(h.1@, sub, h.1@.len()) + 2 >= u32::MAX {
        } else {
            let cs = choose|cs: Vec<HirType>| #[trigger] forin_with(index, sub, small, h.0, h.1, cs, out);
            lemma_concretes_extends(h.1, sub, cs, index.items(), small, big);
            if !(cs@.len() == 0 || any_unresolved(cs, small)) {
                let name = small[h.0.index() as int] + "_iter"@;
                assert(big[h.0.index() as int] == small[h.0.index() as int]);
                lemma_first_sym_extends(small, big, name);
                assert(table_has(big, name));
                if let Some(f) = index.fn_named(first_sym(small, name)) {
                    if let Some(ret) = f.ret {
                        let (m, rt) = choose|m: Map<Symbol, HirType>, rt: HirType| #[trigger] next_with(index, small, m, rt, out.skip(1))
                            && subst_equiv(m, param_map(f.type_params@, cs@)) && substituted(ret, m, rt);
                        lemma_next_with_extends(index, small, big, m, rt, out.skip(1));
                    }
                }
            }
            assert(forin_with(index, sub, big, h.0, h.1, cs, out));
        }
    }
}

/// What the iterator's return type adds stays so when the table grows.
proof fn lemma_next_with_extends(index: &MonoIndex, small: Seq<Seq<char>>, big: Seq<Seq<char>>, m: Map<Symbol, HirType>,
    rt: HirType, out: Seq<WorkItem>)
    requires
        next_with(index, small, m, rt, out),
        extends(small, big),
    ensures
        next_with(index, big, m, rt, out),
{
    if let HirType::Generic(iname, iargs) = rt {
        let name = small[iname.index() as int] + "_next"@;
        assert(big[iname.index() as int] == small[iname.index() as int]);
        lemma_first_sym_extends(small, big, name);
        assert(table_has(big, name));
        if index.fn_named(first_sym(small, name)) is Some {
            if out.len() == 0 && small.len() + seq_subst_budget(iargs@, m, iargs@.len()) >= u32::MAX {
            } else {
                let ncs = choose|ncs: Vec<HirType>| #[trigger] concretes(iargs, m, ncs, index.items(), small)
                    && if ncs@.len() == 0 || any_unresolved(ncs, small) {
                        out.len() == 0
                    } else {
                        works_match(out, seq![(first_sym(small, name), ItemKind::FnSpecialize, ncs@)])
                    };
                lemma_concretes_extends(iargs, m, ncs, index.items(), small, big);
            }
        }
    }
}


/// `after` is `before` with more items appended.
pub open spec fn grown(before: Seq<WorkItem>, after: Seq<WorkItem>) -> bool {
    before.len() <= after.len() && after.take(before.len() as int) == before
}

/// The interned symbol of `base` followed by `suffix`.
fn intern_suffixed(base: Symbol, suffix: &str, interner: &mut Interner) -> (r: Symbol)
    requires
        base.index() < old(interner)@.len(),
        old(interner)@.len() < u32::MAX,
    ensures
        extends(old(interner)@, final(interner)@),
        final(interner)@.len() <= old(interner)@.len() + 1,
        table_has(final(interner)@, old(interner)@[base.index() as int] + suffix@),
        r == first_sym(final(interner)@, old(interner)@[base.index() as int] + suffix@),
        r.index() < final(interner)@.len(),
{
    let mut name: String = interner.resolve(base).to_owned();
    name.append(suffix);
    let r = interner.intern(name.as_str());
    proof {
        let strs = interner@;
        lemma_first_sym(strs, name@, r.index() as int);
    }
    r
}

/// Appends what the `for` loop over the iterator `iter_original_id` discovers; see
/// `forin_ok`.
#[verifier::spinoff_prover]
fn discover_forin_into(iter_original_id: ExprId, input_expr_types: &[HirType], sub: &TypeSubst, index: &MonoIndex,
    mangle_table: &mut MangleTable, interner: &mut Interner, items: &mut Vec<WorkItem>)
    requires
        old(mangle_table).agrees_with(old(interner)@),
        types_below(input_expr_types@, old(interner)@.len()),
        sub_below(sub@, old(interner)@.len()),
        fn_rets_below(index, old(interner)@.len()),
    ensures
        final(mangle_table).agrees_with(final(interner)@),
        extends(old(interner)@, final(interner)@),
        grown(old(items)@, final(items)@),
        forin_ok(index, input_expr_types@, sub@, final(interner)@, iter_original_id, final(items)@.skip(old(items)@.len() as int)),
{
    let ghost s0 = interner@;
    let ghost w0 = items@;
    let ghost its = index.items();
    proof {
        assert(items@.skip(w0.len() as int).len() == 0);
        assert(items@.take(w0.len() as int) == w0);
    }
    let i = iter_original_id.as_usize();
    if i >= input_expr_types.len() {
        return;
    }
    let inner: &HirType = match &input_expr_types[i] {
        HirType::RawPtr(x) => x,
        other => other,
    };
    proof {
        assert(*inner == receiver_inner(input_expr_types@[i as int]));
        assert(syms_below(input_expr_types@[i as int], s0.len()));
        assert(syms_below(*inner, s0.len()));
    }
    let (tn, targs) = match inner {
        HirType::Generic(tn, targs) => (*tn, targs),
        _ => {
            return;
        },
    };
    proof {
        assert(forin_head(input_expr_types@, iter_original_id) == Some((tn, *targs)));
        assert(tn.index() < s0.len());
        assert(forall|k: int| 0 <= k < targs@.len() ==> syms_below(#[trigger] targs@[k], s0.len()));
    }
    let b = add_capped(subst_budgets_capped(targs, sub), 2, Ghost(seq_subst_budget(targs@, sub@, targs@.len())), Ghost(2));
    if !has_room(interner, b, Ghost(seq_subst_budget(targs@, sub@, targs@.len()) + 2)) {
        return;
    }
    let cs = substitute_and_concretize_slice(targs.as_slice(), sub, index, mangle_table, interner);
    let ghost s1 = interner@;
    proof {
        lemma_concretes_below(*targs, sub@, cs, its, s1);
    }
    if cs.len() == 0 || args_unresolved(&cs, interner) {
        proof {
            assert(forin_with(index, sub@, s1, tn, *targs, cs, items@.skip(w0.len() as int)));
        }
        return;
    }
    let im = intern_suffixed(tn, "_iter", interner);
    let ghost s2 = interner@;
    proof {
        mangle_table.lemma_agrees_extends(s1, s2);
        lemma_concretes_extends(*targs, sub@, cs, its, s1, s2);
        lemma_concretes_below(*targs, sub@, cs, its, s2);
        assert(s1[tn.index() as int] == s0[tn.index() as int]);
    }
    let f: &HirFn = match index.find_fn(im) {
        Some(f) => f,
        None => {
            proof {
                assert(forin_with(index, sub@, s2, tn, *targs, cs, items@.skip(w0.len() as int)));
            }
            return;
        },
    };
    let w = WorkItem::fn_specialize(im, copy_types(&cs));
    items.push(w);
    let ghost w1 = items@;
    proof {
        assert(w1.skip(w0.len() as int).take(1) == seq![w]);
        assert(w1.take(w0.len() as int) == w0);
    }
    proof {
        lemma_syms_below_mono(input_expr_types@[i as int], s0.len(), s0.len());
        assert(index.fn_named(im) == Some(*f));
        let fr = f.ret;
        if let Some(r) = fr {
            lemma_syms_below_mono(r, s0.len(), s2.len());
        }
    }
    discover_next_into(f, &cs, index, mangle_table, interner, items);
    proof {
        let s3 = interner@;
        let w2 = items@;
        let out = w2.skip(w0.len() as int);
        assert(out.take(1) == seq![w]);
        assert(out.skip(1) == w2.skip(w1.len() as int));
        assert(w2.take(w0.len() as int) == w0);
        lemma_ty_seq_eq_refl(cs@);
        lemma_concretes_extends(*targs, sub@, cs, its, s2, s3);
        lemma_first_sym_extends(s2, s3, s2[tn.index() as int] + "_iter"@);
        assert(s3[tn.index() as int] == s2[tn.index() as int]);
        assert(works_match(out.take(1), seq![(im, ItemKind::FnSpecialize, cs@)]));
        assert(forin_with(index, sub@, s3, tn, *targs, cs, out));
        let h = forin_head(input_expr_types@, iter_original_id)->Some_0;
        assert(h.0 == tn && h.1 == *targs);
        assert(exists|c: Vec<HirType>| #[trigger] forin_with(index, sub@, s3, h.0, h.1, c, out));
    }
}

/// Appends what the return type of the iterator function `f`, its type parameters
/// bound to `cs`, adds; see `next_ok`.
fn discover_next_into(f: &HirFn, cs: &Vec<HirType>, index: &MonoIndex, mangle_table: &mut MangleTable,
    interner: &mut Interner, items: &mut Vec<WorkItem>)
    requires
        old(mangle_table).agrees_with(old(interner)@),
        forall|k: int| 0 <= k < cs@.len() ==> syms_below(#[trigger] cs@[k], old(interner)@.len()),
        f.ret matches Some(r) ==> syms_below(r, old(interner)@.len()),
        old(interner)@.len() + 1 < u32::MAX,
    ensures
        final(mangle_table).agrees_with(final(interner)@),
        extends(old(interner)@, final(interner)@),
        grown(old(items)@, final(items)@),
        next_ok(index, final(interner)@, *f, *cs, final(items)@.skip(old(items)@.len() as int)),
{
    let ghost s2 = interner@;
    let ghost w1 = items@;
    let ghost its = index.items();
    proof {
        assert(items@.skip(w1.len() as int).len() == 0);
        assert(items@.take(w1.len() as int) == w1);
    }
    let isub = build_subst(f.type_params.as_slice(), cs.as_slice());
    proof {
        assert(subst_equiv(isub@, param_map(f.type_params@, cs@)));
    }
    let ret: &HirType = match &f.ret {
        Some(r) => r,
        None => {
            return;
        },
    };
    let rt = substitute_type(ret, &isub);
    proof {
        lemma_param_map_below(f.type_params@, cs@, s2.len());
        assert forall|k: Symbol| #[trigger] isub@.contains_key(k) implies syms_below(isub@[k], s2.len()) by {
            crate::types::lemma_ty_eq_symm(isub@[k], param_map(f.type_params@, cs@)[k]);
            crate::monomorphize::concretize::lemma_ty_eq_budget(param_map(f.type_params@, cs@)[k], isub@[k], s2.len());
        }
        lemma_subst_budget(*ret, isub@, rt, s2.len());
    }
    let (iname, iargs) = match &rt {
        HirType::Generic(iname, iargs) => (*iname, iargs),
        _ => {
            proof {
                assert(next_with(index, s2, isub@, rt, items@.skip(w1.len() as int)));
            }
            return;
        },
    };
    let nm = intern_suffixed(iname, "_next", interner);
    let ghost s3 = interner@;
    proof {
        mangle_table.lemma_agrees_extends(s2, s3);
        assert(s3[iname.index() as int] == s2[iname.index() as int]);
    }
    if index.find_fn(nm).is_none() {
        proof {
            assert(next_with(index, s3, isub@, rt, items@.skip(w1.len() as int)));
        }
        return;
    }
    let b2 = subst_budgets_capped(iargs, &isub);
    if !has_room(interner, b2, Ghost(seq_subst_budget(iargs@, isub@, iargs@.len()))) {
        proof {
            assert(next_with(index, s3, isub@, rt, items@.skip(w1.len() as int)));
        }
        return;
    }
    proof {
        assert forall|k: int| 0 <= k < iargs@.len() implies syms_below(#[trigger] iargs@[k], s3.len()) by {
            lemma_syms_below_mono(iargs@[k], s2.len(), s3.len());
        }
        assert forall|k: Symbol| #[trigger] isub@.contains_key(k) implies syms_below(isub@[k], s3.len()) by {
            lemma_syms_below_mono(isub@[k], s2.len(), s3.len());
        }
    }
    let ncs = substitute_and_concretize_slice(iargs.as_slice(), &isub, index, mangle_table, interner);
    let ghost s4 = interner@;
    proof {
        lemma_concretes_below(*iargs, isub@, ncs, its, s4);
        lemma_first_sym_extends(s3, s4, s3[iname.index() as int] + "_next"@);
        assert(s4[iname.index() as int] == s3[iname.index() as int]);
        assert(concretes(*iargs, isub@, ncs, its, s4));
        assert(index.fn_named(first_sym(s4, s4[iname.index() as int] + "_next"@)) is Some);
        assert(table_has(s4, s4[iname.index() as int] + "_next"@));
    }
    if ncs.len() > 0 && !args_unresolved(&ncs, interner) {
        let w2 = WorkItem::fn_specialize(nm, ncs);
        items.push(w2);
        proof {
            let rest = items@.skip(w1.len() as int);
            assert(rest == seq![w2]);
            assert(items@.take(w1.len() as int) == w1);
            lemma_ty_seq_eq_refl(ncs@);
            assert(works_match(rest, seq![(nm, ItemKind::FnSpecialize, ncs@)]));
            assert(next_with(index, s4, isub@, rt, rest));
        }
    } else {
        proof {
            assert(next_with(index, s4, isub@, rt, items@.skip(w1.len() as int)));
        }
    }
}

/// The specializations that a `for` loop over the iterator `iter_original_id` asks for:
/// when the iterator's recorded type is `T<args>` (through one raw pointer) with
/// concrete arguments, the function `T_iter` specialized with them, and, when its
/// return type is `I<iargs>`, the function `I_next` specialized with the concrete
/// `iargs`; see `forin_ok`. The names `T_iter` and `I_next` are interned.
pub fn discover_forin_specializations(iter_original_id: ExprId, input_expr_types: &[HirType], sub: &TypeSubst,
    index: &MonoIndex, mangle_table: &mut MangleTable, interner: &mut Interner) -> (r: Vec<WorkItem>)
    requires
        old(mangle_table).agrees_with(old(interner)@),
        types_below(input_expr_types@, old(interner)@.len()),
        sub_below(sub@, old(interner)@.len()),
        fn_rets_below(index, old(interner)@.len()),
    ensures
        final(mangle_table).agrees_with(final(interner)@),
        extends(old(interner)@, final(interner)@),
        forin_ok(index, input_expr_types@, sub@, final(interner)@, iter_original_id, r@),
{
    let mut items: Vec<WorkItem> = Vec::new();
    discover_forin_into(iter_original_id, input_expr_types, sub, index, mangle_table, interner, &mut items);
    proof {
        assert(items@.skip(0) == items@);
    }
    items
}


/// A step of the walk that discovers what a body's calls ask for, in the order the
/// walk takes them: a call, the iterator of a `for` loop, or a type whose
/// specializations are asked for.
pub enum Visit {
    Call(ExprId, Symbol),
    ForIn(ExprId),
    Ty(HirType),
}

/// The type arguments a call is specialized with: those recorded for it, else those of
/// its recorded type when that is generic.
pub open spec fn raw_of(cta: Map<ExprId, Vec<HirType>>, types: Seq<HirType>, id: ExprId) -> Option<Vec<HirType>> {
    if cta.contains_key(id) {
        Some(cta[id])
    } else if id.0 < types.len() {
        match types[id.0 as int] {
            HirType::Generic(_, xs) => Some(xs),
            _ => None,
        }
    } else {
        None
    }
}

/// The recorded type of `id`, as a visit, if there is one.
pub open spec fn recorded_visit(types: Seq<HirType>, id: ExprId) -> Seq<Visit> {
    if id.0 < types.len() { seq![Visit::Ty(types[id.0 as int])] } else { Seq::empty() }
}

/// The first `n` types of `xs`, as visits.
pub open spec fn ty_visits(xs: Vec<HirType>, n: nat) -> Seq<Visit>
    decreases n,
{
    if n == 0 || n > xs@.len() { Seq::empty() } else { ty_visits(xs, (n - 1) as nat) + seq![Visit::Ty(xs@[n - 1])] }
}

/// The visits of the walk over `e`: a call is visited before its arguments; a `for`
/// loop visits its iterator (and the iterator's recorded type) before the iterator
/// expression and the body; struct and enum literals visit their recorded type before
/// their parts; `sizeof` visits the types recorded for it and its target type. Blocks
/// visit the value of each statement; a method call visits its receiver and arguments.
pub open spec fn visited(e: HirExpr, types: Seq<HirType>, cta: Map<ExprId, Vec<HirType>>) -> Seq<Visit>
    decreases e, 0nat,
{
    match e {
        HirExpr::Call { id, callee, args, .. } => seq![Visit::Call(id, callee)] + visited_list(args, args@.len(), types, cta),
        HirExpr::Block { stmts, .. } => visited_stmts(stmts, stmts@.len(), types, cta),
        HirExpr::If { condition, then_branch, else_branch, .. } => visited(*condition, types, cta)
            + visited(*then_branch, types, cta) + match else_branch {
                Some(x) => visited(*x, types, cta),
                None => Seq::empty(),
            },
        HirExpr::While { condition, body, .. } => visited(*condition, types, cta) + visited(*body, types, cta),
        HirExpr::ForIn { iter, body, .. } => seq![Visit::ForIn(iter.spec_id())] + recorded_visit(types, iter.spec_id())
            + visited(*iter, types, cta) + visited(*body, types, cta),
        HirExpr::Match { scrutinee, arms, .. } => visited(*scrutinee, types, cta) + visited_arms(arms, arms@.len(), types, cta),
        HirExpr::Return { value, .. } => match value {
            Some(x) => visited(*x, types, cta),
            None => Seq::empty(),
        },
        HirExpr::MethodCall { receiver, args, .. } => visited(*receiver, types, cta) + visited_list(args, args@.len(), types, cta),
        HirExpr::Binary { lhs, rhs, .. } => visited(*lhs, types, cta) + visited(*rhs, types, cta),
        HirExpr::Unary { operand, .. } => visited(*operand, types, cta),
        HirExpr::Deref { expr, .. } => visited(*expr, types, cta),
        HirExpr::StructLit { id, fields, .. } => recorded_visit(types, id) + visited_fields(fields, fields@.len(), types, cta),
        HirExpr::EnumVariant { id, args, .. } => recorded_visit(types, id) + visited_list(args, args@.len(), types, cta),
        HirExpr::TupleLit { elements, .. } => visited_list(elements, elements@.len(), types, cta),
        HirExpr::Println { arg, .. } => visited(*arg, types, cta),
        HirExpr::Assert { condition, message, .. } => visited(*condition, types, cta) + match message {
            Some(x) => visited(*x, types, cta),
            None => Seq::empty(),
        },
        HirExpr::As { expr, .. } => visited(*expr, types, cta),
        HirExpr::FieldAccess { object, .. } => visited(*object, types, cta),
        HirExpr::SizeOf { id, target_type, .. } => (if cta.contains_key(id) { ty_visits(cta[id], cta[id]@.len()) } else { Seq::empty() })
            + seq![Visit::Ty(target_type)],
        _ => Seq::empty(),
    }
}

/// The visits of the first `n` expressions of `xs`, in order.
pub open spec fn visited_list(xs: Vec<HirExpr>, n: nat, types: Seq<HirType>, cta: Map<ExprId, Vec<HirType>>) -> Seq<Visit>
    decreases xs, n,
{
    if n == 0 || n > xs@.len() { Seq::empty() } else { visited_list(xs, (n - 1) as nat, types, cta) + visited(xs@[n - 1], types, cta) }
}

/// The visits of the values of the first `n` fields of `xs`, in order.
pub open spec fn visited_fields(xs: Vec<(Symbol, HirExpr)>, n: nat, types: Seq<HirType>, cta: Map<ExprId, Vec<HirType>>) -> Seq<Visit>
    decreases xs, n,
{
    if n == 0 || n > xs@.len() { Seq::empty() } else { visited_fields(xs, (n - 1) as nat, types, cta) + visited(xs@[n - 1].1, types, cta) }
}

/// The visits of a statement's value.
pub open spec fn visited_stmt(st: HirStmt, types: Seq<HirType>, cta: Map<ExprId, Vec<HirType>>) -> Seq<Visit>
    decreases st, 0nat,
{
    match st {
        HirStmt::Let { value, .. } => visited(value, types, cta),
        HirStmt::LetPat { value, .. } => visited(value, types, cta),
        HirStmt::Assign { value, .. } => visited(value, types, cta),
        HirStmt::AssignDeref { value, .. } => visited(value, types, cta),
        HirStmt::AssignField { value, .. } => visited(value, types, cta),
        HirStmt::Expr(x) => visited(x, types, cta),
    }
}

/// The visits of the values of the first `n` statements of `xs`, in order.
pub open spec fn visited_stmts(xs: Vec<HirStmt>, n: nat, types: Seq<HirType>, cta: Map<ExprId, Vec<HirType>>) -> Seq<Visit>
    decreases xs, n,
{
    if n == 0 || n > xs@.len() { Seq::empty() } else { visited_stmts(xs, (n - 1) as nat, types, cta) + visited_stmt(xs@[n - 1], types, cta) }
}

/// The visits of an arm: its guard, then its body.
pub open spec fn visited_arm(a: MatchArm, types: Seq<HirType>, cta: Map<ExprId, Vec<HirType>>) -> Seq<Visit>
    decreases a, 0nat,
{
    (match a.guard {
        Some(g) => visited(g, types, cta),
        None => Seq::empty(),
    }) + visited(a.body, types, cta)
}

/// The visits of the first `n` arms of `xs`, in order.
pub open spec fn visited_arms(xs: Vec<MatchArm>, n: nat, types: Seq<HirType>, cta: Map<ExprId, Vec<HirType>>) -> Seq<Visit>
    decreases xs, n,
{
    if n == 0 || n > xs@.len() { Seq::empty() } else { visited_arms(xs, (n - 1) as nat, types, cta) + visited_arm(xs@[n - 1], types, cta) }
}

/// What visiting the type `t` appends: the specializations that `t` asks for. Near the
/// interner's limit, when the names it may intern would not fit, nothing.
pub open spec fn ty_ok(index: &MonoIndex, strs: Seq<Seq<char>>, t: HirType, out: Seq<WorkItem>) -> bool {
    ||| out.len() == 0 && strs.len() + intern_budget(t) >= u32::MAX
    ||| names_below(t, strs.len()) && disc_ready(t, strs) && works_match(out, type_disc(t, index.items(), strs))
}

/// The names a call's visit may intern: its base name and the concrete forms of its
/// type arguments.
pub open spec fn call_budget(cta: Map<ExprId, Vec<HirType>>, types: Seq<HirType>, sub: Map<Symbol, HirType>, id: ExprId) -> nat {
    1 + match raw_of(cta, types, id) {
        Some(raw) => seq_subst_budget(raw@, sub, raw@.len()),
        None => 0,
    }
}

/// What visiting the call `id` of `callee` appends: see `call_done`. Near the
/// interner's limit, when the names it may intern would not fit, nothing.
pub open spec fn call_ok(index: &MonoIndex, types: Seq<HirType>, cta: Map<ExprId, Vec<HirType>>, sub: Map<Symbol, HirType>,
    strs: Seq<Seq<char>>, id: ExprId, callee: Symbol, out: Seq<WorkItem>) -> bool
{
    ||| out.len() == 0 && strs.len() + call_budget(cta, types, sub, id) >= u32::MAX
    ||| call_done(index, types, cta, sub, strs, id, callee, out)
}

/// The callee's base name (`demangled`, its prefix interned) names a function that
/// needs specialization and the call has type arguments (`raw_of`) whose concrete forms
/// are non-empty and resolved: then that function is to be specialized with them.
/// Otherwise nothing is appended.
pub open spec fn call_done(index: &MonoIndex, types: Seq<HirType>, cta: Map<ExprId, Vec<HirType>>, sub: Map<Symbol, HirType>,
    strs: Seq<Seq<char>>, id: ExprId, callee: Symbol, out: Seq<WorkItem>) -> bool
{
    &&& callee.index() < strs.len()
    &&& first_dunder(strs[callee.index() as int], 0) matches Some(p) ==> table_has(strs, strs[callee.index() as int].take(p as int))
    &&& if !generic_fn(index, demangled(callee, strs)) {
        out.len() == 0
    } else {
        match raw_of(cta, types, id) {
            None => out.len() == 0,
            Some(raw) => exists|cs: Vec<HirType>| #[trigger] concretes(raw, sub, cs, index.items(), strs)
                && if cs@.len() == 0 || any_unresolved(cs, strs) {
                    out.len() == 0
                } else {
                    works_match(out, seq![(demangled(callee, strs), ItemKind::FnSpecialize, cs@)])
                },
        }
    }
}

/// What one visit appends.
pub open spec fn own_ok(v: Visit, index: &MonoIndex, types: Seq<HirType>, cta: Map<ExprId, Vec<HirType>>,
    sub: Map<Symbol, HirType>, strs: Seq<Seq<char>>, out: Seq<WorkItem>) -> bool
{
    match v {
        Visit::Call(id, callee) => call_ok(index, types, cta, sub, strs, id, callee, out),
        Visit::ForIn(iter_id) => forin_ok(index, types, sub, strs, iter_id, out),
        Visit::Ty(t) => ty_ok(index, strs, t, out),
    }
}

/// `found` is what the visits `vs` append, one after the other.
pub open spec fn found_ok(vs: Seq<Visit>, found: Seq<WorkItem>, index: &MonoIndex, types: Seq<HirType>,
    cta: Map<ExprId, Vec<HirType>>, sub: Map<Symbol, HirType>, strs: Seq<Seq<char>>) -> bool
    decreases vs.len(),
{
    if vs.len() == 0 {
        found.len() == 0
    } else {
        exists|k: int| #![trigger found.take(k)] 0 <= k <= found.len()
            && found_ok(vs.drop_last(), found.take(k), index, types, cta, sub, strs)
            && own_ok(vs.last(), index, types, cta, sub, strs, found.skip(k))
    }
}

/// A single visit.
proof fn lemma_found_single(v: Visit, index: &MonoIndex, types: Seq<HirType>, cta: Map<ExprId, Vec<HirType>>,
    sub: Map<Symbol, HirType>, strs: Seq<Seq<char>>, out: Seq<WorkItem>)
    requires
        own_ok(v, index, types, cta, sub, strs, out),
    ensures
        found_ok(seq![v], out, index, types, cta, sub, strs),
{
    assert(seq![v].drop_last() =~= Seq::<Visit>::empty());
    assert(out.take(0).len() == 0);
    assert(out.skip(0) == out);
    assert(found_ok(seq![v].drop_last(), out.take(0), index, types, cta, sub, strs));
    assert(seq![v].last() == v);
    assert(own_ok(seq![v].last(), index, types, cta, sub, strs, out.skip(0)));
    assert(seq![v].len() == 1);
    assert(exists|k: int| #![trigger out.take(k)] 0 <= k <= out.len()
            && found_ok(seq![v].drop_last(), out.take(k), index, types, cta, sub, strs)
            && own_ok(seq![v].last(), index, types, cta, sub, strs, out.skip(k)));
}

/// Visits one after the other append one after the other.
proof fn lemma_found_concat(a: Seq<Visit>, b: Seq<Visit>, fa: Seq<WorkItem>, fb: Seq<WorkItem>, index: &MonoIndex,
    types: Seq<HirType>, cta: Map<ExprId, Vec<HirType>>, sub: Map<Symbol, HirType>, strs: Seq<Seq<char>>)
    requires
        found_ok(a, fa, index, types, cta, sub, strs),
        found_ok(b, fb, index, types, cta, sub, strs),
    ensures
        found_ok(a + b, fa + fb, index, types, cta, sub, strs),
    decreases b.len(),
{
    if b.len() == 0 {
        assert(a + b =~= a);
        assert(fa + fb =~= fa);
    } else {
        assert(exists|k: int| #![trigger fb.take(k)] 0 <= k <= fb.len()
            && found_ok(b.drop_last(), fb.take(k), index, types, cta, sub, strs)
            && own_ok(b.last(), index, types, cta, sub, strs, fb.skip(k)));
        let k = choose|k: int| #![trigger fb.take(k)] 0 <= k <= fb.len()
            && found_ok(b.drop_last(), fb.take(k), index, types, cta, sub, strs)
            && own_ok(b.last(), index, types, cta, sub, strs, fb.skip(k));
        lemma_found_concat(a, b.drop_last(), fa, fb.take(k), index, types, cta, sub, strs);
        let ab = a + b;
        let f = fa + fb;
        let k2 = fa.len() + k;
        assert(ab.drop_last() =~= a + b.drop_last());
        assert(ab.last() == b.last());
        assert(f.take(k2) =~= fa + fb.take(k));
        assert(f.skip(k2) =~= fb.skip(k));
        assert(found_ok(ab.drop_last(), f.take(k2), index, types, cta, sub, strs));
    }
}

/// What a visit appends stays so when the table grows.
proof fn lemma_own_extends(v: Visit, index: &MonoIndex, types: Seq<HirType>, cta: Map<ExprId, Vec<HirType>>,
    sub: Map<Symbol, HirType>, small: Seq<Seq<char>>, big: Seq<Seq<char>>, out: Seq<WorkItem>)
    requires
        own_ok(v, index, types, cta, sub, small, out),
        extends(small, big),
    ensures
        own_ok(v, index, types, cta, sub, big, out),
{
    match v {
        Visit::Call(id, callee) => {
            if out.len() == 0 && small.len() + call_budget(cta, types, sub, id) >= u32::MAX {
            } else {
                let sc = small[callee.index() as int];
                assert(big[callee.index() as int] == sc);
                lemma_demangled_extends(callee, small, small, big);
                if let Some(p) = first_dunder(sc, 0) {
                    assert(table_has(big, sc.take(p as int)));
                }
                if generic_fn(index, demangled(callee, small)) {
                    if let Some(raw) = raw_of(cta, types, id) {
                        let cs = choose|cs: Vec<HirType>| #[trigger] concretes(raw, sub, cs, index.items(), small)
                            && if cs@.len() == 0 || any_unresolved(cs, small) {
                                out.len() == 0
                            } else {
                                works_match(out, seq![(demangled(callee, small), ItemKind::FnSpecialize, cs@)])
                            };
                        lemma_concretes_extends(raw, sub, cs, index.items(), small, big);
                    }
                }
                assert(call_done(index, types, cta, sub, big, id, callee, out));
            }
        },
        Visit::ForIn(iter_id) => lemma_forin_ok_extends(index, types, sub, small, big, iter_id, out),
        Visit::Ty(t) => {
            if out.len() == 0 && small.len() + intern_budget(t) >= u32::MAX {
            } else {
                lemma_type_disc_extends(t, index.items(), small, big);
                lemma_disc_ready_extends(t, small, big);
                lemma_names_below_mono(t, small.len(), big.len());
            }
        },
    }
}

/// What visits append stays so when the table grows.
proof fn lemma_found_extends(vs: Seq<Visit>, found: Seq<WorkItem>, index: &MonoIndex, types: Seq<HirType>,
    cta: Map<ExprId, Vec<HirType>>, sub: Map<Symbol, HirType>, small: Seq<Seq<char>>, big: Seq<Seq<char>>)
    requires
        found_ok(vs, found, index, types, cta, sub, small),
        extends(small, big),
    ensures
        found_ok(vs, found, index, types, cta, sub, big),
    decreases vs.len(),
{
    if vs.len() > 0 {
        assert(exists|k: int| #![trigger found.take(k)] 0 <= k <= found.len()
            && found_ok(vs.drop_last(), found.take(k), index, types, cta, sub, small)
            && own_ok(vs.last(), index, types, cta, sub, small, found.skip(k)));
        let k = choose|k: int| #![trigger found.take(k)] 0 <= k <= found.len()
            && found_ok(vs.drop_last(), found.take(k), index, types, cta, sub, small)
            && own_ok(vs.last(), index, types, cta, sub, small, found.skip(k));
        lemma_found_extends(vs.drop_last(), found.take(k), index, types, cta, sub, small, big);
        lemma_own_extends(vs.last(), index, types, cta, sub, small, big, found.skip(k));
        assert(found_ok(vs.drop_last(), found.take(k), index, types, cta, sub, big));
        assert(exists|k: int| #![trigger found.take(k)] 0 <= k <= found.len()
            && found_ok(vs.drop_last(), found.take(k), index, types, cta, sub, big)
            && own_ok(vs.last(), index, types, cta, sub, big, found.skip(k)));
    }
}


/// A sequence of types is structurally equal to itself.
proof fn lemma_ty_seq_eq_refl(xs: Seq<HirType>)
    ensures
        ty_seq_eq(xs, xs),
{
    assert forall|i: int| 0 <= i < xs.len() implies ty_eq(#[trigger] xs[i], xs[i]) by {
        crate::types::lemma_ty_eq_refl(xs[i]);
    }
}


/// The types recorded for calls spell out only symbols below `n`.
pub open spec fn cta_below(cta: Map<ExprId, Vec<HirType>>, n: nat) -> bool {
    forall|k: ExprId| #[trigger] cta.contains_key(k) ==> forall|i: int| 0 <= i < cta[k]@.len() ==> syms_below(#[trigger] cta[k]@[i], n)
}

/// The recorded types, the types recorded for calls, the bindings of `sub` and the
/// program's return types spell out only symbols below `n`.
pub open spec fn ctx_ok(index: &MonoIndex, types: Seq<HirType>, cta: Map<ExprId, Vec<HirType>>, sub: Map<Symbol, HirType>, n: nat) -> bool {
    &&& types_below(types, n)
    &&& cta_below(cta, n)
    &&& sub_below(sub, n)
    &&& fn_rets_below(index, n)
}

/// The symbols a visit reads are below `n`.
pub open spec fn visit_ready(v: Visit, n: nat) -> bool {
    match v {
        Visit::Call(_, c) => c.index() < n,
        Visit::Ty(t) => names_below(t, n),
        Visit::ForIn(_) => true,
    }
}

/// The symbols the visits read are below `n`.
pub open spec fn visits_ready(vs: Seq<Visit>, n: nat) -> bool {
    forall|i: int| 0 <= i < vs.len() ==> visit_ready(#[trigger] vs[i], n)
}

/// `w` is `w0` grown by what the visits `vs` append at the table `strs`.
pub open spec fn calls_post(vs: Seq<Visit>, w0: Seq<WorkItem>, w: Seq<WorkItem>, index: &MonoIndex, types: Seq<HirType>,
    cta: Map<ExprId, Vec<HirType>>, sub: Map<Symbol, HirType>, strs: Seq<Seq<char>>) -> bool
{
    grown(w0, w) && found_ok(vs, w.skip(w0.len() as int), index, types, cta, sub, strs)
}

/// Readiness of a sequence of visits is readiness of both parts.
proof fn lemma_ready_split(a: Seq<Visit>, b: Seq<Visit>, n: nat)
    requires
        visits_ready(a + b, n),
    ensures
        visits_ready(a, n),
        visits_ready(b, n),
{
    assert forall|i: int| 0 <= i < a.len() implies visit_ready(#[trigger] a[i], n) by {
        assert((a + b)[i] == a[i]);
    }
    assert forall|i: int| 0 <= i < b.len() implies visit_ready(#[trigger] b[i], n) by {
        assert((a + b)[a.len() + i] == b[i]);
    }
}

/// Readiness holds for any larger bound.
proof fn lemma_ready_mono(vs: Seq<Visit>, n: nat, m: nat)
    requires
        visits_ready(vs, n),
        n <= m,
    ensures
        visits_ready(vs, m),
{
    assert forall|i: int| 0 <= i < vs.len() implies visit_ready(#[trigger] vs[i], m) by {
        if let Visit::Ty(t) = vs[i] {
            lemma_names_below_mono(t, n, m);
        }
    }
}

/// The context bounds hold for any larger bound.
proof fn lemma_ctx_mono(index: &MonoIndex, types: Seq<HirType>, cta: Map<ExprId, Vec<HirType>>, sub: Map<Symbol, HirType>, n: nat, m: nat)
    requires
        ctx_ok(index, types, cta, sub, n),
        n <= m,
    ensures
        ctx_ok(index, types, cta, sub, m),
{
    assert forall|i: int| 0 <= i < types.len() implies syms_below(#[trigger] types[i], m) by {
        lemma_syms_below_mono(types[i], n, m);
    }
    assert forall|k: ExprId| #[trigger] cta.contains_key(k) implies forall|i: int| 0 <= i < cta[k]@.len() ==> syms_below(#[trigger] cta[k]@[i], m) by {
        assert forall|i: int| 0 <= i < cta[k]@.len() implies syms_below(#[trigger] cta[k]@[i], m) by {
            lemma_syms_below_mono(cta[k]@[i], n, m);
        }
    }
    assert forall|k: Symbol| #[trigger] sub.contains_key(k) implies syms_below(sub[k], m) by {
        lemma_syms_below_mono(sub[k], n, m);
    }
    assert forall|s: Symbol| (#[trigger] index.fn_named(s) matches Some(f) ==> (f.ret matches Some(r) ==> syms_below(r, m))) by {
        if let Some(f) = index.fn_named(s) {
            if let Some(r) = f.ret {
                lemma_syms_below_mono(r, n, m);
            }
        }
    }
}

/// Nothing visited appends nothing.
proof fn lemma_post_empty(w0: Seq<WorkItem>, index: &MonoIndex, types: Seq<HirType>, cta: Map<ExprId, Vec<HirType>>,
    sub: Map<Symbol, HirType>, strs: Seq<Seq<char>>)
    ensures
        calls_post(Seq::empty(), w0, w0, index, types, cta, sub, strs),
{
    assert(w0.take(w0.len() as int) == w0);
    assert(w0.skip(w0.len() as int).len() == 0);
}

/// Two walks one after the other.
proof fn lemma_step(a: Seq<Visit>, b: Seq<Visit>, w0: Seq<WorkItem>, w1: Seq<WorkItem>, w2: Seq<WorkItem>,
    s1: Seq<Seq<char>>, s2: Seq<Seq<char>>, index: &MonoIndex, types: Seq<HirType>, cta: Map<ExprId, Vec<HirType>>,
    sub: Map<Symbol, HirType>)
    requires
        calls_post(a, w0, w1, index, types, cta, sub, s1),
        calls_post(b, w1, w2, index, types, cta, sub, s2),
        extends(s1, s2),
    ensures
        calls_post(a + b, w0, w2, index, types, cta, sub, s2),
{
    lemma_found_extends(a, w1.skip(w0.len() as int), index, types, cta, sub, s1, s2);
    lemma_found_concat(a, b, w1.skip(w0.len() as int), w2.skip(w1.len() as int), index, types, cta, sub, s2);
    assert(w2.skip(w0.len() as int) =~= w1.skip(w0.len() as int) + w2.skip(w1.len() as int));
    assert(w2.take(w0.len() as int) =~= w0);
}

/// Appends what visiting the call `id` of `callee` appends; see `call_ok`.
fn call_own_into(id: ExprId, callee: Symbol, index: &MonoIndex, interner: &mut Interner, mangle_table: &mut MangleTable,
    types: &[HirType], cta: &CallTypeArgs, sub: &TypeSubst, items: &mut Vec<WorkItem>)
    requires
        old(mangle_table).agrees_with(old(interner)@),
        ctx_ok(index, types@, cta@, sub@, old(interner)@.len()),
        callee.index() < old(interner)@.len(),
    ensures
        final(mangle_table).agrees_with(final(interner)@),
        extends(old(interner)@, final(interner)@),
        calls_post(seq![Visit::Call(id, callee)], old(items)@, final(items)@, index, types@, cta@, sub@, final(interner)@),
{
    let ghost s0 = interner@;
    let ghost w0 = items@;
    let ghost its = index.items();
    proof {
        assert(items@.skip(w0.len() as int).len() == 0);
        assert(items@.take(w0.len() as int) == w0);
    }
    let raw: Option<&Vec<HirType>> = match cta.get(&id) {
        Some(r) => Some(r),
        None => {
            let i = id.as_usize();
            if i < types.len() {
                match &types[i] {
                    HirType::Generic(_, ts) => Some(ts),
                    _ => None,
                }
            } else {
                None
            }
        },
    };
    proof {
        match raw {
            Some(r) => assert(raw_of(cta@, types@, id) == Some(*r)),
            None => assert(raw_of(cta@, types@, id) is None),
        }
    }
    let b = match raw {
        Some(r) => add_capped(1, subst_budgets_capped(r, sub), Ghost(1), Ghost(seq_subst_budget(r@, sub@, r@.len()))),
        None => 1,
    };
    if !has_room(interner, b, Ghost(call_budget(cta@, types@, sub@, id))) {
        proof {
            lemma_found_single(Visit::Call(id, callee), index, types@, cta@, sub@, s0, items@.skip(w0.len() as int));
        }
        return;
    }
    let base = demangle_callee(callee, interner);
    let ghost s1 = interner@;
    proof {
        mangle_table.lemma_agrees_extends(s0, s1);
        lemma_demangled_extends(callee, s0, s1, s1);
        assert(s1[callee.index() as int] == s0[callee.index() as int]);
    }
    if !index.is_generic_fn(base) {
        proof {
            assert(call_done(index, types@, cta@, sub@, s1, id, callee, items@.skip(w0.len() as int)));
            lemma_found_single(Visit::Call(id, callee), index, types@, cta@, sub@, s1, items@.skip(w0.len() as int));
        }
        return;
    }
    let r: &Vec<HirType> = match raw {
        Some(r) => r,
        None => {
            proof {
                assert(call_done(index, types@, cta@, sub@, s1, id, callee, items@.skip(w0.len() as int)));
                lemma_found_single(Visit::Call(id, callee), index, types@, cta@, sub@, s1, items@.skip(w0.len() as int));
            }
            return;
        },
    };
    proof {
        if cta@.contains_key(id) {
            assert(forall|i: int| 0 <= i < r@.len() ==> syms_below(#[trigger] r@[i], s0.len()));
        } else {
            assert(syms_below(types@[id.0 as int], s0.len()));
        }
        assert forall|i: int| 0 <= i < r@.len() implies syms_below(#[trigger] r@[i], s1.len()) by {
            lemma_syms_below_mono(r@[i], s0.len(), s1.len());
        }
        assert forall|k: Symbol| #[trigger] sub@.contains_key(k) implies syms_below(sub@[k], s1.len()) by {
            lemma_syms_below_mono(sub@[k], s0.len(), s1.len());
        }
    }
    let cs = substitute_and_concretize_slice(r.as_slice(), sub, index, mangle_table, interner);
    let ghost s2 = interner@;
    proof {
        lemma_concretes_below(*r, sub@, cs, its, s2);
        lemma_demangled_extends(callee, s0, s1, s2);
        assert(s2[callee.index() as int] == s0[callee.index() as int]);
        assert(concretes(*r, sub@, cs, its, s2));
    }
    if cs.len() > 0 && !args_unresolved(&cs, interner) {
        let w = WorkItem::fn_specialize(base, cs);
        items.push(w);
        proof {
            let out = items@.skip(w0.len() as int);
            assert(out == seq![w]);
            assert(items@.take(w0.len() as int) == w0);
            lemma_ty_seq_eq_refl(cs@);
            assert(works_match(out, seq![(base, ItemKind::FnSpecialize, cs@)]));
            assert(call_done(index, types@, cta@, sub@, s2, id, callee, out));
            lemma_found_single(Visit::Call(id, callee), index, types@, cta@, sub@, s2, out);
        }
    } else {
        proof {
            assert(call_done(index, types@, cta@, sub@, s2, id, callee, items@.skip(w0.len() as int)));
            lemma_found_single(Visit::Call(id, callee), index, types@, cta@, sub@, s2, items@.skip(w0.len() as int));
        }
    }
}

/// Appends the specializations that `t` asks for; see `ty_ok`.
fn ty_own_into(t: &HirType, index: &MonoIndex, interner: &mut Interner, items: &mut Vec<WorkItem>,
    Ghost(types): Ghost<Seq<HirType>>, Ghost(cta): Ghost<Map<ExprId, Vec<HirType>>>, Ghost(sub): Ghost<Map<Symbol, HirType>>)
    requires
        names_below(*t, old(interner)@.len()),
    ensures
        extends(old(interner)@, final(interner)@),
        calls_post(seq![Visit::Ty(*t)], old(items)@, final(items)@, index, types, cta, sub, final(interner)@),
{
    let ghost s0 = interner@;
    let ghost w0 = items@;
    let b = intern_budget_capped(t);
    if !has_room(interner, b, Ghost(intern_budget(*t))) {
        proof {
            assert(items@.skip(w0.len() as int).len() == 0);
            assert(items@.take(w0.len() as int) == w0);
            lemma_found_single(Visit::Ty(*t), index, types, cta, sub, s0, items@.skip(w0.len() as int));
        }
        return;
    }
    discover_type_into(t, index, interner, items);
    proof {
        let out = items@.skip(w0.len() as int);
        assert(items@.subrange(w0.len() as int, items@.len() as int) == out);
        assert(items@.subrange(0, w0.len() as int) == items@.take(w0.len() as int));
        lemma_names_below_mono(*t, s0.len(), interner@.len());
        lemma_found_single(Visit::Ty(*t), index, types, cta, sub, interner@, out);
    }
}


/// The visits of one of the first `n` expressions of a list are ready when the list's are.
proof fn lemma_ready_list(xs: Vec<HirExpr>, n: nat, i: int, types: Seq<HirType>, cta: Map<ExprId, Vec<HirType>>, m: nat)
    requires
        visits_ready(visited_list(xs, n, types, cta), m),
        0 <= i < n <= xs@.len(),
    ensures
        visits_ready(visited(xs@[i], types, cta), m),
    decreases n,
{
    lemma_ready_split(visited_list(xs, (n - 1) as nat, types, cta), visited(xs@[n - 1], types, cta), m);
    if i < n - 1 {
        lemma_ready_list(xs, (n - 1) as nat, i, types, cta, m);
    }
}

/// The same for the values of fields.
proof fn lemma_ready_fields(xs: Vec<(Symbol, HirExpr)>, n: nat, i: int, types: Seq<HirType>, cta: Map<ExprId, Vec<HirType>>, m: nat)
    requires
        visits_ready(visited_fields(xs, n, types, cta), m),
        0 <= i < n <= xs@.len(),
    ensures
        visits_ready(visited(xs@[i].1, types, cta), m),
    decreases n,
{
    lemma_ready_split(visited_fields(xs, (n - 1) as nat, types, cta), visited(xs@[n - 1].1, types, cta), m);
    if i < n - 1 {
        lemma_ready_fields(xs, (n - 1) as nat, i, types, cta, m);
    }
}

/// The same for statements.
proof fn lemma_ready_stmts(xs: Vec<HirStmt>, n: nat, i: int, types: Seq<HirType>, cta: Map<ExprId, Vec<HirType>>, m: nat)
    requires
        visits_ready(visited_stmts(xs, n, types, cta), m),
        0 <= i < n <= xs@.len(),
    ensures
        visits_ready(visited_stmt(xs@[i], types, cta), m),
    decreases n,
{
    lemma_ready_split(visited_stmts(xs, (n - 1) as nat, types, cta), visited_stmt(xs@[n - 1], types, cta), m);
    if i < n - 1 {
        lemma_ready_stmts(xs, (n - 1) as nat, i, types, cta, m);
    }
}

/// The same for arms.
proof fn lemma_ready_arms(xs: Vec<MatchArm>, n: nat, i: int, types: Seq<HirType>, cta: Map<ExprId, Vec<HirType>>, m: nat)
    requires
        visits_ready(visited_arms(xs, n, types, cta), m),
        0 <= i < n <= xs@.len(),
    ensures
        visits_ready(visited_arm(xs@[i], types, cta), m),
    decreases n,
{
    lemma_ready_split(visited_arms(xs, (n - 1) as nat, types, cta), visited_arm(xs@[n - 1], types, cta), m);
    if i < n - 1 {
        lemma_ready_arms(xs, (n - 1) as nat, i, types, cta, m);
    }
}

/// Walks the expressions of `xs` in turn.
fn calls_list_into(xs: &Vec<HirExpr>, index: &MonoIndex, interner: &mut Interner, mangle_table: &mut MangleTable,
    types: &[HirType], cta: &CallTypeArgs, sub: &TypeSubst, items: &mut Vec<WorkItem>, Ghost(n): Ghost<nat>)
    requires
        old(mangle_table).agrees_with(old(interner)@),
        n <= old(interner)@.len(),
        ctx_ok(index, types@, cta@, sub@, n),
        visits_ready(visited_list(*xs, xs@.len(), types@, cta@), n),
    ensures
        final(mangle_table).agrees_with(final(interner)@),
        extends(old(interner)@, final(interner)@),
        calls_post(visited_list(*xs, xs@.len(), types@, cta@), old(items)@, final(items)@, index, types@, cta@, sub@, final(interner)@),
    decreases xs, 0nat,
{
    let ghost s0 = interner@;
    let ghost w0 = items@;
    proof {
        lemma_post_empty(w0, index, types@, cta@, sub@, s0);
    }
    let mut i: usize = 0;
    while i < xs.len()
        invariant
            0 <= i <= xs@.len(),
            n <= s0.len(),
            ctx_ok(index, types@, cta@, sub@, n),
            visits_ready(visited_list(*xs, xs@.len(), types@, cta@), n),
            mangle_table.agrees_with(interner@),
            extends(s0, interner@),
            s0 == old(interner)@,
            w0 == old(items)@,
            calls_post(visited_list(*xs, i as nat, types@, cta@), w0, items@, index, types@, cta@, sub@, interner@),
        decreases xs@.len() - i,
    {
        let ghost w1 = items@;
        let ghost s1 = interner@;
        proof {
            assert(decreases_to!(*xs => xs@[i as int]));
            lemma_ready_list(*xs, xs@.len(), i as int, types@, cta@, n);
        }
        calls_into(&xs[i], index, interner, mangle_table, types, cta, sub, items, Ghost(n));
        proof {
            lemma_step(visited_list(*xs, i as nat, types@, cta@), visited(xs@[i as int], types@, cta@), w0, w1, items@,
                s1, interner@, index, types@, cta@, sub@);
        }
        i = i + 1;
    }
}

/// Walks the values of the fields of `xs` in turn.
fn calls_fields_into(xs: &Vec<(Symbol, HirExpr)>, index: &MonoIndex, interner: &mut Interner, mangle_table: &mut MangleTable,
    types: &[HirType], cta: &CallTypeArgs, sub: &TypeSubst, items: &mut Vec<WorkItem>, Ghost(n): Ghost<nat>)
    requires
        old(mangle_table).agrees_with(old(interner)@),
        n <= old(interner)@.len(),
        ctx_ok(index, types@, cta@, sub@, n),
        visits_ready(visited_fields(*xs, xs@.len(), types@, cta@), n),
    ensures
        final(mangle_table).agrees_with(final(interner)@),
        extends(old(interner)@, final(interner)@),
        calls_post(visited_fields(*xs, xs@.len(), types@, cta@), old(items)@, final(items)@, index, types@, cta@, sub@, final(interner)@),
    decreases xs, 0nat,
{
    let ghost s0 = interner@;
    let ghost w0 = items@;
    proof {
        lemma_post_empty(w0, index, types@, cta@, sub@, s0);
    }
    let mut i: usize = 0;
    while i < xs.len()
        invariant
            0 <= i <= xs@.len(),
            n <= s0.len(),
            ctx_ok(index, types@, cta@, sub@, n),
            visits_ready(visited_fields(*xs, xs@.len(), types@, cta@), n),
            mangle_table.agrees_with(interner@),
            extends(s0, interner@),
            s0 == old(interner)@,
            w0 == old(items)@,
            calls_post(visited_fields(*xs, i as nat, types@, cta@), w0, items@, index, types@, cta@, sub@, interner@),
        decreases xs@.len() - i,
    {
        let ghost w1 = items@;
        let ghost s1 = interner@;
        proof {
            assert(decreases_to!(*xs => xs@[i as int]));
            lemma_ready_fields(*xs, xs@.len(), i as int, types@, cta@, n);
        }
        calls_into(&xs[i].1, index, interner, mangle_table, types, cta, sub, items, Ghost(n));
        proof {
            lemma_step(visited_fields(*xs, i as nat, types@, cta@), visited(xs@[i as int].1, types@, cta@), w0, w1, items@,
                s1, interner@, index, types@, cta@, sub@);
        }
        i = i + 1;
    }
}

/// Walks the values of the statements of `xs` in turn.
fn calls_stmts_into(xs: &Vec<HirStmt>, index: &MonoIndex, interner: &mut Interner, mangle_table: &mut MangleTable,
    types: &[HirType], cta: &CallTypeArgs, sub: &TypeSubst, items: &mut Vec<WorkItem>, Ghost(n): Ghost<nat>)
    requires
        old(mangle_table).agrees_with(old(interner)@),
        n <= old(interner)@.len(),
        ctx_ok(index, types@, cta@, sub@, n),
        visits_ready(visited_stmts(*xs, xs@.len(), types@, cta@), n),
    ensures
        final(mangle_table).agrees_with(final(interner)@),
        extends(old(interner)@, final(interner)@),
        calls_post(visited_stmts(*xs, xs@.len(), types@, cta@), old(items)@, final(items)@, index, types@, cta@, sub@, final(interner)@),
    decreases xs, 0nat,
{
    let ghost s0 = interner@;
    let ghost w0 = items@;
    proof {
        lemma_post_empty(w0, index, types@, cta@, sub@, s0);
    }
    let mut i: usize = 0;
    while i < xs.len()
        invariant
            0 <= i <= xs@.len(),
            n <= s0.len(),
            ctx_ok(index, types@, cta@, sub@, n),
            visits_ready(visited_stmts(*xs, xs@.len(), types@, cta@), n),
            mangle_table.agrees_with(interner@),
            extends(s0, interner@),
            s0 == old(interner)@,
            w0 == old(items)@,
            calls_post(visited_stmts(*xs, i as nat, types@, cta@), w0, items@, index, types@, cta@, sub@, interner@),
        decreases xs@.len() - i,
    {
        let ghost w1 = items@;
        let ghost s1 = interner@;
        proof {
            assert(decreases_to!(*xs => xs@[i as int]));
            lemma_ready_stmts(*xs, xs@.len(), i as int, types@, cta@, n);
        }
        let value: &HirExpr = match &xs[i] {
            HirStmt::Let { value, .. } => value,
            HirStmt::LetPat { value, .. } => value,
            HirStmt::Assign { value, .. } => value,
            HirStmt::AssignDeref { value, .. } => value,
            HirStmt::AssignField { value, .. } => value,
            HirStmt::Expr(x) => x,
        };
        proof {
            assert(visited_stmt(xs@[i as int], types@, cta@) == visited(*value, types@, cta@));
        }
        calls_into(value, index, interner, mangle_table, types, cta, sub, items, Ghost(n));
        proof {
            lemma_step(visited_stmts(*xs, i as nat, types@, cta@), visited_stmt(xs@[i as int], types@, cta@), w0, w1, items@,
                s1, interner@, index, types@, cta@, sub@);
        }
        i = i + 1;
    }
}

/// Walks the guards and bodies of the arms of `xs` in turn.
fn calls_arms_into(xs: &Vec<MatchArm>, index: &MonoIndex, interner: &mut Interner, mangle_table: &mut MangleTable,
    types: &[HirType], cta: &CallTypeArgs, sub: &TypeSubst, items: &mut Vec<WorkItem>, Ghost(n): Ghost<nat>)
    requires
        old(mangle_table).agrees_with(old(interner)@),
        n <= old(interner)@.len(),
        ctx_ok(index, types@, cta@, sub@, n),
        visits_ready(visited_arms(*xs, xs@.len(), types@, cta@), n),
    ensures
        final(mangle_table).agrees_with(final(interner)@),
        extends(old(interner)@, final(interner)@),
        calls_post(visited_arms(*xs, xs@.len(), types@, cta@), old(items)@, final(items)@, index, types@, cta@, sub@, final(interner)@),
    decreases xs, 0nat,
{
    let ghost s0 = interner@;
    let ghost w0 = items@;
    proof {
        lemma_post_empty(w0, index, types@, cta@, sub@, s0);
    }
    let mut i: usize = 0;
    while i < xs.len()
        invariant
            0 <= i <= xs@.len(),
            n <= s0.len(),
            ctx_ok(index, types@, cta@, sub@, n),
            visits_ready(visited_arms(*xs, xs@.len(), types@, cta@), n),
            mangle_table.agrees_with(interner@),
            extends(s0, interner@),
            s0 == old(interner)@,
            w0 == old(items)@,
            calls_post(visited_arms(*xs, i as nat, types@, cta@), w0, items@, index, types@, cta@, sub@, interner@),
        decreases xs@.len() - i,
    {
        let ghost w1 = items@;
        let ghost s1 = interner@;
        let arm = &xs[i];
        let ghost gv: Seq<Visit> = guard_visits(arm.guard, types@, cta@);
        proof {
            assert(decreases_to!(*xs => xs@[i as int]));
            lemma_ready_arms(*xs, xs@.len(), i as int, types@, cta@, n);
            lemma_ready_split(gv, visited(arm.body, types@, cta@), n);
        }
        match &arm.guard {
            Some(g) => {
                calls_into(g, index, interner, mangle_table, types, cta, sub, items, Ghost(n));
            },
            None => {
                proof {
                    lemma_post_empty(w1, index, types@, cta@, sub@, s1);
                }
            },
        }
        let ghost w2 = items@;
        let ghost s2 = interner@;
        calls_into(&arm.body, index, interner, mangle_table, types, cta, sub, items, Ghost(n));
        proof {
            lemma_step(gv, visited(arm.body, types@, cta@), w1, w2, items@, s2, interner@, index, types@, cta@, sub@);
            lemma_step(visited_arms(*xs, i as nat, types@, cta@), visited_arm(xs@[i as int], types@, cta@), w0, w1, items@,
                s1, interner@, index, types@, cta@, sub@);
        }
        i = i + 1;
    }
}

/// Appends the specializations that the types of `xs` ask for, each as a visit.
fn tys_own_into(xs: &Vec<HirType>, index: &MonoIndex, interner: &mut Interner, items: &mut Vec<WorkItem>,
    Ghost(types): Ghost<Seq<HirType>>, Ghost(cta): Ghost<Map<ExprId, Vec<HirType>>>, Ghost(sub): Ghost<Map<Symbol, HirType>>)
    requires
        forall|i: int| 0 <= i < xs@.len() ==> syms_below(#[trigger] xs@[i], old(interner)@.len()),
    ensures
        extends(old(interner)@, final(interner)@),
        calls_post(ty_visits(*xs, xs@.len()), old(items)@, final(items)@, index, types, cta, sub, final(interner)@),
{
    let ghost s0 = interner@;
    let ghost w0 = items@;
    proof {
        lemma_post_empty(w0, index, types, cta, sub, s0);
    }
    let mut i: usize = 0;
    while i < xs.len()
        invariant
            0 <= i <= xs@.len(),
            forall|k: int| 0 <= k < xs@.len() ==> syms_below(#[trigger] xs@[k], s0.len()),
            extends(s0, interner@),
            s0 == old(interner)@,
            w0 == old(items)@,
            calls_post(ty_visits(*xs, i as nat), w0, items@, index, types, cta, sub, interner@),
        decreases xs@.len() - i,
    {
        let ghost w1 = items@;
        let ghost s1 = interner@;
        proof {
            lemma_syms_below_mono(xs@[i as int], s0.len(), s1.len());
            lemma_syms_below_names(xs@[i as int], s1.len());
        }
        ty_own_into(&xs[i], index, interner, items, Ghost(types), Ghost(cta), Ghost(sub));
        proof {
            lemma_step(ty_visits(*xs, i as nat), seq![Visit::Ty(xs@[i as int])], w0, w1, items@, s1, interner@, index, types, cta, sub);
        }
        i = i + 1;
    }
}


/// The visits of an optional boxed expression.
pub open spec fn opt_visits(o: Option<Box<HirExpr>>, types: Seq<HirType>, cta: Map<ExprId, Vec<HirType>>) -> Seq<Visit> {
    match o {
        Some(x) => visited(*x, types, cta),
        None => Seq::empty(),
    }
}

/// The visits of an optional guard.
pub open spec fn guard_visits(o: Option<HirExpr>, types: Seq<HirType>, cta: Map<ExprId, Vec<HirType>>) -> Seq<Visit> {
    match o {
        Some(x) => visited(x, types, cta),
        None => Seq::empty(),
    }
}

/// Appends what the recorded type of `id` asks for, if there is one.
fn recorded_own_into(id: ExprId, index: &MonoIndex, interner: &mut Interner, items: &mut Vec<WorkItem>, types: &[HirType],
    Ghost(cta): Ghost<Map<ExprId, Vec<HirType>>>, Ghost(sub): Ghost<Map<Symbol, HirType>>)
    requires
        types_below(types@, old(interner)@.len()),
    ensures
        extends(old(interner)@, final(interner)@),
        calls_post(recorded_visit(types@, id), old(items)@, final(items)@, index, types@, cta, sub, final(interner)@),
{
    let i = id.as_usize();
    if i < types.len() {
        proof {
            lemma_syms_below_names(types@[i as int], interner@.len());
        }
        ty_own_into(&types[i], index, interner, items, Ghost(types@), Ghost(cta), Ghost(sub));
    } else {
        proof {
            lemma_post_empty(items@, index, types@, cta, sub, interner@);
        }
    }
}

/// Appends what the walk over `e` discovers; see `found_ok` and `visited`. `n` bounds
/// the symbols that the walk reads.
#[verifier::spinoff_prover]
#[verifier::rlimit(40)]
fn calls_into(e: &HirExpr, index: &MonoIndex, interner: &mut Interner, mangle_table: &mut MangleTable,
    types: &[HirType], cta: &CallTypeArgs, sub: &TypeSubst, items: &mut Vec<WorkItem>, Ghost(n): Ghost<nat>)
    requires
        old(mangle_table).agrees_with(old(interner)@),
        n <= old(interner)@.len(),
        ctx_ok(index, types@, cta@, sub@, n),
        visits_ready(visited(*e, types@, cta@), n),
    ensures
        final(mangle_table).agrees_with(final(interner)@),
        extends(old(interner)@, final(interner)@),
        calls_post(visited(*e, types@, cta@), old(items)@, final(items)@, index, types@, cta@, sub@, final(interner)@),
    decreases e, 1nat,
{
    let ghost s0 = interner@;
    let ghost w0 = items@;
    let ghost ty = types@;
    let ghost ct = cta@;
    let ghost sb = sub@;
    proof {
        lemma_ctx_mono(index, ty, ct, sb, n, s0.len());
    }
    match e {
        HirExpr::Call { id, callee, args, .. } => {
            proof {
                assert(decreases_to!(*e => (*e)->Call_args));
                lemma_ready_split(seq![Visit::Call(*id, *callee)], visited_list(*args, args@.len(), ty, ct), n);
                assert(visit_ready(seq![Visit::Call(*id, *callee)][0], n));
            }
            call_own_into(*id, *callee, index, interner, mangle_table, types, cta, sub, items);
            let ghost w1 = items@;
            let ghost s1 = interner@;
            calls_list_into(args, index, interner, mangle_table, types, cta, sub, items, Ghost(n));
            proof {
                lemma_step(seq![Visit::Call(*id, *callee)], visited_list(*args, args@.len(), ty, ct), w0, w1, items@, s1, interner@, index, ty, ct, sb);
            }
        },
        HirExpr::Block { stmts, .. } => {
            proof { assert(decreases_to!(*e => (*e)->Block_stmts)); }
            calls_stmts_into(stmts, index, interner, mangle_table, types, cta, sub, items, Ghost(n));
        },
        HirExpr::If { condition, then_branch, else_branch, .. } => {
            let ghost xv: Seq<Visit> = opt_visits(*else_branch, ty, ct);
            let ghost cv = visited(**condition, ty, ct);
            let ghost tv = visited(**then_branch, ty, ct);
            proof {
                lemma_ready_split(cv + tv, xv, n);
                lemma_ready_split(cv, tv, n);
            }
            calls_into(condition, index, interner, mangle_table, types, cta, sub, items, Ghost(n));
            let ghost w1 = items@;
            let ghost s1 = interner@;
            calls_into(then_branch, index, interner, mangle_table, types, cta, sub, items, Ghost(n));
            let ghost w2 = items@;
            let ghost s2 = interner@;
            proof {
                lemma_step(cv, tv, w0, w1, w2, s1, s2, index, ty, ct, sb);
            }
            match else_branch {
                Some(x) => {
                    calls_into(x, index, interner, mangle_table, types, cta, sub, items, Ghost(n));
                },
                None => {
                    proof { lemma_post_empty(w2, index, ty, ct, sb, s2); }
                },
            }
            proof {
                lemma_step(cv + tv, xv, w0, w2, items@, s2, interner@, index, ty, ct, sb);
            }
        },
        HirExpr::While { condition, body, .. } => {
            let ghost cv = visited(**condition, ty, ct);
            let ghost bv = visited(**body, ty, ct);
            proof { lemma_ready_split(cv, bv, n); }
            calls_into(condition, index, interner, mangle_table, types, cta, sub, items, Ghost(n));
            let ghost w1 = items@;
            let ghost s1 = interner@;
            calls_into(body, index, interner, mangle_table, types, cta, sub, items, Ghost(n));
            proof { lemma_step(cv, bv, w0, w1, items@, s1, interner@, index, ty, ct, sb); }
        },
        HirExpr::ForIn { iter, body, .. } => {
            let iid = iter.get_id();
            let ghost fv = seq![Visit::ForIn(iid)];
            let ghost rv = recorded_visit(ty, iid);
            let ghost iv = visited(**iter, ty, ct);
            let ghost bv = visited(**body, ty, ct);
            proof {
                lemma_ready_split(fv + rv + iv, bv, n);
                lemma_ready_split(fv + rv, iv, n);
            }
            discover_forin_into(iid, types, sub, index, mangle_table, interner, items);
            let ghost w1 = items@;
            let ghost s1 = interner@;
            proof {
                lemma_found_single(Visit::ForIn(iid), index, ty, ct, sb, s1, w1.skip(w0.len() as int));
                lemma_ctx_mono(index, ty, ct, sb, n, s1.len());
            }
            recorded_own_into(iid, index, interner, items, types, Ghost(ct), Ghost(sb));
            let ghost w2 = items@;
            let ghost s2 = interner@;
            proof {
                lemma_step(fv, rv, w0, w1, w2, s1, s2, index, ty, ct, sb);
                mangle_table.lemma_agrees_extends(s1, s2);
            }
            calls_into(iter, index, interner, mangle_table, types, cta, sub, items, Ghost(n));
            let ghost w3 = items@;
            let ghost s3 = interner@;
            proof { lemma_step(fv + rv, iv, w0, w2, w3, s2, s3, index, ty, ct, sb); }
            calls_into(body, index, interner, mangle_table, types, cta, sub, items, Ghost(n));
            proof { lemma_step(fv + rv + iv, bv, w0, w3, items@, s3, interner@, index, ty, ct, sb); }
        },
        HirExpr::Match { scrutinee, arms, .. } => {
            let ghost sv = visited(**scrutinee, ty, ct);
            let ghost av = visited_arms(*arms, arms@.len(), ty, ct);
            proof {
                assert(decreases_to!(*e => (*e)->Match_arms));
                lemma_ready_split(sv, av, n);
            }
            calls_into(scrutinee, index, interner, mangle_table, types, cta, sub, items, Ghost(n));
            let ghost w1 = items@;
            let ghost s1 = interner@;
            calls_arms_into(arms, index, interner, mangle_table, types, cta, sub, items, Ghost(n));
            proof { lemma_step(sv, av, w0, w1, items@, s1, interner@, index, ty, ct, sb); }
        },
        HirExpr::Return { value, .. } => {
            match value {
                Some(x) => {
                    calls_into(x, index, interner, mangle_table, types, cta, sub, items, Ghost(n));
                },
                None => {
                    proof { lemma_post_empty(w0, index, ty, ct, sb, s0); }
                },
            }
        },
        HirExpr::MethodCall { receiver, args, .. } => {
            let ghost rv = visited(**receiver, ty, ct);
            let ghost av = visited_list(*args, args@.len(), ty, ct);
            proof {
                assert(decreases_to!(*e => (*e)->MethodCall_args));
                lemma_ready_split(rv, av, n);
            }
            calls_into(receiver, index, interner, mangle_table, types, cta, sub, items, Ghost(n));
            let ghost w1 = items@;
            let ghost s1 = interner@;
            calls_list_into(args, index, interner, mangle_table, types, cta, sub, items, Ghost(n));
            proof { lemma_step(rv, av, w0, w1, items@, s1, interner@, index, ty, ct, sb); }
        },
        HirExpr::Binary { lhs, rhs, .. } => {
            let ghost lv = visited(**lhs, ty, ct);
            let ghost rv = visited(**rhs, ty, ct);
            proof { lemma_ready_split(lv, rv, n); }
            calls_into(lhs, index, interner, mangle_table, types, cta, sub, items, Ghost(n));
            let ghost w1 = items@;
            let ghost s1 = interner@;
            calls_into(rhs, index, interner, mangle_table, types, cta, sub, items, Ghost(n));
            proof { lemma_step(lv, rv, w0, w1, items@, s1, interner@, index, ty, ct, sb); }
        },
        HirExpr::Unary { operand, .. } => {
            calls_into(operand, index, interner, mangle_table, types, cta, sub, items, Ghost(n));
        },
        HirExpr::Deref { expr, .. } => {
            calls_into(expr, index, interner, mangle_table, types, cta, sub, items, Ghost(n));
        },
        HirExpr::StructLit { id, fields, .. } => {
            let ghost rv = recorded_visit(ty, *id);
            let ghost fv = visited_fields(*fields, fields@.len(), ty, ct);
            proof {
                assert(decreases_to!(*e => (*e)->StructLit_fields));
                lemma_ready_split(rv, fv, n);
            }
            recorded_own_into(*id, index, interner, items, types, Ghost(ct), Ghost(sb));
            let ghost w1 = items@;
            let ghost s1 = interner@;
            proof { mangle_table.lemma_agrees_extends(s0, s1); }
            calls_fields_into(fields, index, interner, mangle_table, types, cta, sub, items, Ghost(n));
            proof { lemma_step(rv, fv, w0, w1, items@, s1, interner@, index, ty, ct, sb); }
        },
        HirExpr::EnumVariant { id, args, .. } => {
            let ghost rv = recorded_visit(ty, *id);
            let ghost av = visited_list(*args, args@.len(), ty, ct);
            proof {
                assert(decreases_to!(*e => (*e)->EnumVariant_args));
                lemma_ready_split(rv, av, n);
            }
            recorded_own_into(*id, index, interner, items, types, Ghost(ct), Ghost(sb));
            let ghost w1 = items@;
            let ghost s1 = interner@;
            proof { mangle_table.lemma_agrees_extends(s0, s1); }
            calls_list_into(args, index, interner, mangle_table, types, cta, sub, items, Ghost(n));
            proof { lemma_step(rv, av, w0, w1, items@, s1, interner@, index, ty, ct, sb); }
        },
        HirExpr::TupleLit { elements, .. } => {
            proof { assert(decreases_to!(*e => (*e)->TupleLit_elements)); }
            calls_list_into(elements, index, interner, mangle_table, types, cta, sub, items, Ghost(n));
        },
        HirExpr::Println { arg, .. } => {
            calls_into(arg, index, interner, mangle_table, types, cta, sub, items, Ghost(n));
        },
        HirExpr::Assert { condition, message, .. } => {
            let ghost cv = visited(**condition, ty, ct);
            let ghost mv: Seq<Visit> = opt_visits(*message, ty, ct);
            proof { lemma_ready_split(cv, mv, n); }
            calls_into(condition, index, interner, mangle_table, types, cta, sub, items, Ghost(n));
            let ghost w1 = items@;
            let ghost s1 = interner@;
            match message {
                Some(x) => {
                    calls_into(x, index, interner, mangle_table, types, cta, sub, items, Ghost(n));
                },
                None => {
                    proof { lemma_post_empty(w1, index, ty, ct, sb, s1); }
                },
            }
            proof { lemma_step(cv, mv, w0, w1, items@, s1, interner@, index, ty, ct, sb); }
        },
        HirExpr::As { expr, .. } => {
            calls_into(expr, index, interner, mangle_table, types, cta, sub, items, Ghost(n));
        },
        HirExpr::FieldAccess { object, .. } => {
            calls_into(object, index, interner, mangle_table, types, cta, sub, items, Ghost(n));
        },
        HirExpr::SizeOf { id, target_type, .. } => {
            let ghost tv: Seq<Visit> = if ct.contains_key(*id) { ty_visits(ct[*id], ct[*id]@.len()) } else { Seq::empty() };
            let ghost gv = seq![Visit::Ty(*target_type)];
            proof {
                lemma_ready_split(tv, gv, n);
                assert(visit_ready(gv[0], n));
            }
            match cta.get(id) {
                Some(raw) => {
                    proof {
                        assert(ct.contains_key(*id));
                        assert forall|k: int| 0 <= k < raw@.len() implies syms_below(#[trigger] raw@[k], s0.len()) by {
                            assert(syms_below(ct[*id]@[k], s0.len()));
                        }
                    }
                    tys_own_into(raw, index, interner, items, Ghost(ty), Ghost(ct), Ghost(sb));
                },
                None => {
                    proof { lemma_post_empty(w0, index, ty, ct, sb, s0); }
                },
            }
            let ghost w1 = items@;
            let ghost s1 = interner@;
            proof { lemma_names_below_mono(*target_type, n, s1.len()); }
            ty_own_into(target_type, index, interner, items, Ghost(ty), Ghost(ct), Ghost(sb));
            proof {
                lemma_step(tv, gv, w0, w1, items@, s1, interner@, index, ty, ct, sb);
                mangle_table.lemma_agrees_extends(s0, interner@);
            }
        },
        _ => {
            proof { lemma_post_empty(w0, index, ty, ct, sb, s0); }
        },
    }
}

/// The specializations that the calls of a substituted body still ask for, walking it
/// as `visited` says: each call of a function that needs specialization (its callee's
/// base name, see `demangled`) with the concrete forms of its recorded type arguments,
/// or of the type arguments of its recorded generic type; each `for` loop's iterator
/// functions (see `forin_ok`); the types recorded for struct and enum literals and
/// `for` iterators, and those of `sizeof`. A call whose concrete arguments are empty or
/// hold an unresolved type parameter asks for nothing. Near the interner's limit, a
/// step whose names would not fit is skipped; see `found_ok`.
pub fn discover_calls_in_body(expr: &HirExpr, index: &MonoIndex, interner: &mut Interner, mangle_table: &mut MangleTable,
    expr_types: &[HirType], call_type_args: &CallTypeArgs, sub: &TypeSubst) -> (r: Vec<WorkItem>)
    requires
        old(mangle_table).agrees_with(old(interner)@),
        ctx_ok(index, expr_types@, call_type_args@, sub@, old(interner)@.len()),
        visits_ready(visited(*expr, expr_types@, call_type_args@), old(interner)@.len()),
    ensures
        final(mangle_table).agrees_with(final(interner)@),
        extends(old(interner)@, final(interner)@),
        found_ok(visited(*expr, expr_types@, call_type_args@), r@, index, expr_types@, call_type_args@, sub@, final(interner)@),
{
    let mut items: Vec<WorkItem> = Vec::new();
    calls_into(expr, index, interner, mangle_table, expr_types, call_type_args, sub, &mut items, Ghost(interner@.len()));
    proof {
        assert(items@.skip(0) == items@);
    }
    items
}

} // verus!

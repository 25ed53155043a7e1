use vstd::prelude::*;
use crate::monomorphize::index::{enum_at, struct_at, MonoIndex};
use crate::monomorphize::mangle_table::{args_ok, MangleTable};
use crate::monomorphize::mangling::{
    extends, lemma_short_syms_ok_mono, lemma_type_short_extends, short_syms_ok, type_short, types_joined,
};
use crate::item::HirItem;
use crate::symbol::{is_first_index, table_has, Interner, Symbol};
use crate::types::{copy_type, ty_eq, tys_eq, substitute_type, substituted, substituted_all, HirType, TypeSubst};

verus! {

broadcast use vstd::std_specs::vec::group_vec_axioms;

/// `s` names a struct or an enum of the program.
pub open spec fn known(items: Seq<HirItem>, s: Symbol) -> bool {
    struct_at(items, items.len()).contains_key(s) || enum_at(items, items.len()).contains_key(s)
}

/// The string `name` is interned and its symbol names an enum of the program.
pub open spec fn builtin_enum(items: Seq<HirItem>, strs: Seq<Seq<char>>, name: Seq<char>) -> bool {
    exists|i: int| #[trigger] is_first_index(strs, name, i) && enum_at(items, items.len()).contains_key(Symbol(i as u32))
}

/// `Option` is an enum of the program.
pub open spec fn option_known(items: Seq<HirItem>, strs: Seq<Seq<char>>) -> bool {
    builtin_enum(items, strs, "Option"@)
}

/// `Result` is an enum of the program.
pub open spec fn result_known(items: Seq<HirItem>, strs: Seq<Seq<char>>) -> bool {
    builtin_enum(items, strs, "Result"@)
}

/// The short form, as used in mangled names, of the concrete form of `t`.
pub open spec fn cshort(t: HirType, items: Seq<HirItem>, strs: Seq<Seq<char>>) -> Seq<char>
    decreases t, 0nat,
{
    match t {
        HirType::Generic(s, xs) => if known(items, s) {
            strs[s.index() as int] + "__"@ + cjoined(xs, xs@.len(), items, strs)
        } else {
            strs[s.index() as int] + "_"@ + cjoined(xs, xs@.len(), items, strs)
        },
        HirType::Tuple(xs) => "tup_"@ + cjoined(xs, xs@.len(), items, strs),
        HirType::RawPtr(x) => "ptr_"@ + cshort(*x, items, strs),
        HirType::Option(x) => if option_known(items, strs) {
            "Option"@ + "__"@ + cshort(*x, items, strs)
        } else {
            "opt_"@ + cshort(*x, items, strs)
        },
        HirType::Result(x, e) => if result_known(items, strs) {
            "Result"@ + "__"@ + cshort(*x, items, strs) + "_"@ + cshort(*e, items, strs)
        } else {
            "res_"@ + cshort(*x, items, strs) + "_"@ + cshort(*e, items, strs)
        },
        _ => type_short(t, strs),
    }
}

/// The short forms of the concrete forms of the first `n` types of `xs`, joined by `_`.
pub open spec fn cjoined(xs: Vec<HirType>, n: nat, items: Seq<HirItem>, strs: Seq<Seq<char>>) -> Seq<char>
    decreases xs, n,
{
    if n == 0 || n > xs@.len() {
        Seq::empty()
    } else if n == 1 {
        cshort(xs@[0], items, strs)
    } else {
        cjoined(xs, (n - 1) as nat, items, strs) + "_"@ + cshort(xs@[n - 1], items, strs)
    }
}

/// `out` is the concrete form of `t`: a generic struct or enum of the program, and
/// `Option` or `Result` when the program declares them as enums, become the `Named`
/// type whose symbol names their mangled name; other types keep their shape with
/// their components made concrete.
pub open spec fn concretized(t: HirType, out: HirType, items: Seq<HirItem>, strs: Seq<Seq<char>>) -> bool
    decreases t,
{
    match t {
        HirType::Generic(s, xs) => if known(items, s) {
            out matches HirType::Named(m) && m.index() < strs.len() && strs[m.index() as int] == cshort(t, items, strs)
        } else {
            out matches HirType::Generic(s2, ys) && s2 == s && ys@.len() == xs@.len()
                && forall|i: int| 0 <= i < xs@.len() ==> concretized(#[trigger] xs@[i], ys@[i], items, strs)
        },
        HirType::Option(x) => if option_known(items, strs) {
            out matches HirType::Named(m) && m.index() < strs.len() && strs[m.index() as int] == cshort(t, items, strs)
        } else {
            out matches HirType::Option(y) && concretized(*x, *y, items, strs)
        },
        HirType::Result(x, e) => if result_known(items, strs) {
            out matches HirType::Named(m) && m.index() < strs.len() && strs[m.index() as int] == cshort(t, items, strs)
        } else {
            out matches HirType::Result(y, f) && concretized(*x, *y, items, strs) && concretized(*e, *f, items, strs)
        },
        HirType::Tuple(xs) => out matches HirType::Tuple(ys) && ys@.len() == xs@.len()
            && forall|i: int| 0 <= i < xs@.len() ==> concretized(#[trigger] xs@[i], ys@[i], items, strs),
        HirType::RawPtr(x) => out matches HirType::RawPtr(y) && concretized(*x, *y, items, strs),
        HirType::Func(xs, r) => out matches HirType::Func(ys, q) && ys@.len() == xs@.len()
            && (forall|i: int| 0 <= i < xs@.len() ==> concretized(#[trigger] xs@[i], ys@[i], items, strs))
            && concretized(*r, *q, items, strs),
        _ => out == t,
    }
}

/// Some `Option` type occurs in `t` (outside function types' short forms too).
pub open spec fn mentions_option(t: HirType) -> bool
    decreases t,
{
    match t {
        HirType::Option(_) => true,
        HirType::Generic(_, xs) => exists|i: int| 0 <= i < xs@.len() && mentions_option(#[trigger] xs@[i]),
        HirType::Tuple(xs) => exists|i: int| 0 <= i < xs@.len() && mentions_option(#[trigger] xs@[i]),
        HirType::RawPtr(x) => mentions_option(*x),
        HirType::Result(x, e) => mentions_option(*x) || mentions_option(*e),
        HirType::Func(xs, r) => (exists|i: int| 0 <= i < xs@.len() && mentions_option(#[trigger] xs@[i])) || mentions_option(*r),
        _ => false,
    }
}

/// Some `Result` type occurs in `t`.
pub open spec fn mentions_result(t: HirType) -> bool
    decreases t,
{
    match t {
        HirType::Result(..) => true,
        HirType::Generic(_, xs) => exists|i: int| 0 <= i < xs@.len() && mentions_result(#[trigger] xs@[i]),
        HirType::Tuple(xs) => exists|i: int| 0 <= i < xs@.len() && mentions_result(#[trigger] xs@[i]),
        HirType::RawPtr(x) => mentions_result(*x),
        HirType::Option(x) => mentions_result(*x),
        HirType::Func(xs, r) => (exists|i: int| 0 <= i < xs@.len() && mentions_result(#[trigger] xs@[i])) || mentions_result(*r),
        _ => false,
    }
}

/// The names `Option` and `Result` are interned wherever `t` needs them.
pub open spec fn builtins_interned(t: HirType, strs: Seq<Seq<char>>) -> bool {
    &&& mentions_option(t) ==> table_has(strs, "Option"@)
    &&& mentions_result(t) ==> table_has(strs, "Result"@)
}

/// Every symbol that `t` mentions in a struct, enum or named position is below `n`
/// (the short-form bound, extended into function types).
pub open spec fn syms_below(t: HirType, n: nat) -> bool
    decreases t,
{
    match t {
        HirType::Named(s) => s.index() < n,
        HirType::Generic(s, xs) => s.index() < n && forall|i: int| 0 <= i < xs@.len() ==> syms_below(#[trigger] xs@[i], n),
        HirType::Tuple(xs) => forall|i: int| 0 <= i < xs@.len() ==> syms_below(#[trigger] xs@[i], n),
        HirType::RawPtr(x) => syms_below(*x, n),
        HirType::Option(x) => syms_below(*x, n),
        HirType::Result(x, e) => syms_below(*x, n) && syms_below(*e, n),
        HirType::Func(xs, r) => (forall|i: int| 0 <= i < xs@.len() ==> syms_below(#[trigger] xs@[i], n)) && syms_below(*r, n),
        _ => true,
    }
}

/// An upper bound on the strings that concretizing `t` interns.
pub open spec fn intern_budget(t: HirType) -> nat
    decreases t, 0nat,
{
    match t {
        HirType::Generic(_, xs) => 1 + budgets(xs, xs@.len()),
        HirType::Tuple(xs) => budgets(xs, xs@.len()),
        HirType::RawPtr(x) => intern_budget(*x),
        HirType::Option(x) => 2 + intern_budget(*x),
        HirType::Result(x, e) => 2 + intern_budget(*x) + intern_budget(*e),
        HirType::Func(xs, r) => budgets(xs, xs@.len()) + intern_budget(*r),
        _ => 0,
    }
}

/// The sum of the budgets of the first `n` types of `xs`.
pub open spec fn budgets(xs: Vec<HirType>, n: nat) -> nat
    decreases xs, n,
{
    if n == 0 || n > xs@.len() {
        0
    } else {
        budgets(xs, (n - 1) as nat) + intern_budget(xs@[n - 1])
    }
}

/// The first position of a string stays its first position when the table grows.
pub proof fn lemma_first_index_extends(small: Seq<Seq<char>>, big: Seq<Seq<char>>, s: Seq<char>, i: int)
    requires
        extends(small, big),
        is_first_index(small, s, i),
    ensures
        is_first_index(big, s, i),
{
}

/// Whether a builtin enum is known does not change when the table grows, once its
/// name is interned.
pub proof fn lemma_builtin_enum_extends(items: Seq<HirItem>, small: Seq<Seq<char>>, big: Seq<Seq<char>>, name: Seq<char>)
    requires
        extends(small, big),
        table_has(small, name),
    ensures
        builtin_enum(items, small, name) == builtin_enum(items, big, name),
{
    if builtin_enum(items, small, name) {
        let i = choose|i: int| #[trigger] is_first_index(small, name, i) && enum_at(items, items.len()).contains_key(Symbol(i as u32));
        lemma_first_index_extends(small, big, name, i);
    }
    if builtin_enum(items, big, name) {
        let i = choose|i: int| #[trigger] is_first_index(big, name, i) && enum_at(items, items.len()).contains_key(Symbol(i as u32));
        let j = choose|j: int| 0 <= j < small.len() && small[j] == name;
        assert(big[j] == name);
        assert(i <= j);
        assert(is_first_index(small, name, i));
    }
}

/// The concrete short form is unchanged by growing the table.
pub proof fn lemma_cshort_extends(t: HirType, items: Seq<HirItem>, small: Seq<Seq<char>>, big: Seq<Seq<char>>)
    requires
        extends(small, big),
        short_syms_ok(t, small.len()),
        builtins_interned(t, small),
    ensures
        cshort(t, items, small) == cshort(t, items, big),
    decreases t, 0nat,
{
    match t {
        HirType::Generic(_, xs) => {
            assert(decreases_to!(t => t->Generic_1));
            lemma_cjoined_extends(xs, xs@.len(), items, small, big);
        },
        HirType::Tuple(xs) => {
            assert(decreases_to!(t => t->Tuple_0));
            lemma_cjoined_extends(xs, xs@.len(), items, small, big);
        },
        HirType::RawPtr(x) => lemma_cshort_extends(*x, items, small, big),
        HirType::Option(x) => {
            lemma_cshort_extends(*x, items, small, big);
            lemma_builtin_enum_extends(items, small, big, "Option"@);
        },
        HirType::Result(x, e) => {
            lemma_cshort_extends(*x, items, small, big);
            lemma_cshort_extends(*e, items, small, big);
            lemma_builtin_enum_extends(items, small, big, "Result"@);
        },
        _ => {
            lemma_type_short_extends(t, small, big);
        },
    }
}

/// The joined concrete short forms are unchanged by growing the table.
pub proof fn lemma_cjoined_extends(xs: Vec<HirType>, n: nat, items: Seq<HirItem>, small: Seq<Seq<char>>, big: Seq<Seq<char>>)
    requires
        extends(small, big),
        forall|i: int| 0 <= i < xs@.len() ==> short_syms_ok(#[trigger] xs@[i], small.len()),
        forall|i: int| 0 <= i < xs@.len() ==> builtins_interned(#[trigger] xs@[i], small),
    ensures
        cjoined(xs, n, items, small) == cjoined(xs, n, items, big),
    decreases xs, n,
{
    if n == 0 || n > xs@.len() {
    } else {
        assert(decreases_to!(xs => xs@[n - 1]));
        lemma_cshort_extends(xs@[n - 1], items, small, big);
        if n > 1 {
            lemma_cjoined_extends(xs, (n - 1) as nat, items, small, big);
        }
    }
}

/// The full symbol bound implies the short-form bound.
pub proof fn lemma_syms_below_short(t: HirType, n: nat)
    requires
        syms_below(t, n),
    ensures
        short_syms_ok(t, n),
    decreases t,
{
    match t {
        HirType::Generic(_, xs) => {
            assert forall|i: int| 0 <= i < xs@.len() implies short_syms_ok(#[trigger] xs@[i], n) by {
                assert(decreases_to!(t => t->Generic_1));
                lemma_syms_below_short(xs@[i], n);
            }
        },
        HirType::Tuple(xs) => {
            assert forall|i: int| 0 <= i < xs@.len() implies short_syms_ok(#[trigger] xs@[i], n) by {
                assert(decreases_to!(t => t->Tuple_0));
                lemma_syms_below_short(xs@[i], n);
            }
        },
        HirType::RawPtr(x) => lemma_syms_below_short(*x, n),
        HirType::Option(x) => lemma_syms_below_short(*x, n),
        HirType::Result(x, e) => {
            lemma_syms_below_short(*x, n);
            lemma_syms_below_short(*e, n);
        },
        _ => {},
    }
}

/// A symbol bound holds for any larger bound.
pub proof fn lemma_syms_below_mono(t: HirType, n: nat, m: nat)
    requires
        syms_below(t, n),
        n <= m,
    ensures
        syms_below(t, m),
    decreases t,
{
    match t {
        HirType::Generic(_, xs) => {
            assert forall|i: int| 0 <= i < xs@.len() implies syms_below(#[trigger] xs@[i], m) by {
                assert(decreases_to!(t => t->Generic_1));
                lemma_syms_below_mono(xs@[i], n, m);
            }
        },
        HirType::Tuple(xs) => {
            assert forall|i: int| 0 <= i < xs@.len() implies syms_below(#[trigger] xs@[i], m) by {
                assert(decreases_to!(t => t->Tuple_0));
                lemma_syms_below_mono(xs@[i], n, m);
            }
        },
        HirType::Func(xs, r) => {
            assert forall|i: int| 0 <= i < xs@.len() implies syms_below(#[trigger] xs@[i], m) by {
                assert(decreases_to!(t => t->Func_0));
                lemma_syms_below_mono(xs@[i], n, m);
            }
            lemma_syms_below_mono(*r, n, m);
        },
        HirType::RawPtr(x) => lemma_syms_below_mono(*x, n, m),
        HirType::Option(x) => lemma_syms_below_mono(*x, n, m),
        HirType::Result(x, e) => {
            lemma_syms_below_mono(*x, n, m);
            lemma_syms_below_mono(*e, n, m);
        },
        _ => {},
    }
}

/// Being the concrete form of a type is unchanged by growing the table.
pub proof fn lemma_concretized_extends(t: HirType, out: HirType, items: Seq<HirItem>, small: Seq<Seq<char>>, big: Seq<Seq<char>>)
    requires
        extends(small, big),
        syms_below(t, small.len()),
        builtins_interned(t, small),
        concretized(t, out, items, small),
    ensures
        concretized(t, out, items, big),
    decreases t,
{
    lemma_syms_below_short(t, small.len());
    match t {
        HirType::Generic(s, xs) => {
            if known(items, s) {
                lemma_cshort_extends(t, items, small, big);
            } else {
                let ys = out->Generic_1;
                assert forall|i: int| 0 <= i < xs@.len() implies concretized(#[trigger] xs@[i], ys@[i], items, big) by {
                    assert(decreases_to!(t => t->Generic_1));
                    assert(syms_below(xs@[i], small.len()));
                    lemma_concretized_extends(xs@[i], ys@[i], items, small, big);
                }
            }
        },
        HirType::Option(x) => {
            lemma_builtin_enum_extends(items, small, big, "Option"@);
            if option_known(items, small) {
                lemma_cshort_extends(t, items, small, big);
            } else {
                lemma_concretized_extends(*x, *out->Option_0, items, small, big);
            }
        },
        HirType::Result(x, e) => {
            lemma_builtin_enum_extends(items, small, big, "Result"@);
            if result_known(items, small) {
                lemma_cshort_extends(t, items, small, big);
            } else {
                lemma_concretized_extends(*x, *out->Result_0, items, small, big);
                lemma_concretized_extends(*e, *out->Result_1, items, small, big);
            }
        },
        HirType::Tuple(xs) => {
            let ys = out->Tuple_0;
            assert forall|i: int| 0 <= i < xs@.len() implies concretized(#[trigger] xs@[i], ys@[i], items, big) by {
                assert(decreases_to!(t => t->Tuple_0));
                assert(syms_below(xs@[i], small.len()));
                lemma_concretized_extends(xs@[i], ys@[i], items, small, big);
            }
        },
        HirType::RawPtr(x) => {
            lemma_concretized_extends(*x, *out->RawPtr_0, items, small, big);
        },
        HirType::Func(xs, r) => {
            let ys = out->Func_0;
            assert forall|i: int| 0 <= i < xs@.len() implies concretized(#[trigger] xs@[i], ys@[i], items, big) by {
                assert(decreases_to!(t => t->Func_0));
                assert(syms_below(xs@[i], small.len()));
                lemma_concretized_extends(xs@[i], ys@[i], items, small, big);
            }
            lemma_concretized_extends(*r, *out->Func_1, items, small, big);
        },
        _ => {},
    }
}

/// The facts that concretizing `t` into `out` establishes, at the table `strs`.
pub open spec fn concrete_facts(t: HirType, out: HirType, items: Seq<HirItem>, strs: Seq<Seq<char>>) -> bool {
    &&& syms_below(t, strs.len())
    &&& syms_below(out, strs.len())
    &&& builtins_interned(t, strs)
    &&& concretized(t, out, items, strs)
    &&& type_short(out, strs) == cshort(t, items, strs)
}

/// The facts of a concretization carry over to a grown table.
pub proof fn lemma_facts_extend(t: HirType, out: HirType, items: Seq<HirItem>, small: Seq<Seq<char>>, big: Seq<Seq<char>>)
    requires
        extends(small, big),
        concrete_facts(t, out, items, small),
    ensures
        concrete_facts(t, out, items, big),
{
    lemma_syms_below_short(t, small.len());
    lemma_syms_below_short(out, small.len());
    lemma_syms_below_mono(t, small.len(), big.len());
    lemma_syms_below_mono(out, small.len(), big.len());
    lemma_concretized_extends(t, out, items, small, big);
    lemma_type_short_extends(out, small, big);
    lemma_cshort_extends(t, items, small, big);
}

/// Lists whose short forms agree pointwise have the same joined short forms.
pub proof fn lemma_joined_cjoined(ys: Vec<HirType>, xs: Vec<HirType>, n: nat, items: Seq<HirItem>, strs: Seq<Seq<char>>)
    requires
        ys@.len() == xs@.len(),
        forall|i: int| 0 <= i < xs@.len() ==> type_short(#[trigger] ys@[i], strs) == cshort(xs@[i], items, strs),
    ensures
        types_joined(ys, n, strs) == cjoined(xs, n, items, strs),
    decreases n,
{
    if n == 0 || n > xs@.len() {
    } else {
        assert(type_short(ys@[n - 1], strs) == cshort(xs@[n - 1], items, strs));
        if n > 1 {
            lemma_joined_cjoined(ys, xs, (n - 1) as nat, items, strs);
        } else {
            assert(type_short(ys@[0], strs) == cshort(xs@[0], items, strs));
        }
    }
}

/// Budgets of longer prefixes are larger.
pub proof fn lemma_budgets_mono(xs: Vec<HirType>, n: nat, m: nat)
    requires
        n <= m <= xs@.len(),
    ensures
        budgets(xs, n) <= budgets(xs, m),
    decreases m,
{
    if n < m {
        lemma_budgets_mono(xs, n, (m - 1) as nat);
    }
}

/// Concretizes each type of `xs` in turn.
pub(crate) fn concretize_list(xs: &Vec<HirType>, index: &MonoIndex, table: &mut MangleTable, interner: &mut Interner) -> (ys: Vec<HirType>)
    requires
        old(table).agrees_with(old(interner)@),
        forall|i: int| 0 <= i < xs@.len() ==> syms_below(#[trigger] xs@[i], old(interner)@.len()),
        old(interner)@.len() + budgets(*xs, xs@.len()) < u32::MAX,
    ensures
        final(table).agrees_with(final(interner)@),
        extends(old(interner)@, final(interner)@),
        final(interner)@.len() <= old(interner)@.len() + budgets(*xs, xs@.len()),
        ys@.len() == xs@.len(),
        forall|i: int| 0 <= i < xs@.len() ==> concrete_facts(#[trigger] xs@[i], ys@[i], index.items(), final(interner)@),
    decreases xs, xs@.len(),
{
    let ghost s0 = interner@;
    let ghost items = index.items();
    let mut ys: Vec<HirType> = Vec::new();
    let mut i: usize = 0;
    while i < xs.len()
        invariant
            0 <= i <= xs@.len(),
            ys@.len() == i,
            s0 == old(interner)@,
            items == index.items(),
            table.agrees_with(interner@),
            extends(s0, interner@),
            interner@.len() <= s0.len() + budgets(*xs, i as nat),
            forall|k: int| 0 <= k < xs@.len() ==> syms_below(#[trigger] xs@[k], s0.len()),
            s0.len() + budgets(*xs, xs@.len()) < u32::MAX,
            forall|k: int| 0 <= k < i ==> concrete_facts(#[trigger] xs@[k], ys@[k], items, interner@),
        decreases xs@.len() - i,
    {
        proof {
            assert(decreases_to!(*xs => xs@[i as int]));
            lemma_budgets_mono(*xs, (i + 1) as nat, xs@.len());
            lemma_syms_below_mono(xs@[i as int], s0.len(), interner@.len());
        }
        let ghost before = interner@;
        let y = concretize_ref(&xs[i], index, table, interner);
        proof {
            assert forall|k: int| 0 <= k < i implies concrete_facts(#[trigger] xs@[k], ys@[k], items, interner@) by {
                lemma_facts_extend(xs@[k], ys@[k], items, before, interner@);
            }
        }
        ys.push(y);
        i = i + 1;
    }
    ys
}

/// The concrete form of `ty`; see `concretized`.
pub(crate) fn concretize_ref(ty: &HirType, index: &MonoIndex, table: &mut MangleTable, interner: &mut Interner) -> (r: HirType)
    requires
        old(table).agrees_with(old(interner)@),
        syms_below(*ty, old(interner)@.len()),
        old(interner)@.len() + intern_budget(*ty) < u32::MAX,
    ensures
        final(table).agrees_with(final(interner)@),
        extends(old(interner)@, final(interner)@),
        final(interner)@.len() <= old(interner)@.len() + intern_budget(*ty),
        concrete_facts(*ty, r, index.items(), final(interner)@),
    decreases ty, 0nat,
{
    let ghost items = index.items();
    let ghost s0 = interner@;
    match ty {
        HirType::Generic(sym, xs) => {
            proof { assert(decreases_to!(*ty => (*ty)->Generic_1)); }
            let ys = concretize_list(xs, index, table, interner);
            let ghost s1 = interner@;
            let is_known = index.find_struct(*sym).is_some() || index.find_enum(*sym).is_some();
            proof {
                assert(is_known == known(items, *sym));
                assert forall|i: int| 0 <= i < ys@.len() implies short_syms_ok(#[trigger] ys@[i], s1.len()) by {
                    assert(concrete_facts(xs@[i], ys@[i], items, s1));
                    lemma_syms_below_short(ys@[i], s1.len());
                }
            }
            if is_known {
                let m = table.mangle(*sym, &ys, interner);
                proof {
                    let s2 = interner@;
                    assert forall|i: int| 0 <= i < xs@.len() implies type_short(#[trigger] ys@[i], s2) == cshort(xs@[i], items, s2) by {
                        lemma_facts_extend(xs@[i], ys@[i], items, s1, s2);
                    }
                    lemma_joined_cjoined(ys, *xs, xs@.len(), items, s2);
                    assert(syms_below(*ty, s2.len())) by {
                        lemma_syms_below_mono(*ty, s0.len(), s2.len());
                    }
                    assert forall|i: int| 0 <= i < xs@.len() implies builtins_interned(#[trigger] xs@[i], s2) by {
                        lemma_facts_extend(xs@[i], ys@[i], items, s1, s2);
                    }
                    assert(builtins_interned(*ty, s2)) by {
                        if mentions_option(*ty) {
                            let i = choose|i: int| 0 <= i < xs@.len() && mentions_option(#[trigger] xs@[i]);
                            assert(builtins_interned(xs@[i], s2));
                        }
                        if mentions_result(*ty) {
                            let i = choose|i: int| 0 <= i < xs@.len() && mentions_result(#[trigger] xs@[i]);
                            assert(builtins_interned(xs@[i], s2));
                        }
                    }
                    assert(s2[m.index() as int] == cshort(*ty, items, s2));
                    assert(concretized(*ty, HirType::Named(m), items, s2));
                    assert(syms_below(HirType::Named(m), s2.len()));
                    assert(type_short(HirType::Named(m), s2) == cshort(*ty, items, s2));
                    assert(concrete_facts(*ty, HirType::Named(m), items, s2));
                }
                let out = HirType::Named(m);
                assert(concrete_facts(*ty, out, index.items(), interner@));
                out
            } else {
                proof {
                    assert forall|i: int| 0 <= i < xs@.len() implies type_short(#[trigger] ys@[i], s1) == cshort(xs@[i], items, s1) by {
                        assert(concrete_facts(xs@[i], ys@[i], items, s1));
                    }
                    lemma_joined_cjoined(ys, *xs, xs@.len(), items, s1);
                    lemma_syms_below_mono(*ty, s0.len(), s1.len());
                    assert(builtins_interned(*ty, s1)) by {
                        if mentions_option(*ty) {
                            let i = choose|i: int| 0 <= i < xs@.len() && mentions_option(#[trigger] xs@[i]);
                            assert(concrete_facts(xs@[i], ys@[i], items, s1));
                        }
                        if mentions_result(*ty) {
                            let i = choose|i: int| 0 <= i < xs@.len() && mentions_result(#[trigger] xs@[i]);
                            assert(concrete_facts(xs@[i], ys@[i], items, s1));
                        }
                    }
                    assert forall|i: int| 0 <= i < ys@.len() implies syms_below(#[trigger] ys@[i], s1.len()) by {
                        assert(concrete_facts(xs@[i], ys@[i], items, s1));
                    }
                    assert forall|i: int| 0 <= i < xs@.len() implies concretized(#[trigger] xs@[i], ys@[i], items, s1) by {
                        assert(concrete_facts(xs@[i], ys@[i], items, s1));
                    }
                    let out = HirType::Generic(*sym, ys);
                    assert(syms_below(out, s1.len()));
                    assert(concretized(*ty, out, items, s1));
                    assert(type_short(out, s1) == cshort(*ty, items, s1));
                }
                let out = HirType::Generic(*sym, ys);
                assert(concrete_facts(*ty, out, index.items(), interner@));
                out
            }
        },
        HirType::Tuple(xs) => {
            proof { assert(decreases_to!(*ty => (*ty)->Tuple_0)); }
            let ys = concretize_list(xs, index, table, interner);
            proof {
                let s1 = interner@;
                assert forall|i: int| 0 <= i < xs@.len() implies type_short(#[trigger] ys@[i], s1) == cshort(xs@[i], items, s1)
                    && syms_below(ys@[i], s1.len()) && concretized(xs@[i], ys@[i], items, s1) by {
                    assert(concrete_facts(xs@[i], ys@[i], items, s1));
                }
                lemma_joined_cjoined(ys, *xs, xs@.len(), items, s1);
                lemma_syms_below_mono(*ty, s0.len(), s1.len());
                assert(builtins_interned(*ty, s1)) by {
                    if mentions_option(*ty) {
                        let i = choose|i: int| 0 <= i < xs@.len() && mentions_option(#[trigger] xs@[i]);
                        assert(concrete_facts(xs@[i], ys@[i], items, s1));
                    }
                    if mentions_result(*ty) {
                        let i = choose|i: int| 0 <= i < xs@.len() && mentions_result(#[trigger] xs@[i]);
                        assert(concrete_facts(xs@[i], ys@[i], items, s1));
                    }
                }
            }
            HirType::Tuple(ys)
        },
        HirType::Func(xs, ret) => {
            proof { assert(decreases_to!(*ty => (*ty)->Func_0)); }
            let ys = concretize_list(xs, index, table, interner);
            let ghost s1 = interner@;
            proof {
                lemma_syms_below_mono(**ret, s0.len(), s1.len());
            }
            let q = concretize_ref(ret, index, table, interner);
            proof {
                let s2 = interner@;
                assert forall|i: int| 0 <= i < xs@.len() implies concrete_facts(#[trigger] xs@[i], ys@[i], items, s2) by {
                    lemma_facts_extend(xs@[i], ys@[i], items, s1, s2);
                }
                assert forall|i: int| 0 <= i < xs@.len() implies syms_below(#[trigger] ys@[i], s2.len())
                    && concretized(xs@[i], ys@[i], items, s2) by {
                    assert(concrete_facts(xs@[i], ys@[i], items, s2));
                }
                lemma_syms_below_mono(*ty, s0.len(), s2.len());
                assert(builtins_interned(*ty, s2)) by {
                    if mentions_option(*ty) && !mentions_option(**ret) {
                        let i = choose|i: int| 0 <= i < xs@.len() && mentions_option(#[trigger] xs@[i]);
                        assert(concrete_facts(xs@[i], ys@[i], items, s2));
                    }
                    if mentions_result(*ty) && !mentions_result(**ret) {
                        let i = choose|i: int| 0 <= i < xs@.len() && mentions_result(#[trigger] xs@[i]);
                        assert(concrete_facts(xs@[i], ys@[i], items, s2));
                    }
                }
            }
            HirType::Func(ys, Box::new(q))
        },
        HirType::RawPtr(x) => {
            let y = concretize_ref(x, index, table, interner);
            HirType::RawPtr(Box::new(y))
        },
        HirType::Option(x) => {
            let y = concretize_ref(x, index, table, interner);
            let ghost s1 = interner@;
            let opt = interner.intern("Option");
            let ghost s2 = interner@;
            proof {
                assert(extends(s1, s2));
                table.lemma_agrees_extends(s1, s2);
                lemma_facts_extend(**x, y, items, s1, s2);
                lemma_syms_below_short(y, s2.len());
                assert(is_first_index(s2, "Option"@, opt.index() as int));
                assert(Symbol(opt.index() as int as u32) == opt);
            }
            if index.find_enum(opt).is_some() {
                let yc = copy_type(&y);
                let args = vec![yc];
                proof {
                    crate::types::lemma_ty_eq_symm(yc, y);
                    crate::monomorphize::mangling::lemma_ty_eq_short_syms_ok(y, yc, s2.len());
                    crate::monomorphize::mangling::lemma_type_short_ty_eq(y, yc, s2);
                    assert(option_known(items, s2));
                }
                let m = table.mangle(opt, &args, interner);
                proof {
                    let s3 = interner@;
                    lemma_facts_extend(**x, y, items, s2, s3);
                    lemma_first_index_extends(s2, s3, "Option"@, opt.index() as int);
                    lemma_builtin_enum_extends(items, s2, s3, "Option"@);
                    crate::monomorphize::mangling::lemma_type_short_ty_eq(y, yc, s3);
                    assert(args@[0] == yc);
                    assert(types_joined(args, 1, s3) == type_short(yc, s3));
                    assert(s3[opt.index() as int] == "Option"@);
                    assert(option_known(items, s3));
                    assert(s3[m.index() as int] == "Option"@ + "__"@ + cshort(**x, items, s3));
                    assert(s3[m.index() as int] == cshort(*ty, items, s3));
                    lemma_syms_below_mono(*ty, s0.len(), s3.len());
                }
                HirType::Named(m)
            } else {
                proof {
                    assert(!option_known(items, s2)) by {
                        if option_known(items, s2) {
                            let i = choose|i: int| #[trigger] is_first_index(s2, "Option"@, i)
                                && enum_at(items, items.len()).contains_key(Symbol(i as u32));
                            assert(i == opt.index());
                        }
                    }
                    lemma_syms_below_mono(*ty, s0.len(), s2.len());
                }
                HirType::Option(Box::new(y))
            }
        },
        HirType::Result(x, e) => {
            let y = concretize_ref(x, index, table, interner);
            let ghost s1 = interner@;
            proof {
                lemma_syms_below_mono(**e, s0.len(), s1.len());
            }
            let f = concretize_ref(e, index, table, interner);
            let ghost s2 = interner@;
            let res = interner.intern("Result");
            let ghost s3 = interner@;
            proof {
                assert(extends(s2, s3));
                table.lemma_agrees_extends(s2, s3);
                lemma_facts_extend(**x, y, items, s1, s2);
                lemma_facts_extend(**x, y, items, s2, s3);
                lemma_facts_extend(**e, f, items, s2, s3);
                lemma_syms_below_short(y, s3.len());
                lemma_syms_below_short(f, s3.len());
                assert(is_first_index(s3, "Result"@, res.index() as int));
                assert(Symbol(res.index() as int as u32) == res);
            }
            if index.find_enum(res).is_some() {
                let yc = copy_type(&y);
                let fc = copy_type(&f);
                let args = vec![yc, fc];
                proof {
                    crate::types::lemma_ty_eq_symm(yc, y);
                    crate::types::lemma_ty_eq_symm(fc, f);
                    crate::monomorphize::mangling::lemma_ty_eq_short_syms_ok(y, yc, s3.len());
                    crate::monomorphize::mangling::lemma_ty_eq_short_syms_ok(f, fc, s3.len());
                    assert(result_known(items, s3));
                }
                let m = table.mangle(res, &args, interner);
                proof {
                    let s4 = interner@;
                    lemma_facts_extend(**x, y, items, s3, s4);
                    lemma_facts_extend(**e, f, items, s3, s4);
                    lemma_builtin_enum_extends(items, s3, s4, "Result"@);
                    crate::monomorphize::mangling::lemma_type_short_ty_eq(y, yc, s4);
                    crate::monomorphize::mangling::lemma_type_short_ty_eq(f, fc, s4);
                    assert(args@[0] == yc && args@[1] == fc);
                    assert(types_joined(args, 1, s4) == type_short(yc, s4));
                    assert(types_joined(args, 2, s4) == type_short(yc, s4) + "_"@ + type_short(fc, s4));
                    assert(s4[res.index() as int] == "Result"@);
                    assert(result_known(items, s4));
                    assert(s4[m.index() as int] == cshort(*ty, items, s4));
                    lemma_syms_below_mono(*ty, s0.len(), s4.len());
                }
                HirType::Named(m)
            } else {
                proof {
                    assert(!result_known(items, s3)) by {
                        if result_known(items, s3) {
                            let i = choose|i: int| #[trigger] is_first_index(s3, "Result"@, i)
                                && enum_at(items, items.len()).contains_key(Symbol(i as u32));
                            assert(i == res.index());
                        }
                    }
                    lemma_syms_below_mono(*ty, s0.len(), s3.len());
                }
                HirType::Result(Box::new(y), Box::new(f))
            }
        },
        HirType::Int => HirType::Int,
        HirType::Bool => HirType::Bool,
        HirType::Float => HirType::Float,
        HirType::Str => HirType::Str,
        HirType::Unit => HirType::Unit,
        HirType::Never => HirType::Never,
        HirType::Error => HirType::Error,
        HirType::Named(sym) => HirType::Named(*sym),
        HirType::Opaque(sym) => HirType::Opaque(*sym),
        HirType::Param(sym) => HirType::Param(*sym),
        HirType::Infer(v) => HirType::Infer(*v),
    }
}

/// No struct or enum of the program, and no `Option` or `Result` that the program
/// declares as an enum, is left generic in `t`: what concretizing produces.
pub open spec fn fully_concrete(t: HirType, items: Seq<HirItem>, strs: Seq<Seq<char>>) -> bool
    decreases t,
{
    match t {
        HirType::Generic(s, xs) => !known(items, s)
            && forall|i: int| 0 <= i < xs@.len() ==> fully_concrete(#[trigger] xs@[i], items, strs),
        HirType::Option(x) => !option_known(items, strs) && fully_concrete(*x, items, strs),
        HirType::Result(x, e) => !result_known(items, strs) && fully_concrete(*x, items, strs) && fully_concrete(*e, items, strs),
        HirType::Tuple(xs) => forall|i: int| 0 <= i < xs@.len() ==> fully_concrete(#[trigger] xs@[i], items, strs),
        HirType::RawPtr(x) => fully_concrete(*x, items, strs),
        HirType::Func(xs, r) => (forall|i: int| 0 <= i < xs@.len() ==> fully_concrete(#[trigger] xs@[i], items, strs))
            && fully_concrete(*r, items, strs),
        _ => true,
    }
}

/// The concrete form of a type is fully concrete, and concretizing it again (at the
/// same table) gives it back, structurally unchanged.
pub proof fn lemma_concretized_idempotent(t: HirType, r: HirType, r2: HirType, items: Seq<HirItem>, strs: Seq<Seq<char>>)
    requires
        concretized(t, r, items, strs),
        concretized(r, r2, items, strs),
    ensures
        fully_concrete(r, items, strs),
        ty_eq(r2, r),
    decreases t,
{
    if r is Named {
        assert(r2 == r);
    }
    match t {
        HirType::Generic(s, xs) => {
            if !known(items, s) {
                let ys = r->Generic_1;
                let zs = r2->Generic_1;
                assert forall|i: int| 0 <= i < xs@.len() implies fully_concrete(#[trigger] ys@[i], items, strs) && ty_eq(zs@[i], ys@[i]) by {
                    assert(decreases_to!(t => t->Generic_1));
                    assert(decreases_to!(t->Generic_1 => xs@[i]));
                    lemma_concretized_idempotent(xs@[i], ys@[i], zs@[i], items, strs);
                }
                assert(r2 matches HirType::Generic(s2, _) && s2 == s);
                assert(tys_eq(zs, ys));
            }
        },
        HirType::Option(x) => {
            if !option_known(items, strs) {
                lemma_concretized_idempotent(*x, *(r->Option_0), *(r2->Option_0), items, strs);
            }
        },
        HirType::Result(x, e) => {
            if !result_known(items, strs) {
                lemma_concretized_idempotent(*x, *(r->Result_0), *(r2->Result_0), items, strs);
                lemma_concretized_idempotent(*e, *(r->Result_1), *(r2->Result_1), items, strs);
            }
        },
        HirType::Tuple(xs) => {
            let ys = r->Tuple_0;
            let zs = r2->Tuple_0;
            assert forall|i: int| 0 <= i < xs@.len() implies fully_concrete(#[trigger] ys@[i], items, strs) && ty_eq(zs@[i], ys@[i]) by {
                assert(decreases_to!(t => t->Tuple_0));
                assert(decreases_to!(t->Tuple_0 => xs@[i]));
                lemma_concretized_idempotent(xs@[i], ys@[i], zs@[i], items, strs);
            }
            assert(tys_eq(zs, ys));
        },
        HirType::RawPtr(x) => {
            lemma_concretized_idempotent(*x, *(r->RawPtr_0), *(r2->RawPtr_0), items, strs);
        },
        HirType::Func(xs, q) => {
            let ys = r->Func_0;
            let zs = r2->Func_0;
            assert forall|i: int| 0 <= i < xs@.len() implies fully_concrete(#[trigger] ys@[i], items, strs) && ty_eq(zs@[i], ys@[i]) by {
                assert(decreases_to!(t => t->Func_0));
                assert(decreases_to!(t->Func_0 => xs@[i]));
                lemma_concretized_idempotent(xs@[i], ys@[i], zs@[i], items, strs);
            }
            lemma_concretized_idempotent(*q, *(r->Func_1), *(r2->Func_1), items, strs);
            assert(tys_eq(zs, ys));
        },
        _ => {},
    }
}

/// Concretizing twice: when `r` is the concrete form of `t` at one table, and `r2`
/// the concrete form of `r` at a table grown from it (as two calls of
/// `concretize_type` give), `r2` is `r` again, structurally, and `r` is fully
/// concrete at the grown table.
pub proof fn lemma_concretize_twice(t: HirType, r: HirType, r2: HirType, items: Seq<HirItem>, first: Seq<Seq<char>>,
    second: Seq<Seq<char>>)
    requires
        concrete_facts(t, r, items, first),
        extends(first, second),
        concretized(r, r2, items, second),
    ensures
        ty_eq(r2, r),
        fully_concrete(r, items, second),
{
    lemma_concretized_extends(t, r, items, first, second);
    lemma_concretized_idempotent(t, r, r2, items, second);
}

/// Converts a type to its concrete form: a generic struct or enum of the program
/// becomes the `Named` type of its mangled name (`Vec<i64>` becomes `Vec__i64`), and so
/// do `Option` and `Result` when the program declares them as enums; the components of
/// every other type are made concrete in turn, and leaf types stay as they are. A
/// generic whose base is neither a struct nor an enum of the program stays generic.
pub fn concretize_type(ty: HirType, index: &MonoIndex, mangle_table: &mut MangleTable, interner: &mut Interner) -> (r: HirType)
    requires
        old(mangle_table).agrees_with(old(interner)@),
        syms_below(ty, old(interner)@.len()),
        old(interner)@.len() + intern_budget(ty) < u32::MAX,
    ensures
        final(mangle_table).agrees_with(final(interner)@),
        extends(old(interner)@, final(interner)@),
        final(interner)@.len() <= old(interner)@.len() + intern_budget(ty),
        concretized(ty, r, index.items(), final(interner)@),
        type_short(r, final(interner)@) == cshort(ty, index.items(), final(interner)@),
        syms_below(r, final(interner)@.len()),
{
    concretize_ref(&ty, index, mangle_table, interner)
}

/// The name is a single uppercase ASCII letter, as a type parameter's is.
pub open spec fn is_param_name(s: Seq<char>) -> bool {
    s.len() == 1 && 'A' <= s[0] && s[0] <= 'Z'
}

/// Every `Named` symbol in `t` is below `n`.
pub open spec fn names_below(t: HirType, n: nat) -> bool
    decreases t,
{
    match t {
        HirType::Named(s) => s.index() < n,
        HirType::Generic(_, xs) => forall|i: int| 0 <= i < xs@.len() ==> names_below(#[trigger] xs@[i], n),
        HirType::Tuple(xs) => forall|i: int| 0 <= i < xs@.len() ==> names_below(#[trigger] xs@[i], n),
        HirType::RawPtr(x) => names_below(*x, n),
        HirType::Option(x) => names_below(*x, n),
        HirType::Result(x, e) => names_below(*x, n) && names_below(*e, n),
        HirType::Func(xs, r) => (forall|i: int| 0 <= i < xs@.len() ==> names_below(#[trigger] xs@[i], n)) && names_below(*r, n),
        _ => true,
    }
}

/// Some `Named` type in `t` names a single uppercase letter: a type parameter that
/// was left unsubstituted.
pub open spec fn unresolved_param(t: HirType, strs: Seq<Seq<char>>) -> bool
    decreases t,
{
    match t {
        HirType::Named(s) => is_param_name(strs[s.index() as int]),
        HirType::Generic(_, xs) => exists|i: int| 0 <= i < xs@.len() && unresolved_param(#[trigger] xs@[i], strs),
        HirType::Tuple(xs) => exists|i: int| 0 <= i < xs@.len() && unresolved_param(#[trigger] xs@[i], strs),
        HirType::RawPtr(x) => unresolved_param(*x, strs),
        HirType::Option(x) => unresolved_param(*x, strs),
        HirType::Result(x, e) => unresolved_param(*x, strs) || unresolved_param(*e, strs),
        HirType::Func(xs, r) => (exists|i: int| 0 <= i < xs@.len() && unresolved_param(#[trigger] xs@[i], strs))
            || unresolved_param(*r, strs),
        _ => false,
    }
}

/// The interned string names a single uppercase ASCII letter.
fn names_param(interner: &Interner, sym: Symbol) -> (r: bool)
    requires
        sym.index() < interner@.len(),
    ensures
        r == is_param_name(interner@[sym.index() as int]),
{
    let s = interner.resolve(sym);
    if s.unicode_len() != 1 {
        return false;
    }
    let c = s.get_char(0);
    'A' <= c && c <= 'Z'
}

/// Some element of `xs` holds an unresolved type parameter.
fn any_unresolved(xs: &Vec<HirType>, interner: &Interner) -> (r: bool)
    requires
        forall|i: int| 0 <= i < xs@.len() ==> names_below(#[trigger] xs@[i], interner@.len()),
    ensures
        r == exists|i: int| 0 <= i < xs@.len() && unresolved_param(#[trigger] xs@[i], interner@),
    decreases xs, xs@.len(),
{
    let mut i: usize = 0;
    while i < xs.len()
        invariant
            0 <= i <= xs@.len(),
            forall|k: int| 0 <= k < xs@.len() ==> names_below(#[trigger] xs@[k], interner@.len()),
            forall|k: int| 0 <= k < i ==> !unresolved_param(#[trigger] xs@[k], interner@),
        decreases xs@.len() - i,
    {
        proof { assert(decreases_to!(*xs => xs@[i as int])); }
        if has_unresolved_type_param(&xs[i], interner) {
            return true;
        }
        i = i + 1;
    }
    false
}

/// Whether `ty` holds a `Named` type whose name is a single uppercase letter, a type
/// parameter left unsubstituted. Such a type cannot be specialized yet.
pub fn has_unresolved_type_param(ty: &HirType, interner: &Interner) -> (r: bool)
    requires
        names_below(*ty, interner@.len()),
    ensures
        r == unresolved_param(*ty, interner@),
    decreases ty, 0nat,
{
    match ty {
        HirType::Named(sym) => names_param(interner, *sym),
        HirType::Generic(_, xs) => {
            proof { assert(decreases_to!(*ty => (*ty)->Generic_1)); }
            any_unresolved(xs, interner)
        },
        HirType::Tuple(xs) => {
            proof { assert(decreases_to!(*ty => (*ty)->Tuple_0)); }
            any_unresolved(xs, interner)
        },
        HirType::RawPtr(x) => has_unresolved_type_param(x, interner),
        HirType::Option(x) => has_unresolved_type_param(x, interner),
        HirType::Result(x, e) => has_unresolved_type_param(x, interner) || has_unresolved_type_param(e, interner),
        HirType::Func(xs, r) => {
            proof { assert(decreases_to!(*ty => (*ty)->Func_0)); }
            any_unresolved(xs, interner) || has_unresolved_type_param(r, interner)
        },
        _ => false,
    }
}

/// The number of parameter/argument pairs that `build_subst` binds.
pub open spec fn zip_len(params: Seq<Symbol>, args: Seq<HirType>) -> nat {
    if params.len() < args.len() { params.len() } else { args.len() }
}

/// The last position below `n` at which `k` is listed, or -1.
pub open spec fn last_pos(params: Seq<Symbol>, k: Symbol, n: nat) -> int
    decreases n,
{
    if n == 0 {
        -1
    } else if params[n - 1] == k {
        n - 1
    } else {
        last_pos(params, k, (n - 1) as nat)
    }
}

/// Each parameter among the first `n` bound to the argument at its last position.
pub open spec fn param_map_upto(params: Seq<Symbol>, args: Seq<HirType>, n: nat) -> Map<Symbol, HirType> {
    Map::new(|k: Symbol| last_pos(params, k, n) >= 0, |k: Symbol| args[last_pos(params, k, n)])
}

/// The bindings that `build_subst` makes: each formal parameter that has an argument
/// at its position, bound to the argument at its last such position.
pub open spec fn param_map(params: Seq<Symbol>, args: Seq<HirType>) -> Map<Symbol, HirType> {
    param_map_upto(params, args, zip_len(params, args))
}

/// A last position is a position of the key, below the bound.
pub proof fn lemma_last_pos(params: Seq<Symbol>, k: Symbol, n: nat)
    requires
        n <= params.len(),
    ensures
        last_pos(params, k, n) < n,
        last_pos(params, k, n) >= 0 ==> params[last_pos(params, k, n)] == k,
        last_pos(params, k, n) < 0 ==> forall|i: int| 0 <= i < n ==> params[i] != k,
    decreases n,
{
    if n > 0 {
        lemma_last_pos(params, k, (n - 1) as nat);
    }
}

/// Binds each formal type parameter to the argument at its position; parameters
/// beyond the arguments stay unbound and extra arguments are ignored. A parameter
/// listed twice is bound to its last argument.
pub fn build_subst(params: &[Symbol], args: &[HirType]) -> (r: TypeSubst)
    ensures
        r@.dom() == param_map(params@, args@).dom(),
        forall|k: Symbol| #[trigger] r@.contains_key(k) ==> ty_eq(r@[k], param_map(params@, args@)[k]),
{
    let n: usize = if params.len() < args.len() { params.len() } else { args.len() };
    let mut r = TypeSubst::new();
    let mut i: usize = 0;
    assert(r@.dom() =~= param_map_upto(params@, args@, 0).dom());
    while i < n
        invariant
            n == zip_len(params@, args@),
            n <= params@.len(),
            n <= args@.len(),
            0 <= i <= n,
            r@.dom() == param_map_upto(params@, args@, i as nat).dom(),
            forall|k: Symbol| #[trigger] r@.contains_key(k) ==> ty_eq(r@[k], param_map_upto(params@, args@, i as nat)[k]),
        decreases n - i,
    {
        let t = copy_type(&args[i]);
        let ghost before = r@;
        r.insert(params[i], t);
        proof {
            let p = params@[i as int];
            assert forall|k: Symbol| last_pos(params@, k, (i + 1) as nat)
                == if k == p { i as int } else { last_pos(params@, k, i as nat) } by {}
            assert(r@.dom() =~= param_map_upto(params@, args@, (i + 1) as nat).dom());
            assert forall|k: Symbol| #[trigger] r@.contains_key(k) implies ty_eq(r@[k], param_map_upto(params@, args@, (i + 1) as nat)[k]) by {
                if k != p {
                    assert(r@[k] == before[k]);
                }
            }
        }
        i = i + 1;
    }
    r
}

/// Two substitutions that bind the same parameters to structurally equal types.
pub open spec fn subst_equiv(m1: Map<Symbol, HirType>, m2: Map<Symbol, HirType>) -> bool {
    &&& m1.dom() == m2.dom()
    &&& forall|k: Symbol| #[trigger] m1.contains_key(k) ==> ty_eq(m1[k], m2[k])
}

/// Applying equivalent substitutions gives the same results, up to structural equality
/// of the bound types.
pub proof fn lemma_substituted_equiv(t: HirType, m1: Map<Symbol, HirType>, m2: Map<Symbol, HirType>, out: HirType)
    requires
        subst_equiv(m1, m2),
        substituted(t, m1, out),
    ensures
        substituted(t, m2, out),
        subst_budget(t, m1) == subst_budget(t, m2),
    decreases t, 0nat,
{
    match t {
        HirType::Named(s) => {
            if m1.contains_key(s) {
                crate::types::lemma_ty_eq_trans(out, m1[s], m2[s]);
                lemma_ty_eq_budget(m1[s], m2[s], 0);
            }
        },
        HirType::Param(s) => {
            if m1.contains_key(s) {
                crate::types::lemma_ty_eq_trans(out, m1[s], m2[s]);
                lemma_ty_eq_budget(m1[s], m2[s], 0);
            }
        },
        HirType::Generic(_, xs) => {
            assert(decreases_to!(t => t->Generic_1));
            assert(substituted_all(xs, m1, out->Generic_1));
            lemma_substituted_all_equiv(xs, m1, m2, out->Generic_1, xs@.len());
        },
        HirType::Tuple(xs) => {
            assert(decreases_to!(t => t->Tuple_0));
            assert(substituted_all(xs, m1, out->Tuple_0));
            lemma_substituted_all_equiv(xs, m1, m2, out->Tuple_0, xs@.len());
        },
        HirType::Func(xs, r) => {
            assert(decreases_to!(t => t->Func_0));
            assert(substituted_all(xs, m1, out->Func_0));
            lemma_substituted_all_equiv(xs, m1, m2, out->Func_0, xs@.len());
            lemma_substituted_equiv(*r, m1, m2, *out->Func_1);
        },
        HirType::RawPtr(x) => lemma_substituted_equiv(*x, m1, m2, *out->RawPtr_0),
        HirType::Option(x) => lemma_substituted_equiv(*x, m1, m2, *out->Option_0),
        HirType::Result(x, e) => {
            lemma_substituted_equiv(*x, m1, m2, *out->Result_0);
            lemma_substituted_equiv(*e, m1, m2, *out->Result_1);
        },
        _ => {},
    }
}

/// Equivalent substitutions give the same budget.
pub proof fn lemma_subst_budget_equiv(t: HirType, m1: Map<Symbol, HirType>, m2: Map<Symbol, HirType>)
    requires
        subst_equiv(m1, m2),
    ensures
        subst_budget(t, m1) == subst_budget(t, m2),
    decreases t, 0nat,
{
    match t {
        HirType::Named(s) => {
            if m1.contains_key(s) {
                lemma_ty_eq_budget(m1[s], m2[s], 0);
            }
        },
        HirType::Param(s) => {
            if m1.contains_key(s) {
                lemma_ty_eq_budget(m1[s], m2[s], 0);
            }
        },
        HirType::Generic(_, xs) => {
            assert(decreases_to!(t => t->Generic_1));
            lemma_subst_budgets_equiv(xs, m1, m2, xs@.len());
        },
        HirType::Tuple(xs) => {
            assert(decreases_to!(t => t->Tuple_0));
            lemma_subst_budgets_equiv(xs, m1, m2, xs@.len());
        },
        HirType::Func(xs, r) => {
            assert(decreases_to!(t => t->Func_0));
            lemma_subst_budgets_equiv(xs, m1, m2, xs@.len());
            lemma_subst_budget_equiv(*r, m1, m2);
        },
        HirType::RawPtr(x) => lemma_subst_budget_equiv(*x, m1, m2),
        HirType::Option(x) => lemma_subst_budget_equiv(*x, m1, m2),
        HirType::Result(x, e) => {
            lemma_subst_budget_equiv(*x, m1, m2);
            lemma_subst_budget_equiv(*e, m1, m2);
        },
        _ => {},
    }
}

/// List form of `lemma_subst_budget_equiv`.
pub proof fn lemma_subst_budgets_equiv(xs: Vec<HirType>, m1: Map<Symbol, HirType>, m2: Map<Symbol, HirType>, n: nat)
    requires
        subst_equiv(m1, m2),
    ensures
        subst_budgets(xs, m1, n) == subst_budgets(xs, m2, n),
    decreases xs, n,
{
    if n == 0 || n > xs@.len() {
    } else {
        assert(decreases_to!(xs => xs@[n - 1]));
        lemma_subst_budget_equiv(xs@[n - 1], m1, m2);
        lemma_subst_budgets_equiv(xs, m1, m2, (n - 1) as nat);
    }
}

/// A concretized substitution stays one under an equivalent substitution.
pub proof fn lemma_subst_concretized_equiv(t: HirType, m1: Map<Symbol, HirType>, m2: Map<Symbol, HirType>, r: HirType, items: Seq<HirItem>, strs: Seq<Seq<char>>)
    requires
        subst_equiv(m1, m2),
        subst_concretized(t, m1, r, items, strs),
    ensures
        subst_concretized(t, m2, r, items, strs),
{
    let mid = choose|mid: HirType| substituted(t, m1, mid) && #[trigger] concrete_facts(mid, r, items, strs);
    lemma_substituted_equiv(t, m1, m2, mid);
}

/// List form of `lemma_substituted_equiv`.
pub proof fn lemma_substituted_all_equiv(xs: Vec<HirType>, m1: Map<Symbol, HirType>, m2: Map<Symbol, HirType>, ys: Vec<HirType>, n: nat)
    requires
        subst_equiv(m1, m2),
        substituted_all(xs, m1, ys),
    ensures
        substituted_all(xs, m2, ys),
        subst_budgets(xs, m1, n) == subst_budgets(xs, m2, n),
    decreases xs, n,
{
    assert forall|i: int| 0 <= i < xs@.len() implies substituted(#[trigger] xs@[i], m2, ys@[i]) by {
        assert(decreases_to!(xs => xs@[i]));
        lemma_substituted_equiv(xs@[i], m1, m2, ys@[i]);
    }
    if n == 0 || n > xs@.len() {
    } else {
        assert(decreases_to!(xs => xs@[n - 1]));
        lemma_substituted_equiv(xs@[n - 1], m1, m2, ys@[n - 1]);
        lemma_substituted_all_equiv(xs, m1, m2, ys, (n - 1) as nat);
    }
}

/// The budget of `t` after applying `sub` (see `intern_budget`).
pub open spec fn subst_budget(t: HirType, sub: Map<Symbol, HirType>) -> nat
    decreases t, 0nat,
{
    match t {
        HirType::Named(s) => if sub.contains_key(s) { intern_budget(sub[s]) } else { 0 },
        HirType::Param(s) => if sub.contains_key(s) { intern_budget(sub[s]) } else { 0 },
        HirType::Generic(_, xs) => 1 + subst_budgets(xs, sub, xs@.len()),
        HirType::Tuple(xs) => subst_budgets(xs, sub, xs@.len()),
        HirType::RawPtr(x) => subst_budget(*x, sub),
        HirType::Option(x) => 2 + subst_budget(*x, sub),
        HirType::Result(x, e) => 2 + subst_budget(*x, sub) + subst_budget(*e, sub),
        HirType::Func(xs, r) => subst_budgets(xs, sub, xs@.len()) + subst_budget(*r, sub),
        _ => 0,
    }
}

/// The sum of `subst_budget` over the first `n` types of `xs`.
pub open spec fn subst_budgets(xs: Vec<HirType>, sub: Map<Symbol, HirType>, n: nat) -> nat
    decreases xs, n,
{
    if n == 0 || n > xs@.len() {
        0
    } else {
        subst_budgets(xs, sub, (n - 1) as nat) + subst_budget(xs@[n - 1], sub)
    }
}

/// The sum of `subst_budget` over the first `n` types of `ts`.
pub open spec fn seq_subst_budget(ts: Seq<HirType>, sub: Map<Symbol, HirType>, n: nat) -> nat
    decreases n,
{
    if n == 0 || n > ts.len() {
        0
    } else {
        seq_subst_budget(ts, sub, (n - 1) as nat) + subst_budget(ts[n - 1], sub)
    }
}

/// Structurally equal types have the same budget and the same symbol bound.
pub proof fn lemma_ty_eq_budget(a: HirType, b: HirType, n: nat)
    requires
        ty_eq(a, b),
    ensures
        intern_budget(a) == intern_budget(b),
        syms_below(a, n) ==> syms_below(b, n),
    decreases a, 0nat,
{
    match a {
        HirType::Generic(_, xs) => {
            let ys = b->Generic_1;
            assert(decreases_to!(a => a->Generic_1));
            lemma_tys_eq_budgets(xs, ys, xs@.len(), n);
            assert(ys@.len() == xs@.len());
            assert(intern_budget(b) == 1 + budgets(ys, ys@.len()));
            assert(intern_budget(a) == intern_budget(b));
        },
        HirType::Tuple(xs) => {
            let ys = b->Tuple_0;
            assert(decreases_to!(a => a->Tuple_0));
            lemma_tys_eq_budgets(xs, ys, xs@.len(), n);
            assert(intern_budget(b) == budgets(ys, ys@.len()));
            assert(intern_budget(a) == intern_budget(b));
        },
        HirType::Func(xs, r) => {
            let ys = b->Func_0;
            assert(decreases_to!(a => a->Func_0));
            lemma_tys_eq_budgets(xs, ys, xs@.len(), n);
            lemma_ty_eq_budget(*r, *b->Func_1, n);
            assert(tys_eq(xs, ys));
            assert(ys@.len() == xs@.len());
            assert(intern_budget(a) == budgets(xs, xs@.len()) + intern_budget(*r));
            assert(intern_budget(b) == budgets(ys, ys@.len()) + intern_budget(*b->Func_1));
            assert(intern_budget(a) == intern_budget(b));
        },
        HirType::RawPtr(x) => lemma_ty_eq_budget(*x, *b->RawPtr_0, n),
        HirType::Option(x) => lemma_ty_eq_budget(*x, *b->Option_0, n),
        HirType::Result(x, e) => {
            lemma_ty_eq_budget(*x, *b->Result_0, n);
            lemma_ty_eq_budget(*e, *b->Result_1, n);
        },
        _ => {
            assert(intern_budget(a) == intern_budget(b));
        },
    }
}

/// Element-wise equal lists have the same budgets and symbol bounds.
pub proof fn lemma_tys_eq_budgets(xs: Vec<HirType>, ys: Vec<HirType>, k: nat, n: nat)
    requires
        tys_eq(xs, ys),
    ensures
        budgets(xs, k) == budgets(ys, k),
        (forall|i: int| 0 <= i < xs@.len() ==> syms_below(#[trigger] xs@[i], n))
            ==> (forall|i: int| 0 <= i < ys@.len() ==> syms_below(#[trigger] ys@[i], n)),
    decreases xs, k,
{
    assert forall|i: int| 0 <= i < xs@.len() && syms_below(xs@[i], n) implies syms_below(#[trigger] ys@[i], n) by {
        assert(decreases_to!(xs => xs@[i]));
        lemma_ty_eq_budget(xs@[i], ys@[i], n);
    }
    if k == 0 || k > xs@.len() {
    } else {
        assert(decreases_to!(xs => xs@[k - 1]));
        lemma_ty_eq_budget(xs@[k - 1], ys@[k - 1], n);
        lemma_tys_eq_budgets(xs, ys, (k - 1) as nat, n);
    }
}

/// Substituting gives a type whose budget is `subst_budget`, and whose symbols stay
/// below a bound that the type and the bindings respect.
pub proof fn lemma_subst_budget(t: HirType, sub: Map<Symbol, HirType>, out: HirType, n: nat)
    requires
        substituted(t, sub, out),
    ensures
        intern_budget(out) == subst_budget(t, sub),
        syms_below(t, n) && (forall|k: Symbol| #[trigger] sub.contains_key(k) ==> syms_below(sub[k], n))
            ==> syms_below(out, n),
    decreases t, 0nat,
{
    match t {
        HirType::Named(s) => {
            if sub.contains_key(s) {
                crate::types::lemma_ty_eq_symm(out, sub[s]);
                lemma_ty_eq_budget(sub[s], out, n);
            }
        },
        HirType::Param(s) => {
            if sub.contains_key(s) {
                crate::types::lemma_ty_eq_symm(out, sub[s]);
                lemma_ty_eq_budget(sub[s], out, n);
            }
        },
        HirType::Generic(_, xs) => {
            assert(decreases_to!(t => t->Generic_1));
            lemma_subst_budgets(xs, sub, out->Generic_1, xs@.len(), n);
            assert(substituted_all(xs, sub, out->Generic_1));
            assert(out->Generic_1@.len() == xs@.len());
            assert(intern_budget(out) == 1 + budgets(out->Generic_1, out->Generic_1@.len()));
        },
        HirType::Tuple(xs) => {
            assert(decreases_to!(t => t->Tuple_0));
            lemma_subst_budgets(xs, sub, out->Tuple_0, xs@.len(), n);
            assert(substituted_all(xs, sub, out->Tuple_0));
            assert(out->Tuple_0@.len() == xs@.len());
            assert(intern_budget(out) == budgets(out->Tuple_0, out->Tuple_0@.len()));
        },
        HirType::Func(xs, r) => {
            assert(decreases_to!(t => t->Func_0));
            lemma_subst_budgets(xs, sub, out->Func_0, xs@.len(), n);
            lemma_subst_budget(*r, sub, *out->Func_1, n);
            assert(substituted_all(xs, sub, out->Func_0));
            assert(out->Func_0@.len() == xs@.len());
            assert(subst_budget(t, sub) == subst_budgets(xs, sub, xs@.len()) + subst_budget(*r, sub));
            assert(intern_budget(out) == budgets(out->Func_0, out->Func_0@.len()) + intern_budget(*out->Func_1));
        },
        HirType::RawPtr(x) => lemma_subst_budget(*x, sub, *out->RawPtr_0, n),
        HirType::Option(x) => lemma_subst_budget(*x, sub, *out->Option_0, n),
        HirType::Result(x, e) => {
            lemma_subst_budget(*x, sub, *out->Result_0, n);
            lemma_subst_budget(*e, sub, *out->Result_1, n);
        },
        _ => {},
    }
}

/// List form of `lemma_subst_budget`.
pub proof fn lemma_subst_budgets(xs: Vec<HirType>, sub: Map<Symbol, HirType>, ys: Vec<HirType>, k: nat, n: nat)
    requires
        substituted_all(xs, sub, ys),
    ensures
        budgets(ys, k) == subst_budgets(xs, sub, k),
        (forall|i: int| 0 <= i < xs@.len() ==> syms_below(#[trigger] xs@[i], n))
            && (forall|q: Symbol| #[trigger] sub.contains_key(q) ==> syms_below(sub[q], n))
            ==> (forall|i: int| 0 <= i < ys@.len() ==> syms_below(#[trigger] ys@[i], n)),
    decreases xs, k,
{
    assert forall|i: int| 0 <= i < xs@.len() && syms_below(xs@[i], n)
        && (forall|q: Symbol| #[trigger] sub.contains_key(q) ==> syms_below(sub[q], n))
        implies syms_below(#[trigger] ys@[i], n) by {
        assert(decreases_to!(xs => xs@[i]));
        lemma_subst_budget(xs@[i], sub, ys@[i], n);
    }
    if k == 0 || k > xs@.len() {
    } else {
        assert(decreases_to!(xs => xs@[k - 1]));
        lemma_subst_budget(xs@[k - 1], sub, ys@[k - 1], n);
        lemma_subst_budgets(xs, sub, ys, (k - 1) as nat, n);
    }
}

/// `r` is the concrete form of some result of applying `sub` to `t`.
pub open spec fn subst_concretized(t: HirType, sub: Map<Symbol, HirType>, r: HirType, items: Seq<HirItem>, strs: Seq<Seq<char>>) -> bool {
    exists|mid: HirType| substituted(t, sub, mid) && #[trigger] concrete_facts(mid, r, items, strs)
}

/// Applies `sub` to `ty`, then makes the result concrete (see `concretize_type`).
pub fn substitute_and_concretize(ty: &HirType, sub: &TypeSubst, index: &MonoIndex, mangle_table: &mut MangleTable, interner: &mut Interner) -> (r: HirType)
    requires
        old(mangle_table).agrees_with(old(interner)@),
        syms_below(*ty, old(interner)@.len()),
        forall|k: Symbol| #[trigger] sub@.contains_key(k) ==> syms_below(sub@[k], old(interner)@.len()),
        old(interner)@.len() + subst_budget(*ty, sub@) < u32::MAX,
    ensures
        final(mangle_table).agrees_with(final(interner)@),
        extends(old(interner)@, final(interner)@),
        final(interner)@.len() <= old(interner)@.len() + subst_budget(*ty, sub@),
        subst_concretized(*ty, sub@, r, index.items(), final(interner)@),
{
    let mid = substitute_type(ty, sub);
    proof {
        lemma_subst_budget(*ty, sub@, mid, interner@.len());
    }
    let r = concretize_ref(&mid, index, mangle_table, interner);
    assert(substituted(*ty, sub@, mid) && concrete_facts(mid, r, index.items(), interner@));
    r
}

/// Concretized substitutions stay so when the table grows.
pub proof fn lemma_subst_concretized_extends(t: HirType, sub: Map<Symbol, HirType>, r: HirType, items: Seq<HirItem>, small: Seq<Seq<char>>, big: Seq<Seq<char>>)
    requires
        extends(small, big),
        subst_concretized(t, sub, r, items, small),
    ensures
        subst_concretized(t, sub, r, items, big),
{
    let mid = choose|mid: HirType| substituted(t, sub, mid) && #[trigger] concrete_facts(mid, r, items, small);
    lemma_facts_extend(mid, r, items, small, big);
    assert(concrete_facts(mid, r, items, big));
}

/// `substitute_and_concretize` applied to each type of `types` in turn.
pub fn substitute_and_concretize_slice(types: &[HirType], sub: &TypeSubst, index: &MonoIndex, mangle_table: &mut MangleTable, interner: &mut Interner) -> (r: Vec<HirType>)
    requires
        old(mangle_table).agrees_with(old(interner)@),
        forall|i: int| 0 <= i < types@.len() ==> syms_below(#[trigger] types@[i], old(interner)@.len()),
        forall|k: Symbol| #[trigger] sub@.contains_key(k) ==> syms_below(sub@[k], old(interner)@.len()),
        old(interner)@.len() + seq_subst_budget(types@, sub@, types@.len()) < u32::MAX,
    ensures
        final(mangle_table).agrees_with(final(interner)@),
        extends(old(interner)@, final(interner)@),
        final(interner)@.len() <= old(interner)@.len() + seq_subst_budget(types@, sub@, types@.len()),
        r@.len() == types@.len(),
        forall|i: int| 0 <= i < types@.len() ==> #[trigger] subst_concretized(types@[i], sub@, r@[i], index.items(), final(interner)@),
{
    let ghost s0 = interner@;
    let ghost items = index.items();
    let mut out: Vec<HirType> = Vec::new();
    let mut i: usize = 0;
    while i < types.len()
        invariant
            0 <= i <= types@.len(),
            out@.len() == i,
            s0 == old(interner)@,
            items == index.items(),
            mangle_table.agrees_with(interner@),
            extends(s0, interner@),
            interner@.len() <= s0.len() + seq_subst_budget(types@, sub@, i as nat),
            forall|k: int| 0 <= k < types@.len() ==> syms_below(#[trigger] types@[k], s0.len()),
            forall|k: Symbol| #[trigger] sub@.contains_key(k) ==> syms_below(sub@[k], s0.len()),
            s0.len() + seq_subst_budget(types@, sub@, types@.len()) < u32::MAX,
            forall|k: int| 0 <= k < i ==> #[trigger] subst_concretized(types@[k], sub@, out@[k], items, interner@),
        decreases types@.len() - i,
    {
        proof {
            lemma_seq_subst_budget_mono(types@, sub@, (i + 1) as nat, types@.len());
            lemma_syms_below_mono(types@[i as int], s0.len(), interner@.len());
            assert forall|k: Symbol| #[trigger] sub@.contains_key(k) implies syms_below(sub@[k], interner@.len()) by {
                lemma_syms_below_mono(sub@[k], s0.len(), interner@.len());
            }
        }
        let ghost before = interner@;
        let y = substitute_and_concretize(&types[i], sub, index, mangle_table, interner);
        let ghost prev = out@;
        out.push(y);
        proof {
            assert forall|k: int| 0 <= k < i + 1 implies #[trigger] subst_concretized(types@[k], sub@, out@[k], items, interner@) by {
                if k < i {
                    assert(out@[k] == prev[k]);
                    assert(subst_concretized(types@[k], sub@, prev[k], items, before));
                    lemma_subst_concretized_extends(types@[k], sub@, out@[k], items, before, interner@);
                } else {
                    assert(out@[k] == y);
                }
            }
        }
        i = i + 1;
    }
    out
}

/// Sums over longer prefixes are larger.
pub proof fn lemma_seq_subst_budget_mono(ts: Seq<HirType>, sub: Map<Symbol, HirType>, n: nat, m: nat)
    requires
        n <= m <= ts.len(),
    ensures
        seq_subst_budget(ts, sub, n) <= seq_subst_budget(ts, sub, m),
    decreases m,
{
    if n < m {
        lemma_seq_subst_budget_mono(ts, sub, n, (m - 1) as nat);
    }
}

} // verus!

use vstd::prelude::*;
use crate::item::HirItem;
use crate::monomorphize::concretize::{
    budgets, builtins_interned, cjoined, concrete_facts, concretize_list, concretize_ref, cshort,
    intern_budget, lemma_budgets_mono, lemma_cjoined_extends, lemma_cshort_extends, lemma_facts_extend,
    lemma_joined_cjoined, lemma_syms_below_mono, lemma_syms_below_short, syms_below,
};
use crate::monomorphize::index::MonoIndex;
use crate::monomorphize::mangle_table::MangleTable;
use crate::monomorphize::mangling::{extends, mangled_name, types_joined};
use crate::symbol::{table_has, Interner, Symbol};
use crate::types::{bindings_eq, copy_bindings, copy_pattern, pat_eq, HirPattern, HirType, Span};

verus! {

broadcast use vstd::std_specs::vec::group_vec_axioms;

/// `n` names the string `s` in `strs`.
pub open spec fn names_str(strs: Seq<Seq<char>>, n: Symbol, s: Seq<char>) -> bool {
    n.index() < strs.len() && strs[n.index() as int] == s
}

/// The symbols of `t` are present in `strs`, and so are the builtin enum names that
/// its concrete form needs: its concrete short form no longer changes as `strs` grows.
pub open spec fn settled(t: HirType, strs: Seq<Seq<char>>) -> bool {
    syms_below(t, strs.len()) && builtins_interned(t, strs)
}

/// The payload type of an `Option` pattern matched against a value of type `t`: the
/// first type argument of a generic type, or the inner type of an `Option`.
pub open spec fn option_payload(t: HirType) -> Option<HirType> {
    match t {
        HirType::Generic(_, args) => if args@.len() > 0 { Some(args@[0]) } else { None },
        HirType::Option(inner) => Some(*inner),
        _ => None,
    }
}

/// The success and error types of a `Result` pattern matched against a value of type
/// `t`: the two type arguments of a generic type with exactly two, or the parts of a
/// `Result`.
pub open spec fn result_payloads(t: HirType) -> Option<(HirType, HirType)> {
    match t {
        HirType::Generic(_, args) => if args@.len() == 2 { Some((args@[0], args@[1])) } else { None },
        HirType::Result(ok, err) => Some((*ok, *err)),
        _ => None,
    }
}

/// `n` is the name that an enum or struct pattern named `orig` takes when it matches a
/// value of type `t`: the name of a `Named` type as it stands, the mangled name
/// `base__args` of a generic type with its arguments made concrete, else `orig`.
pub open spec fn renamed(orig: Symbol, t: HirType, n: Symbol, items: Seq<HirItem>, strs: Seq<Seq<char>>) -> bool {
    match t {
        HirType::Named(m) => n == m,
        HirType::Generic(base, args) => {
            &&& base.index() < strs.len()
            &&& forall|i: int| 0 <= i < args@.len() ==> #[trigger] settled(args@[i], strs)
            &&& names_str(strs, n, strs[base.index() as int] + "__"@ + cjoined(args, args@.len(), items, strs))
        },
        _ => n == orig,
    }
}

/// The enum pattern that a builtin `Option` or `Result` pattern becomes: the enum is
/// named `enum_str`, the variant `variant`, the span is empty, and the payload pattern,
/// if any, is bound to the field `0`.
pub open spec fn builtin_variant(out: HirPattern, enum_str: Seq<char>, variant: Seq<char>, payload: Option<HirPattern>,
    strs: Seq<Seq<char>>) -> bool
{
    &&& out matches HirPattern::EnumVariant { enum_name: n, variant_name: v, bindings: b, span: s }
    &&& names_str(strs, n, enum_str)
    &&& names_str(strs, v, variant)
    &&& s.start == 0 && s.end == 0
    &&& match payload {
        Some(q) => b@.len() == 1 && names_str(strs, b@[0].0, "0"@) && b@[0].1 == q,
        None => b@.len() == 0,
    }
}

/// `out` is `p` with its names made concrete for a scrutinee of type `t`, at the string
/// table `strs`: enum and struct patterns are renamed (see `renamed`) and keep their
/// bindings; `Some`/`None` and `Ok`/`Err` become variants of the mangled `Option` or
/// `Result` enum over the concrete payload types, with their inner pattern substituted
/// against the payload type, when `t` names payload types (else they stay, with the
/// inner pattern substituted against `t`); each element of a tuple pattern is
/// substituted against `t` itself; other patterns stay as they are.
pub open spec fn pattern_substituted(p: HirPattern, t: HirType, out: HirPattern, items: Seq<HirItem>,
    strs: Seq<Seq<char>>) -> bool
    decreases p,
{
    match p {
        HirPattern::EnumVariant { enum_name, variant_name, bindings, span } => {
            &&& out matches HirPattern::EnumVariant { enum_name: n, variant_name: v, bindings: b, span: s }
            &&& renamed(enum_name, t, n, items, strs)
            &&& v == variant_name && s == span && bindings_eq(b, bindings)
        },
        HirPattern::Struct { name, bindings, span } => {
            &&& out matches HirPattern::Struct { name: n, bindings: b, span: s }
            &&& renamed(name, t, n, items, strs)
            &&& s == span && bindings_eq(b, bindings)
        },
        HirPattern::OptionSome(inner) => match option_payload(t) {
            Some(ity) => {
                &&& settled(ity, strs)
                &&& exists|q: HirPattern| #[trigger] builtin_variant(out, "Option"@ + "__"@ + cshort(ity, items, strs), "Some"@, Some(q), strs)
                        && pattern_substituted(*inner, ity, q, items, strs)
            },
            None => out matches HirPattern::OptionSome(q) && pattern_substituted(*inner, t, *q, items, strs),
        },
        HirPattern::OptionNone => match option_payload(t) {
            Some(ity) => settled(ity, strs)
                && builtin_variant(out, "Option"@ + "__"@ + cshort(ity, items, strs), "None"@, None, strs),
            None => out == HirPattern::OptionNone,
        },
        HirPattern::ResultOk(inner) => match result_payloads(t) {
            Some((ok, err)) => {
                &&& settled(ok, strs) && settled(err, strs)
                &&& exists|q: HirPattern| #[trigger] builtin_variant(out, result_name(ok, err, items, strs), "Ok"@, Some(q), strs)
                        && pattern_substituted(*inner, ok, q, items, strs)
            },
            None => out matches HirPattern::ResultOk(q) && pattern_substituted(*inner, t, *q, items, strs),
        },
        HirPattern::ResultErr(inner) => match result_payloads(t) {
            Some((ok, err)) => {
                &&& settled(ok, strs) && settled(err, strs)
                &&& exists|q: HirPattern| #[trigger] builtin_variant(out, result_name(ok, err, items, strs), "Err"@, Some(q), strs)
                        && pattern_substituted(*inner, err, q, items, strs)
            },
            None => out matches HirPattern::ResultErr(q) && pattern_substituted(*inner, t, *q, items, strs),
        },
        HirPattern::Tuple { elements, span } => {
            &&& out matches HirPattern::Tuple { elements: es, span: s }
            &&& s == span && es@.len() == elements@.len()
            &&& forall|i: int| 0 <= i < elements@.len() ==> pattern_substituted(#[trigger] elements@[i], t, es@[i], items, strs)
        },
        _ => pat_eq(out, p),
    }
}

/// The mangled name of `Result` over the concrete forms of `ok` and `err`.
pub open spec fn result_name(ok: HirType, err: HirType, items: Seq<HirItem>, strs: Seq<Seq<char>>) -> Seq<char> {
    "Result"@ + "__"@ + cshort(ok, items, strs) + "_"@ + cshort(err, items, strs)
}

/// An upper bound on the strings that substituting `p` against `t` interns.
pub open spec fn pattern_budget(p: HirPattern, t: HirType) -> nat
    decreases p, 0nat,
{
    match p {
        HirPattern::EnumVariant { .. } | HirPattern::Struct { .. } => match t {
            HirType::Generic(_, args) => budgets(args, args@.len()) + 1,
            _ => 0,
        },
        HirPattern::OptionSome(inner) => match option_payload(t) {
            Some(ity) => 4 + intern_budget(ity) + pattern_budget(*inner, ity),
            None => 1 + pattern_budget(*inner, t),
        },
        HirPattern::OptionNone => match option_payload(t) {
            Some(ity) => 3 + intern_budget(ity),
            None => 1,
        },
        HirPattern::ResultOk(inner) => match result_payloads(t) {
            Some((ok, err)) => 4 + intern_budget(ok) + intern_budget(err) + pattern_budget(*inner, ok),
            None => 1 + pattern_budget(*inner, t),
        },
        HirPattern::ResultErr(inner) => match result_payloads(t) {
            Some((ok, err)) => 4 + intern_budget(ok) + intern_budget(err) + pattern_budget(*inner, err),
            None => 1 + pattern_budget(*inner, t),
        },
        HirPattern::Tuple { elements, .. } => patterns_budget(elements, t, elements@.len()),
        _ => 0,
    }
}

/// The sum of the budgets of the first `n` patterns of `xs` against `t`.
pub open spec fn patterns_budget(xs: Vec<HirPattern>, t: HirType, n: nat) -> nat
    decreases xs, n,
{
    if n == 0 || n > xs@.len() {
        0
    } else {
        patterns_budget(xs, t, (n - 1) as nat) + pattern_budget(xs@[n - 1], t)
    }
}

/// Settled types stay settled when the table grows.
pub proof fn lemma_settled_extends(t: HirType, small: Seq<Seq<char>>, big: Seq<Seq<char>>)
    requires
        extends(small, big),
        settled(t, small),
    ensures
        settled(t, big),
{
    lemma_syms_below_mono(t, small.len(), big.len());
    if table_has(small, "Option"@) {
        let i = choose|i: int| 0 <= i < small.len() && small[i] == "Option"@;
        assert(big[i] == "Option"@);
    }
    if table_has(small, "Result"@) {
        let i = choose|i: int| 0 <= i < small.len() && small[i] == "Result"@;
        assert(big[i] == "Result"@);
    }
}

/// The concrete short form of a settled type does not change when the table grows.
pub proof fn lemma_settled_cshort(t: HirType, items: Seq<HirItem>, small: Seq<Seq<char>>, big: Seq<Seq<char>>)
    requires
        extends(small, big),
        settled(t, small),
    ensures
        settled(t, big),
        cshort(t, items, small) == cshort(t, items, big),
{
    lemma_settled_extends(t, small, big);
    lemma_syms_below_short(t, small.len());
    lemma_cshort_extends(t, items, small, big);
}

/// The name a pattern takes stays its name when the table grows.
pub proof fn lemma_renamed_extends(orig: Symbol, t: HirType, n: Symbol, items: Seq<HirItem>, small: Seq<Seq<char>>,
    big: Seq<Seq<char>>)
    requires
        extends(small, big),
        renamed(orig, t, n, items, small),
    ensures
        renamed(orig, t, n, items, big),
{
    match t {
        HirType::Generic(base, args) => {
            assert forall|i: int| 0 <= i < args@.len() implies short_ok_and_interned(#[trigger] args@[i], small) by {
                assert(settled(args@[i], small));
                lemma_syms_below_short(args@[i], small.len());
            }
            lemma_cjoined_extends(args, args@.len(), items, small, big);
            assert forall|i: int| 0 <= i < args@.len() implies #[trigger] settled(args@[i], big) by {
                assert(settled(args@[i], small));
                lemma_settled_extends(args@[i], small, big);
            }
        },
        _ => {},
    }
}

/// The short form of `t` spells out only symbols of `strs`, and its builtin enum names
/// are interned there.
pub open spec fn short_ok_and_interned(t: HirType, strs: Seq<Seq<char>>) -> bool {
    crate::monomorphize::mangling::short_syms_ok(t, strs.len()) && builtins_interned(t, strs)
}

/// A builtin variant pattern stays one when the table grows.
pub proof fn lemma_builtin_variant_extends(out: HirPattern, enum_str: Seq<char>, variant: Seq<char>,
    payload: Option<HirPattern>, small: Seq<Seq<char>>, big: Seq<Seq<char>>)
    requires
        extends(small, big),
        builtin_variant(out, enum_str, variant, payload, small),
    ensures
        builtin_variant(out, enum_str, variant, payload, big),
{
}

/// A substituted pattern stays substituted when the table grows.
pub proof fn lemma_substituted_extends(p: HirPattern, t: HirType, out: HirPattern, items: Seq<HirItem>,
    small: Seq<Seq<char>>, big: Seq<Seq<char>>)
    requires
        extends(small, big),
        pattern_substituted(p, t, out, items, small),
    ensures
        pattern_substituted(p, t, out, items, big),
    decreases p,
{
    match p {
        HirPattern::EnumVariant { enum_name, variant_name, bindings, span } => {
            let n = out->EnumVariant_enum_name;
            lemma_renamed_extends(enum_name, t, n, items, small, big);
            assert(out->EnumVariant_variant_name == variant_name);
        },
        HirPattern::Struct { name, .. } => {
            let n = out->Struct_name;
            lemma_renamed_extends(name, t, n, items, small, big);
        },
        HirPattern::OptionSome(inner) => match option_payload(t) {
            Some(ity) => {
                let q = choose|q: HirPattern| #[trigger] builtin_variant(out, "Option"@ + "__"@ + cshort(ity, items, small), "Some"@, Some(q), small)
                    && pattern_substituted(*inner, ity, q, items, small);
                lemma_settled_cshort(ity, items, small, big);
                lemma_builtin_variant_extends(out, "Option"@ + "__"@ + cshort(ity, items, small), "Some"@, Some(q), small, big);
                lemma_substituted_extends(*inner, ity, q, items, small, big);
            },
            None => {
                lemma_substituted_extends(*inner, t, *(out->OptionSome_0), items, small, big);
            },
        },
        HirPattern::OptionNone => match option_payload(t) {
            Some(ity) => {
                lemma_settled_cshort(ity, items, small, big);
            },
            None => {},
        },
        HirPattern::ResultOk(inner) => match result_payloads(t) {
            Some((ok, err)) => {
                let q = choose|q: HirPattern| #[trigger] builtin_variant(out, result_name(ok, err, items, small), "Ok"@, Some(q), small)
                    && pattern_substituted(*inner, ok, q, items, small);
                lemma_settled_cshort(ok, items, small, big);
                lemma_settled_cshort(err, items, small, big);
                lemma_builtin_variant_extends(out, result_name(ok, err, items, small), "Ok"@, Some(q), small, big);
                lemma_substituted_extends(*inner, ok, q, items, small, big);
                assert(result_name(ok, err, items, small) == result_name(ok, err, items, big));
                assert(builtin_variant(out, result_name(ok, err, items, big), "Ok"@, Some(q), big));
            },
            None => {
                lemma_substituted_extends(*inner, t, *(out->ResultOk_0), items, small, big);
            },
        },
        HirPattern::ResultErr(inner) => match result_payloads(t) {
            Some((ok, err)) => {
                let q = choose|q: HirPattern| #[trigger] builtin_variant(out, result_name(ok, err, items, small), "Err"@, Some(q), small)
                    && pattern_substituted(*inner, err, q, items, small);
                lemma_settled_cshort(ok, items, small, big);
                lemma_settled_cshort(err, items, small, big);
                lemma_builtin_variant_extends(out, result_name(ok, err, items, small), "Err"@, Some(q), small, big);
                lemma_substituted_extends(*inner, err, q, items, small, big);
                assert(result_name(ok, err, items, small) == result_name(ok, err, items, big));
                assert(builtin_variant(out, result_name(ok, err, items, big), "Err"@, Some(q), big));
            },
            None => {
                lemma_substituted_extends(*inner, t, *(out->ResultErr_0), items, small, big);
            },
        },
        HirPattern::Tuple { elements, span } => {
            let es = out->Tuple_elements;
            assert forall|i: int| 0 <= i < elements@.len() implies pattern_substituted(#[trigger] elements@[i], t, es@[i], items, big) by {
                assert(decreases_to!(p => p->Tuple_elements));
                assert(decreases_to!(p->Tuple_elements => elements@[i]));
                lemma_substituted_extends(elements@[i], t, es@[i], items, small, big);
            }
        },
        _ => {},
    }
}

/// The sum of pattern budgets grows with the number of patterns counted.
pub proof fn lemma_patterns_budget_mono(xs: Vec<HirPattern>, t: HirType, n: nat, m: nat)
    requires
        n <= m <= xs@.len(),
    ensures
        patterns_budget(xs, t, n) <= patterns_budget(xs, t, m),
    decreases m,
{
    if n < m {
        lemma_patterns_budget_mono(xs, t, n, (m - 1) as nat);
    }
}

/// An upper bound on the strings that naming an enum or struct pattern for a
/// scrutinee of type `t` interns.
pub open spec fn name_budget(t: HirType) -> nat {
    match t {
        HirType::Generic(_, args) => budgets(args, args@.len()) + 1,
        _ => 0,
    }
}

/// The name that an enum pattern named `orig` takes for a scrutinee of type `t`; see
/// `renamed`.
fn mangle_enum_name(orig: Symbol, t: &HirType, index: &MonoIndex, mangle_table: &mut MangleTable,
    interner: &mut Interner) -> (n: Symbol)
    requires
        old(mangle_table).agrees_with(old(interner)@),
        syms_below(*t, old(interner)@.len()),
        old(interner)@.len() + name_budget(*t) < u32::MAX,
    ensures
        final(mangle_table).agrees_with(final(interner)@),
        extends(old(interner)@, final(interner)@),
        final(interner)@.len() <= old(interner)@.len() + name_budget(*t),
        renamed(orig, *t, n, index.items(), final(interner)@),
{
    match t {
        HirType::Named(m) => *m,
        HirType::Generic(base, args) => {
            let ghost items = index.items();
            let cs = concretize_list(args, index, mangle_table, interner);
            let ghost s1 = interner@;
            proof {
                assert forall|i: int| 0 <= i < cs@.len() implies crate::monomorphize::mangling::short_syms_ok(#[trigger] cs@[i], s1.len()) by {
                    assert(concrete_facts(args@[i], cs@[i], items, s1));
                    lemma_syms_below_short(cs@[i], s1.len());
                }
            }
            let n = mangle_table.mangle(*base, &cs, interner);
            proof {
                let s2 = interner@;
                assert forall|i: int| 0 <= i < args@.len() implies concrete_facts(#[trigger] args@[i], cs@[i], items, s2) by {
                    lemma_facts_extend(args@[i], cs@[i], items, s1, s2);
                }
                assert forall|i: int| 0 <= i < args@.len() implies crate::monomorphize::mangling::type_short(#[trigger] cs@[i], s2) == cshort(args@[i], items, s2) by {
                    assert(concrete_facts(args@[i], cs@[i], items, s2));
                }
                lemma_joined_cjoined(cs, *args, args@.len(), items, s2);
                assert forall|i: int| 0 <= i < args@.len() implies #[trigger] settled(args@[i], s2) by {
                    assert(concrete_facts(args@[i], cs@[i], items, s2));
                }
            }
            n
        },
        _ => orig,
    }
}

/// The name that a struct pattern named `orig` takes for a scrutinee of type `t`; it
/// follows the same rule as an enum pattern's.
fn mangle_struct_name(orig: Symbol, t: &HirType, index: &MonoIndex, mangle_table: &mut MangleTable,
    interner: &mut Interner) -> (n: Symbol)
    requires
        old(mangle_table).agrees_with(old(interner)@),
        syms_below(*t, old(interner)@.len()),
        old(interner)@.len() + name_budget(*t) < u32::MAX,
    ensures
        final(mangle_table).agrees_with(final(interner)@),
        extends(old(interner)@, final(interner)@),
        final(interner)@.len() <= old(interner)@.len() + name_budget(*t),
        renamed(orig, *t, n, index.items(), final(interner)@),
{
    mangle_enum_name(orig, t, index, mangle_table, interner)
}

/// The payload type of an `Option` pattern against `t`, borrowed from `t`.
fn option_payload_of(t: &HirType) -> (r: Option<&HirType>)
    ensures
        r.is_some() == option_payload(*t).is_some(),
        r.is_some() ==> *r.unwrap() == option_payload(*t).unwrap(),
        r.is_some() ==> forall|n: nat| syms_below(*t, n) ==> syms_below(*r.unwrap(), n),
{
    match t {
        HirType::Generic(_, args) => if args.len() > 0 { Some(&args[0]) } else { None },
        HirType::Option(inner) => Some(&**inner),
        _ => None,
    }
}

/// The success and error types of a `Result` pattern against `t`, borrowed from `t`.
fn result_payloads_of(t: &HirType) -> (r: Option<(&HirType, &HirType)>)
    ensures
        r.is_some() == result_payloads(*t).is_some(),
        r.is_some() ==> *r.unwrap().0 == result_payloads(*t).unwrap().0 && *r.unwrap().1 == result_payloads(*t).unwrap().1,
        r.is_some() ==> forall|n: nat| syms_below(*t, n) ==> syms_below(*r.unwrap().0, n) && syms_below(*r.unwrap().1, n),
{
    match t {
        HirType::Generic(_, args) => if args.len() == 2 { Some((&args[0], &args[1])) } else { None },
        HirType::Result(ok, err) => Some((&**ok, &**err)),
        _ => None,
    }
}

/// The mangled `Option` enum over the concrete form of `ity`; `opt` names `Option`.
fn option_enum_name(opt: Symbol, ity: &HirType, index: &MonoIndex, mangle_table: &mut MangleTable,
    interner: &mut Interner) -> (n: Symbol)
    requires
        old(mangle_table).agrees_with(old(interner)@),
        names_str(old(interner)@, opt, "Option"@),
        syms_below(*ity, old(interner)@.len()),
        old(interner)@.len() + intern_budget(*ity) + 1 < u32::MAX,
    ensures
        final(mangle_table).agrees_with(final(interner)@),
        extends(old(interner)@, final(interner)@),
        final(interner)@.len() <= old(interner)@.len() + intern_budget(*ity) + 1,
        settled(*ity, final(interner)@),
        names_str(final(interner)@, n, "Option"@ + "__"@ + cshort(*ity, index.items(), final(interner)@)),
{
    let ghost items = index.items();
    let c = concretize_ref(ity, index, mangle_table, interner);
    let ghost s1 = interner@;
    let ghost cg = c;
    proof { lemma_syms_below_short(c, s1.len()); }
    let mut margs: Vec<HirType> = Vec::new();
    margs.push(c);
    let n = mangle_table.mangle(opt, &margs, interner);
    proof {
        let s2 = interner@;
        lemma_facts_extend(*ity, cg, items, s1, s2);
        assert(margs@[0] == cg);
        assert(types_joined(margs, 1, s2) == crate::monomorphize::mangling::type_short(cg, s2));
    }
    n
}

/// The mangled `Result` enum over the concrete forms of `ok` and `err`; `res` names
/// `Result`.
fn result_enum_name(res: Symbol, ok: &HirType, err: &HirType, index: &MonoIndex, mangle_table: &mut MangleTable,
    interner: &mut Interner) -> (n: Symbol)
    requires
        old(mangle_table).agrees_with(old(interner)@),
        names_str(old(interner)@, res, "Result"@),
        syms_below(*ok, old(interner)@.len()),
        syms_below(*err, old(interner)@.len()),
        old(interner)@.len() + intern_budget(*ok) + intern_budget(*err) + 1 < u32::MAX,
    ensures
        final(mangle_table).agrees_with(final(interner)@),
        extends(old(interner)@, final(interner)@),
        final(interner)@.len() <= old(interner)@.len() + intern_budget(*ok) + intern_budget(*err) + 1,
        settled(*ok, final(interner)@),
        settled(*err, final(interner)@),
        names_str(final(interner)@, n, result_name(*ok, *err, index.items(), final(interner)@)),
{
    let ghost items = index.items();
    let ghost s0 = interner@;
    let c0 = concretize_ref(ok, index, mangle_table, interner);
    let ghost s1 = interner@;
    proof { lemma_syms_below_mono(*err, s0.len(), s1.len()); }
    let c1 = concretize_ref(err, index, mangle_table, interner);
    let ghost s2 = interner@;
    let ghost g0 = c0;
    let ghost g1 = c1;
    proof {
        lemma_facts_extend(*ok, g0, items, s1, s2);
        lemma_syms_below_short(g0, s2.len());
        lemma_syms_below_short(g1, s2.len());
    }
    let mut margs: Vec<HirType> = Vec::new();
    margs.push(c0);
    margs.push(c1);
    let n = mangle_table.mangle(res, &margs, interner);
    proof {
        let s3 = interner@;
        lemma_facts_extend(*ok, g0, items, s2, s3);
        lemma_facts_extend(*err, g1, items, s2, s3);
        assert(margs@[0] == g0 && margs@[1] == g1);
        assert(types_joined(margs, 1, s3) == crate::monomorphize::mangling::type_short(g0, s3));
        assert(mangled_name(s3, res, margs) =~= result_name(*ok, *err, items, s3));
    }
    n
}

/// The `variant` pattern of the enum that `n` names (its name is `enum_str`), with the
/// payload, if any, bound to the field `0`; the variant name and `0` are interned.
fn builtin_pattern(n: Symbol, variant: &str, payload: Option<HirPattern>, interner: &mut Interner,
    Ghost(enum_str): Ghost<Seq<char>>) -> (r: HirPattern)
    requires
        names_str(old(interner)@, n, enum_str),
        old(interner)@.len() + (if payload.is_some() { 2int } else { 1int }) < u32::MAX,
    ensures
        extends(old(interner)@, final(interner)@),
        final(interner)@.len() <= old(interner)@.len() + (if payload.is_some() { 2int } else { 1int }),
        builtin_variant(r, enum_str, variant@, payload, final(interner)@),
{
    let v = interner.intern(variant);
    match payload {
        Some(q) => {
            let ghost s1 = interner@;
            let zero = interner.intern("0");
            let ghost qg = q;
            let mut b: Vec<(Symbol, HirPattern)> = Vec::new();
            b.push((zero, q));
            assert(b@[0].1 == qg);
            HirPattern::EnumVariant { enum_name: n, variant_name: v, bindings: b, span: Span::new(0, 0) }
        },
        None => {
            let b: Vec<(Symbol, HirPattern)> = Vec::new();
            HirPattern::EnumVariant { enum_name: n, variant_name: v, bindings: b, span: Span::new(0, 0) }
        },
    }
}

/// The pattern `pattern` with its names made concrete for a scrutinee of type
/// `scrutinee_ty`; see `pattern_substituted`. Type arguments are made concrete with
/// `index` and mangled through `mangle_table`.
pub fn substitute_pattern(pattern: &HirPattern, scrutinee_ty: &HirType, index: &MonoIndex,
    mangle_table: &mut MangleTable, interner: &mut Interner) -> (r: HirPattern)
    requires
        old(mangle_table).agrees_with(old(interner)@),
        syms_below(*scrutinee_ty, old(interner)@.len()),
        old(interner)@.len() + pattern_budget(*pattern, *scrutinee_ty) < u32::MAX,
    ensures
        final(mangle_table).agrees_with(final(interner)@),
        extends(old(interner)@, final(interner)@),
        final(interner)@.len() <= old(interner)@.len() + pattern_budget(*pattern, *scrutinee_ty),
        pattern_substituted(*pattern, *scrutinee_ty, r, index.items(), final(interner)@),
    decreases pattern,
{
    let ghost items = index.items();
    let ghost s0 = interner@;
    match pattern {
        HirPattern::EnumVariant { enum_name, variant_name, bindings, span } => {
            let n = mangle_enum_name(*enum_name, scrutinee_ty, index, mangle_table, interner);
            HirPattern::EnumVariant { enum_name: n, variant_name: *variant_name, bindings: copy_bindings(bindings), span: *span }
        },
        HirPattern::Struct { name, bindings, span } => {
            let n = mangle_struct_name(*name, scrutinee_ty, index, mangle_table, interner);
            HirPattern::Struct { name: n, bindings: copy_bindings(bindings), span: *span }
        },
        HirPattern::OptionSome(inner) => {
            let opt = interner.intern("Option");
            proof {
                mangle_table.lemma_agrees_extends(s0, interner@);
                lemma_syms_below_mono(*scrutinee_ty, s0.len(), interner@.len());
            }
            match option_payload_of(scrutinee_ty) {
                Some(ity) => {
                    let n = option_enum_name(opt, ity, index, mangle_table, interner);
                    let ghost s2 = interner@;
                    proof { lemma_syms_below_mono(*ity, s0.len(), s2.len()); }
                    let q = substitute_pattern(inner, ity, index, mangle_table, interner);
                    let ghost s3 = interner@;
                    let ghost qg = q;
                    proof { lemma_settled_cshort(*ity, items, s2, s3); }
                    let r = builtin_pattern(n, "Some", Some(q), interner,
                        Ghost("Option"@ + "__"@ + cshort(*ity, items, s3)));
                    proof {
                        let sf = interner@;
                        mangle_table.lemma_agrees_extends(s3, sf);
                        lemma_settled_cshort(*ity, items, s3, sf);
                        lemma_substituted_extends(**inner, *ity, qg, items, s3, sf);
                        assert(builtin_variant(r, "Option"@ + "__"@ + cshort(*ity, items, sf), "Some"@, Some(qg), sf));
                    }
                    r
                },
                None => {
                    let q = substitute_pattern(inner, scrutinee_ty, index, mangle_table, interner);
                    HirPattern::OptionSome(Box::new(q))
                },
            }
        },
        HirPattern::OptionNone => {
            let opt = interner.intern("Option");
            proof {
                mangle_table.lemma_agrees_extends(s0, interner@);
                lemma_syms_below_mono(*scrutinee_ty, s0.len(), interner@.len());
            }
            match option_payload_of(scrutinee_ty) {
                Some(ity) => {
                    proof { lemma_syms_below_mono(*ity, s0.len(), interner@.len()); }
                    let n = option_enum_name(opt, ity, index, mangle_table, interner);
                    let ghost s2 = interner@;
                    let r = builtin_pattern(n, "None", None, interner,
                        Ghost("Option"@ + "__"@ + cshort(*ity, items, s2)));
                    proof {
                        let sf = interner@;
                        mangle_table.lemma_agrees_extends(s2, sf);
                        lemma_settled_cshort(*ity, items, s2, sf);
                    }
                    r
                },
                None => HirPattern::OptionNone,
            }
        },
        HirPattern::ResultOk(inner) => {
            let res = interner.intern("Result");
            proof {
                mangle_table.lemma_agrees_extends(s0, interner@);
                lemma_syms_below_mono(*scrutinee_ty, s0.len(), interner@.len());
            }
            match result_payloads_of(scrutinee_ty) {
                Some((ok, err)) => {
                    let n = result_enum_name(res, ok, err, index, mangle_table, interner);
                    let ghost s2 = interner@;
                    proof { lemma_syms_below_mono(*ok, s0.len(), s2.len()); }
                    let q = substitute_pattern(inner, ok, index, mangle_table, interner);
                    let ghost s3 = interner@;
                    let ghost qg = q;
                    proof {
                        lemma_settled_cshort(*ok, items, s2, s3);
                        lemma_settled_cshort(*err, items, s2, s3);
                    }
                    let r = builtin_pattern(n, "Ok", Some(q), interner, Ghost(result_name(*ok, *err, items, s3)));
                    proof {
                        let sf = interner@;
                        mangle_table.lemma_agrees_extends(s3, sf);
                        lemma_settled_cshort(*ok, items, s3, sf);
                        lemma_settled_cshort(*err, items, s3, sf);
                        lemma_substituted_extends(**inner, *ok, qg, items, s3, sf);
                        assert(builtin_variant(r, result_name(*ok, *err, items, sf), "Ok"@, Some(qg), sf));
                    }
                    r
                },
                None => {
                    let q = substitute_pattern(inner, scrutinee_ty, index, mangle_table, interner);
                    HirPattern::ResultOk(Box::new(q))
                },
            }
        },
        HirPattern::ResultErr(inner) => {
            let res = interner.intern("Result");
            proof {
                mangle_table.lemma_agrees_extends(s0, interner@);
                lemma_syms_below_mono(*scrutinee_ty, s0.len(), interner@.len());
            }
            match result_payloads_of(scrutinee_ty) {
                Some((ok, err)) => {
                    let n = result_enum_name(res, ok, err, index, mangle_table, interner);
                    let ghost s2 = interner@;
                    proof { lemma_syms_below_mono(*err, s0.len(), s2.len()); }
                    let q = substitute_pattern(inner, err, index, mangle_table, interner);
                    let ghost s3 = interner@;
                    let ghost qg = q;
                    proof {
                        lemma_settled_cshort(*ok, items, s2, s3);
                        lemma_settled_cshort(*err, items, s2, s3);
                    }
                    let r = builtin_pattern(n, "Err", Some(q), interner, Ghost(result_name(*ok, *err, items, s3)));
                    proof {
                        let sf = interner@;
                        mangle_table.lemma_agrees_extends(s3, sf);
                        lemma_settled_cshort(*ok, items, s3, sf);
                        lemma_settled_cshort(*err, items, s3, sf);
                        lemma_substituted_extends(**inner, *err, qg, items, s3, sf);
                        assert(builtin_variant(r, result_name(*ok, *err, items, sf), "Err"@, Some(qg), sf));
                    }
                    r
                },
                None => {
                    let q = substitute_pattern(inner, scrutinee_ty, index, mangle_table, interner);
                    HirPattern::ResultErr(Box::new(q))
                },
            }
        },
        HirPattern::Tuple { elements, span } => {
            let mut es: Vec<HirPattern> = Vec::new();
            let mut i: usize = 0;
            while i < elements.len()
                invariant
                    0 <= i <= elements@.len(),
                    es@.len() == i,
                    *pattern == (HirPattern::Tuple { elements: *elements, span: *span }),
                    items == index.items(),
                    mangle_table.agrees_with(interner@),
                    extends(s0, interner@),
                    syms_below(*scrutinee_ty, s0.len()),
                    interner@.len() <= s0.len() + patterns_budget(*elements, *scrutinee_ty, i as nat),
                    s0.len() + patterns_budget(*elements, *scrutinee_ty, elements@.len()) < u32::MAX,
                    forall|j: int| 0 <= j < i ==> pattern_substituted(#[trigger] elements@[j], *scrutinee_ty, es@[j], items, interner@),
                decreases elements@.len() - i,
            {
                proof {
                    assert(decreases_to!(*pattern => (*pattern)->Tuple_elements));
                    assert(decreases_to!((*pattern)->Tuple_elements => elements@[i as int]));
                    lemma_patterns_budget_mono(*elements, *scrutinee_ty, (i + 1) as nat, elements@.len());
                    lemma_syms_below_mono(*scrutinee_ty, s0.len(), interner@.len());
                }
                let ghost before = interner@;
                let q = substitute_pattern(&elements[i], scrutinee_ty, index, mangle_table, interner);
                proof {
                    assert forall|j: int| 0 <= j < i implies pattern_substituted(#[trigger] elements@[j], *scrutinee_ty, es@[j], items, interner@) by {
                        lemma_substituted_extends(elements@[j], *scrutinee_ty, es@[j], items, before, interner@);
                    }
                }
                es.push(q);
                i = i + 1;
            }
            HirPattern::Tuple { elements: es, span: *span }
        },
        _ => copy_pattern(pattern),
    }
}

} // verus!

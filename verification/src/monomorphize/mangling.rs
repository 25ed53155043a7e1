use vstd::prelude::*;
use vstd::string::StringExecFns;
use crate::symbol::{Interner, Symbol};
use crate::types::{ty_eq, tys_eq, HirType};

verus! {

broadcast use vstd::std_specs::vec::group_vec_axioms;

/// The short textual form of a type used in mangled names, given the interned strings.
pub open spec fn type_short(t: HirType, strs: Seq<Seq<char>>) -> Seq<char>
    decreases t, 0nat,
{
    match t {
        HirType::Int => "i64"@,
        HirType::Bool => "bool"@,
        HirType::Float => "f64"@,
        HirType::Str => "str"@,
        HirType::Unit => "unit"@,
        HirType::Never => "never"@,
        HirType::Named(s) => strs[s.index() as int],
        HirType::Generic(s, xs) => strs[s.index() as int] + "_"@ + types_joined(xs, xs@.len(), strs),
        HirType::Tuple(xs) => "tup_"@ + types_joined(xs, xs@.len(), strs),
        HirType::RawPtr(x) => "ptr_"@ + type_short(*x, strs),
        HirType::Option(x) => "opt_"@ + type_short(*x, strs),
        HirType::Result(x, e) => "res_"@ + type_short(*x, strs) + "_"@ + type_short(*e, strs),
        HirType::Error => "tyDiscriminant(6)"@,
        HirType::Func(..) => "tyDiscriminant(13)"@,
        HirType::Opaque(_) => "tyDiscriminant(14)"@,
        HirType::Param(_) => "tyDiscriminant(15)"@,
        HirType::Infer(_) => "tyDiscriminant(16)"@,
    }
}

/// The short forms of the first `n` types of `xs`, joined by `_`.
pub open spec fn types_joined(xs: Vec<HirType>, n: nat, strs: Seq<Seq<char>>) -> Seq<char>
    decreases xs, n,
{
    if n == 0 || n > xs@.len() {
        Seq::empty()
    } else if n == 1 {
        type_short(xs@[0], strs)
    } else {
        types_joined(xs, (n - 1) as nat, strs) + "_"@ + type_short(xs@[n - 1], strs)
    }
}

/// Every symbol that the short form of `t` spells out is below `n`.
pub open spec fn short_syms_ok(t: HirType, n: nat) -> bool
    decreases t,
{
    match t {
        HirType::Named(s) => s.index() < n,
        HirType::Generic(s, xs) => s.index() < n && forall|i: int| 0 <= i < xs@.len() ==> short_syms_ok(#[trigger] xs@[i], n),
        HirType::Tuple(xs) => forall|i: int| 0 <= i < xs@.len() ==> short_syms_ok(#[trigger] xs@[i], n),
        HirType::RawPtr(x) => short_syms_ok(*x, n),
        HirType::Option(x) => short_syms_ok(*x, n),
        HirType::Result(x, e) => short_syms_ok(*x, n) && short_syms_ok(*e, n),
        _ => true,
    }
}

/// `big` begins with all of `small`.
pub open spec fn extends(small: Seq<Seq<char>>, big: Seq<Seq<char>>) -> bool {
    &&& small.len() <= big.len()
    &&& forall|i: int| 0 <= i < small.len() ==> big[i] == small[i]
}

/// The short form of a type reads only the strings of the symbols it spells out, so
/// growing the table leaves it unchanged.
pub proof fn lemma_type_short_extends(t: HirType, small: Seq<Seq<char>>, big: Seq<Seq<char>>)
    requires
        short_syms_ok(t, small.len()),
        extends(small, big),
    ensures
        type_short(t, small) == type_short(t, big),
    decreases t, 0nat,
{
    match t {
        HirType::Generic(_, xs) => {
            assert(decreases_to!(t => t->Generic_1));
            lemma_types_joined_extends(xs, xs@.len(), small, big);
        },
        HirType::Tuple(xs) => {
            assert(decreases_to!(t => t->Tuple_0));
            lemma_types_joined_extends(xs, xs@.len(), small, big);
        },
        HirType::RawPtr(x) => lemma_type_short_extends(*x, small, big),
        HirType::Option(x) => lemma_type_short_extends(*x, small, big),
        HirType::Result(x, e) => {
            lemma_type_short_extends(*x, small, big);
            lemma_type_short_extends(*e, small, big);
        },
        _ => {},
    }
}

/// The joined short forms of a list of types are unchanged by growing the table.
pub proof fn lemma_types_joined_extends(xs: Vec<HirType>, n: nat, small: Seq<Seq<char>>, big: Seq<Seq<char>>)
    requires
        forall|i: int| 0 <= i < xs@.len() ==> short_syms_ok(#[trigger] xs@[i], small.len()),
        extends(small, big),
    ensures
        types_joined(xs, n, small) == types_joined(xs, n, big),
    decreases xs, n,
{
    if n == 0 || n > xs@.len() {
    } else {
        assert(decreases_to!(xs => xs@[n - 1]));
        lemma_type_short_extends(xs@[n - 1], small, big);
        if n > 1 {
            lemma_types_joined_extends(xs, (n - 1) as nat, small, big);
        }
    }
}

/// A bound on the symbols of a type holds for any larger bound.
pub proof fn lemma_short_syms_ok_mono(t: HirType, n: nat, m: nat)
    requires
        short_syms_ok(t, n),
        n <= m,
    ensures
        short_syms_ok(t, m),
    decreases t,
{
    match t {
        HirType::Generic(_, xs) => {
            assert forall|i: int| 0 <= i < xs@.len() implies short_syms_ok(#[trigger] xs@[i], m) by {
                assert(decreases_to!(t => t->Generic_1));
                lemma_short_syms_ok_mono(xs@[i], n, m);
            }
        },
        HirType::Tuple(xs) => {
            assert forall|i: int| 0 <= i < xs@.len() implies short_syms_ok(#[trigger] xs@[i], m) by {
                assert(decreases_to!(t => t->Tuple_0));
                lemma_short_syms_ok_mono(xs@[i], n, m);
            }
        },
        HirType::RawPtr(x) => lemma_short_syms_ok_mono(*x, n, m),
        HirType::Option(x) => lemma_short_syms_ok_mono(*x, n, m),
        HirType::Result(x, e) => {
            lemma_short_syms_ok_mono(*x, n, m);
            lemma_short_syms_ok_mono(*e, n, m);
        },
        _ => {},
    }
}

/// A bound on the symbols of a type carries over to a structurally equal type.
pub proof fn lemma_ty_eq_short_syms_ok(a: HirType, b: HirType, n: nat)
    requires
        ty_eq(a, b),
        short_syms_ok(a, n),
    ensures
        short_syms_ok(b, n),
    decreases a,
{
    match a {
        HirType::Generic(_, xs) => {
            if let HirType::Generic(_, ys) = b {
                assert(tys_eq(xs, ys));
                assert forall|i: int| 0 <= i < ys@.len() implies short_syms_ok(#[trigger] ys@[i], n) by {
                    assert(decreases_to!(a => a->Generic_1));
                    lemma_ty_eq_short_syms_ok(xs@[i], ys@[i], n);
                }
            }
        },
        HirType::Tuple(xs) => {
            if let HirType::Tuple(ys) = b {
                assert(tys_eq(xs, ys));
                assert forall|i: int| 0 <= i < ys@.len() implies short_syms_ok(#[trigger] ys@[i], n) by {
                    assert(decreases_to!(a => a->Tuple_0));
                    lemma_ty_eq_short_syms_ok(xs@[i], ys@[i], n);
                }
            }
        },
        HirType::RawPtr(x) => {
            if let HirType::RawPtr(y) = b {
                lemma_ty_eq_short_syms_ok(*x, *y, n);
            }
        },
        HirType::Option(x) => {
            if let HirType::Option(y) = b {
                lemma_ty_eq_short_syms_ok(*x, *y, n);
            }
        },
        HirType::Result(x, e) => {
            if let HirType::Result(y, f) = b {
                lemma_ty_eq_short_syms_ok(*x, *y, n);
                lemma_ty_eq_short_syms_ok(*e, *f, n);
            }
        },
        _ => {},
    }
}

/// Structurally equal types have the same short form.
pub proof fn lemma_type_short_ty_eq(a: HirType, b: HirType, strs: Seq<Seq<char>>)
    requires
        ty_eq(a, b),
    ensures
        type_short(a, strs) == type_short(b, strs),
    decreases a, 0nat,
{
    match a {
        HirType::Generic(_, xs) => {
            if let HirType::Generic(t, ys) = b {
                assert(decreases_to!(a => a->Generic_1));
                assert(a->Generic_0 == t && tys_eq(xs, ys));
                lemma_types_joined_ty_eq(xs, ys, xs@.len(), strs);
            }
        },
        HirType::Tuple(xs) => {
            if let HirType::Tuple(ys) = b {
                assert(decreases_to!(a => a->Tuple_0));
                lemma_types_joined_ty_eq(xs, ys, xs@.len(), strs);
            }
        },
        HirType::RawPtr(x) => {
            if let HirType::RawPtr(y) = b {
                lemma_type_short_ty_eq(*x, *y, strs);
            }
        },
        HirType::Option(x) => {
            if let HirType::Option(y) = b {
                lemma_type_short_ty_eq(*x, *y, strs);
            }
        },
        HirType::Result(x, e) => {
            if let HirType::Result(y, f) = b {
                lemma_type_short_ty_eq(*x, *y, strs);
                lemma_type_short_ty_eq(*e, *f, strs);
            }
        },
        _ => {},
    }
}

/// Element-wise equal lists of types have the same joined short form.
pub proof fn lemma_types_joined_ty_eq(xs: Vec<HirType>, ys: Vec<HirType>, n: nat, strs: Seq<Seq<char>>)
    requires
        tys_eq(xs, ys),
    ensures
        types_joined(xs, n, strs) == types_joined(ys, n, strs),
    decreases xs, n,
{
    if n == 0 || n > xs@.len() {
    } else {
        assert(decreases_to!(xs => xs@[n - 1]));
        assert(ty_eq(xs@[n - 1], ys@[n - 1]));
        lemma_type_short_ty_eq(xs@[n - 1], ys@[n - 1], strs);
        if n > 1 {
            lemma_types_joined_ty_eq(xs, ys, (n - 1) as nat, strs);
        }
    }
}

/// The mangled name of `base` applied to `args`: `base__arg1_arg2_...`.
pub open spec fn mangled_name(strs: Seq<Seq<char>>, base: Symbol, args: Vec<HirType>) -> Seq<char> {
    strs[base.index() as int] + "__"@ + types_joined(args, args@.len(), strs)
}

/// The short form of `ty`, as used in mangled names.
pub fn type_to_short_string(ty: &HirType, interner: &Interner) -> (r: String)
    requires
        short_syms_ok(*ty, interner@.len()),
    ensures
        r@ == type_short(*ty, interner@),
    decreases ty, 0nat,
{
    match ty {
        HirType::Int => String::from_str("i64"),
        HirType::Bool => String::from_str("bool"),
        HirType::Float => String::from_str("f64"),
        HirType::Str => String::from_str("str"),
        HirType::Unit => String::from_str("unit"),
        HirType::Never => String::from_str("never"),
        HirType::Named(s) => String::from_str(interner.resolve(*s)),
        HirType::Generic(s, xs) => {
            proof { assert(decreases_to!(*ty => (*ty)->Generic_1)); }
            let mut out = String::from_str(interner.resolve(*s));
            out.append("_");
            let inner = join_short(xs, interner);
            out.append(inner.as_str());
            out
        },
        HirType::Tuple(xs) => {
            proof { assert(decreases_to!(*ty => (*ty)->Tuple_0)); }
            let mut out = String::from_str("tup_");
            let inner = join_short(xs, interner);
            out.append(inner.as_str());
            out
        },
        HirType::RawPtr(x) => {
            let mut out = String::from_str("ptr_");
            let inner = type_to_short_string(x, interner);
            out.append(inner.as_str());
            out
        },
        HirType::Option(x) => {
            let mut out = String::from_str("opt_");
            let inner = type_to_short_string(x, interner);
            out.append(inner.as_str());
            out
        },
        HirType::Result(x, e) => {
            let mut out = String::from_str("res_");
            let a = type_to_short_string(x, interner);
            out.append(a.as_str());
            out.append("_");
            let b = type_to_short_string(e, interner);
            out.append(b.as_str());
            out
        },
        HirType::Error => String::from_str("tyDiscriminant(6)"),
        HirType::Func(..) => String::from_str("tyDiscriminant(13)"),
        HirType::Opaque(_) => String::from_str("tyDiscriminant(14)"),
        HirType::Param(_) => String::from_str("tyDiscriminant(15)"),
        HirType::Infer(_) => String::from_str("tyDiscriminant(16)"),
    }
}

/// The short forms of `xs`, joined by `_`.
pub fn join_short(xs: &Vec<HirType>, interner: &Interner) -> (r: String)
    requires
        forall|i: int| 0 <= i < xs@.len() ==> short_syms_ok(#[trigger] xs@[i], interner@.len()),
    ensures
        r@ == types_joined(*xs, xs@.len(), interner@),
    decreases xs, xs@.len(),
{
    let mut out = String::new();
    let mut i: usize = 0;
    while i < xs.len()
        invariant
            0 <= i <= xs@.len(),
            forall|k: int| 0 <= k < xs@.len() ==> short_syms_ok(#[trigger] xs@[k], interner@.len()),
            out@ == types_joined(*xs, i as nat, interner@),
        decreases xs@.len() - i,
    {
        proof { assert(decreases_to!(*xs => xs@[i as int])); }
        if i > 0 {
            out.append("_");
        }
        let part = type_to_short_string(&xs[i], interner);
        out.append(part.as_str());
        proof {
            if i == 0 {
                assert(out@ =~= type_short(xs@[0], interner@));
            }
        }
        i = i + 1;
    }
    out
}

/// Interns the mangled name of `base` applied to `type_args`.
pub fn mangle_type_name(interner: &mut Interner, base: Symbol, type_args: &Vec<HirType>) -> (r: Symbol)
    requires
        base.index() < old(interner)@.len(),
        forall|i: int| 0 <= i < type_args@.len() ==> short_syms_ok(#[trigger] type_args@[i], old(interner)@.len()),
        old(interner)@.len() < u32::MAX,
    ensures
        final(interner)@[r.index() as int] == mangled_name(old(interner)@, base, *type_args),
        r.index() < final(interner)@.len(),
        final(interner)@.len() <= old(interner)@.len() + 1,
        extends(old(interner)@, final(interner)@),
{
    let mut name = String::from_str(interner.resolve(base));
    name.append("__");
    let args = join_short(type_args, interner);
    name.append(args.as_str());
    let r = interner.intern(name.as_str());
    proof {
        assert(name@ =~= mangled_name(old(interner)@, base, *type_args));
        if crate::symbol::table_has(old(interner)@, name@) {
            assert(final(interner)@ == old(interner)@);
        } else {
            assert(final(interner)@ == old(interner)@.push(name@));
        }
    }
    r
}

} // verus!

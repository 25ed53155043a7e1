use vstd::prelude::*;
use crate::symbol::Symbol;
use crate::types::HirType;

verus! {

broadcast use vstd::std_specs::vec::group_vec_axioms;

/// `out` is `t` with each `Named` type whose symbol is one of `params` turned into the
/// type parameter of that symbol, inside generic arguments, raw pointers, tuples and
/// function types; other types (`Option` and `Result` among them) stay as they are.
pub open spec fn params_marked(t: HirType, params: Seq<Symbol>, out: HirType) -> bool
    decreases t,
{
    match t {
        HirType::Named(s) => if params.contains(s) { out == HirType::Param(s) } else { out == t },
        HirType::Generic(s, xs) => out matches HirType::Generic(s2, ys) && s2 == s && ys@.len() == xs@.len()
            && forall|i: int| 0 <= i < xs@.len() ==> params_marked(#[trigger] xs@[i], params, ys@[i]),
        HirType::RawPtr(x) => out matches HirType::RawPtr(y) && params_marked(*x, params, *y),
        HirType::Tuple(xs) => out matches HirType::Tuple(ys) && ys@.len() == xs@.len()
            && forall|i: int| 0 <= i < xs@.len() ==> params_marked(#[trigger] xs@[i], params, ys@[i]),
        HirType::Func(xs, r) => out matches HirType::Func(ys, q) && ys@.len() == xs@.len()
            && (forall|i: int| 0 <= i < xs@.len() ==> params_marked(#[trigger] xs@[i], params, ys@[i]))
            && params_marked(*r, params, *q),
        _ => out == t,
    }
}

/// Whether `sym` is one of `params`.
fn is_listed(params: &[Symbol], sym: Symbol) -> (r: bool)
    ensures
        r == params@.contains(sym),
{
    let mut i: usize = 0;
    while i < params.len()
        invariant
            0 <= i <= params@.len(),
            forall|j: int| 0 <= j < i ==> params@[j] != sym,
        decreases params@.len() - i,
    {
        if params[i] == sym {
            assert(params@[i as int] == sym);
            return true;
        }
        i = i + 1;
    }
    false
}

/// Marks the type parameters `type_params` in `ty`; see `params_marked`. With no type
/// parameters the type is returned as it is.
pub fn replace_named_with_param(ty: HirType, type_params: &[Symbol]) -> (r: HirType)
    ensures
        type_params@.len() == 0 ==> r == ty,
        params_marked(ty, type_params@, r),
    decreases ty,
{
    if type_params.len() == 0 {
        proof { lemma_marked_none(ty, type_params@); }
        return ty;
    }
    let ghost t0 = ty;
    match ty {
        HirType::Named(sym) => {
            if is_listed(type_params, sym) { HirType::Param(sym) } else { HirType::Named(sym) }
        },
        HirType::Generic(base, args) => {
            proof { assert(decreases_to!(t0 => t0->Generic_1)); }
            HirType::Generic(base, replace_all(args, type_params))
        },
        HirType::RawPtr(inner) => HirType::RawPtr(Box::new(replace_named_with_param(*inner, type_params))),
        HirType::Tuple(elems) => {
            proof { assert(decreases_to!(t0 => t0->Tuple_0)); }
            HirType::Tuple(replace_all(elems, type_params))
        },
        HirType::Func(params, ret) => {
            proof { assert(decreases_to!(t0 => t0->Func_0)); }
            let ps = replace_all(params, type_params);
            HirType::Func(ps, Box::new(replace_named_with_param(*ret, type_params)))
        },
        other => other,
    }
}

/// `replace_named_with_param` on each type of `xs`, in order.
#[verifier::loop_isolation(false)]
fn replace_all(xs: Vec<HirType>, type_params: &[Symbol]) -> (r: Vec<HirType>)
    ensures
        r@.len() == xs@.len(),
        forall|i: int| 0 <= i < xs@.len() ==> params_marked(#[trigger] xs@[i], type_params@, r@[i]),
    decreases xs, 0nat,
{
    let ghost all = xs;
    let total = xs.len();
    let mut rest = xs;
    let mut out: Vec<HirType> = Vec::new();
    let mut n: usize = 0;
    while n < total
        invariant
            all@.len() == total,
            all@.len() == n + rest@.len(),
            rest@ == all@.skip(n as int),
            out@.len() == n,
            forall|k: int| 0 <= k < n ==> params_marked(#[trigger] all@[k], type_params@, out@[k]),
        decreases total - n,
    {
        let x = rest.remove(0);
        proof {
            assert(all@[n as int] == x);
            assert(rest@ == all@.skip(n + 1));
            assert(decreases_to!(all => all@[n as int]));
        }
        out.push(replace_named_with_param(x, type_params));
        n = n + 1;
    }
    out
}

/// With no type parameters nothing is marked.
proof fn lemma_marked_none(t: HirType, params: Seq<Symbol>)
    requires
        params.len() == 0,
    ensures
        params_marked(t, params, t),
    decreases t,
{
    match t {
        HirType::Generic(_, xs) => {
            assert forall|i: int| 0 <= i < xs@.len() implies params_marked(#[trigger] xs@[i], params, xs@[i]) by {
                assert(decreases_to!(t => t->Generic_1));
                lemma_marked_none(xs@[i], params);
            }
        },
        HirType::Tuple(xs) => {
            assert forall|i: int| 0 <= i < xs@.len() implies params_marked(#[trigger] xs@[i], params, xs@[i]) by {
                assert(decreases_to!(t => t->Tuple_0));
                lemma_marked_none(xs@[i], params);
            }
        },
        HirType::Func(xs, r) => {
            assert forall|i: int| 0 <= i < xs@.len() implies params_marked(#[trigger] xs@[i], params, xs@[i]) by {
                assert(decreases_to!(t => t->Func_0));
                lemma_marked_none(xs@[i], params);
            }
            lemma_marked_none(*r, params);
        },
        HirType::RawPtr(x) => lemma_marked_none(*x, params),
        _ => {},
    }
}

} // verus!

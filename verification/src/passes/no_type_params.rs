use vstd::prelude::*;
use crate::monomorphize::concretize::is_param_name;
use crate::node::{HirExpr, HirStmt};
use crate::symbol::Interner;
use crate::types::HirType;

verus! {

broadcast use vstd::std_specs::vec::group_vec_axioms;

/// Some `Named` type in `t`, function types included, names a single uppercase letter.
pub open spec fn unresolved(t: HirType, strs: Seq<Seq<char>>) -> bool
    decreases t,
{
    match t {
        HirType::Named(s) => is_param_name(strs[s.index() as int]),
        HirType::Generic(_, xs) => exists|i: int| 0 <= i < xs@.len() && unresolved(#[trigger] xs@[i], strs),
        HirType::Tuple(xs) => exists|i: int| 0 <= i < xs@.len() && unresolved(#[trigger] xs@[i], strs),
        HirType::RawPtr(x) => unresolved(*x, strs),
        HirType::Option(x) => unresolved(*x, strs),
        HirType::Result(x, e) => unresolved(*x, strs) || unresolved(*e, strs),
        HirType::Func(xs, r) => (exists|i: int| 0 <= i < xs@.len() && unresolved(#[trigger] xs@[i], strs)) || unresolved(*r, strs),
        _ => false,
    }
}

/// Every `Named` symbol in `t` is below `n`.
pub open spec fn named_below(t: HirType, n: nat) -> bool
    decreases t,
{
    match t {
        HirType::Named(s) => s.index() < n,
        HirType::Generic(_, xs) => forall|i: int| 0 <= i < xs@.len() ==> named_below(#[trigger] xs@[i], n),
        HirType::Tuple(xs) => forall|i: int| 0 <= i < xs@.len() ==> named_below(#[trigger] xs@[i], n),
        HirType::RawPtr(x) => named_below(*x, n),
        HirType::Option(x) => named_below(*x, n),
        HirType::Result(x, e) => named_below(*x, n) && named_below(*e, n),
        HirType::Func(xs, r) => (forall|i: int| 0 <= i < xs@.len() ==> named_below(#[trigger] xs@[i], n)) && named_below(*r, n),
        _ => true,
    }
}

/// Whether a type holds an unresolved type parameter; see `unresolved`.
pub fn has_unresolved_param(ty: &HirType, interner: &Interner) -> (r: bool)
    requires
        named_below(*ty, interner@.len()),
    ensures
        r == unresolved(*ty, interner@),
    decreases ty, 0nat,
{
    match ty {
        HirType::Named(sym) => {
            let s = interner.resolve(*sym);
            if s.unicode_len() != 1 {
                return false;
            }
            let c = s.get_char(0);
            'A' <= c && c <= 'Z'
        },
        HirType::Generic(_, xs) => {
            proof { assert(decreases_to!(*ty => (*ty)->Generic_1)); }
            any_unresolved_param(xs, interner)
        },
        HirType::Tuple(xs) => {
            proof { assert(decreases_to!(*ty => (*ty)->Tuple_0)); }
            any_unresolved_param(xs, interner)
        },
        HirType::RawPtr(x) => has_unresolved_param(x, interner),
        HirType::Option(x) => has_unresolved_param(x, interner),
        HirType::Result(x, e) => has_unresolved_param(x, interner) || has_unresolved_param(e, interner),
        HirType::Func(xs, r) => {
            proof { assert(decreases_to!(*ty => (*ty)->Func_0)); }
            any_unresolved_param(xs, interner) || has_unresolved_param(r, interner)
        },
        _ => false,
    }
}

/// Some type of `xs` holds an unresolved type parameter.
fn any_unresolved_param(xs: &Vec<HirType>, interner: &Interner) -> (r: bool)
    requires
        forall|i: int| 0 <= i < xs@.len() ==> named_below(#[trigger] xs@[i], interner@.len()),
    ensures
        r == exists|i: int| 0 <= i < xs@.len() && unresolved(#[trigger] xs@[i], interner@),
    decreases xs, xs@.len(),
{
    let mut i: usize = 0;
    while i < xs.len()
        invariant
            0 <= i <= xs@.len(),
            forall|k: int| 0 <= k < xs@.len() ==> named_below(#[trigger] xs@[k], interner@.len()),
            forall|k: int| 0 <= k < i ==> !unresolved(#[trigger] xs@[k], interner@),
        decreases xs@.len() - i,
    {
        proof { assert(decreases_to!(*xs => xs@[i as int])); }
        if has_unresolved_param(&xs[i], interner) {
            return true;
        }
        i = i + 1;
    }
    false
}

/// The types that the pass checks in an expression: the target type of every `as`
/// and `sizeof` and the declared type of every `let` pattern, in every
/// subexpression, each paired with a predicate on it.
pub open spec fn checked_types_ok(e: HirExpr, ok: spec_fn(HirType) -> bool) -> bool
    decreases e, 0nat,
{
    match e {
        HirExpr::Binary { lhs, rhs, .. } => checked_types_ok(*lhs, ok) && checked_types_ok(*rhs, ok),
        HirExpr::Unary { operand, .. } => checked_types_ok(*operand, ok),
        HirExpr::Deref { expr, .. } => checked_types_ok(*expr, ok),
        HirExpr::Block { stmts, .. } => forall|i: int| 0 <= i < stmts@.len() ==> stmt_types_ok(#[trigger] stmts@[i], ok),
        HirExpr::If { condition, then_branch, else_branch, .. } => checked_types_ok(*condition, ok)
            && checked_types_ok(*then_branch, ok)
            && match else_branch {
                Some(x) => checked_types_ok(*x, ok),
                None => true,
            },
        HirExpr::Match { scrutinee, arms, .. } => checked_types_ok(*scrutinee, ok)
            && forall|i: int| 0 <= i < arms@.len() ==> (match (#[trigger] arms@[i]).guard {
                Some(g) => checked_types_ok(g, ok),
                None => true,
            }) && checked_types_ok(arms@[i].body, ok),
        HirExpr::While { condition, body, .. } => checked_types_ok(*condition, ok) && checked_types_ok(*body, ok),
        HirExpr::ForIn { iter, body, .. } => checked_types_ok(*iter, ok) && checked_types_ok(*body, ok),
        HirExpr::Call { args, .. } => forall|i: int| 0 <= i < args@.len() ==> checked_types_ok(#[trigger] args@[i], ok),
        HirExpr::MethodCall { receiver, args, .. } => checked_types_ok(*receiver, ok)
            && forall|i: int| 0 <= i < args@.len() ==> checked_types_ok(#[trigger] args@[i], ok),
        HirExpr::StructLit { fields, .. } => forall|i: int| 0 <= i < fields@.len() ==> checked_types_ok(#[trigger] fields@[i].1, ok),
        HirExpr::EnumVariant { args, .. } => forall|i: int| 0 <= i < args@.len() ==> checked_types_ok(#[trigger] args@[i], ok),
        HirExpr::TupleLit { elements, .. } => forall|i: int| 0 <= i < elements@.len() ==> checked_types_ok(#[trigger] elements@[i], ok),
        HirExpr::Println { arg, .. } => checked_types_ok(*arg, ok),
        HirExpr::Assert { condition, message, .. } => checked_types_ok(*condition, ok) && match message {
            Some(m) => checked_types_ok(*m, ok),
            None => true,
        },
        HirExpr::Return { value, .. } => match value {
            Some(v) => checked_types_ok(*v, ok),
            None => true,
        },
        HirExpr::SizeOf { target_type, .. } => ok(target_type),
        HirExpr::As { expr, target_type, .. } => checked_types_ok(*expr, ok) && ok(target_type),
        HirExpr::FieldAccess { object, .. } => checked_types_ok(*object, ok),
        _ => true,
    }
}

/// The statement's checked types satisfy `ok`.
pub open spec fn stmt_types_ok(s: HirStmt, ok: spec_fn(HirType) -> bool) -> bool
    decreases s, 0nat,
{
    match s {
        HirStmt::Let { value, .. } => checked_types_ok(value, ok),
        HirStmt::LetPat { value, ty, .. } => checked_types_ok(value, ok) && match ty {
            Some(t) => ok(t),
            None => true,
        },
        HirStmt::Assign { value, .. } => checked_types_ok(value, ok),
        HirStmt::AssignField { value, .. } => checked_types_ok(value, ok),
        HirStmt::AssignDeref { target, value, .. } => checked_types_ok(*target, ok) && checked_types_ok(value, ok),
        HirStmt::Expr(e) => checked_types_ok(e, ok),
    }
}

/// The check that every checked type's names are interned.
pub open spec fn interned_pred(n: nat) -> spec_fn(HirType) -> bool {
    |t: HirType| named_below(t, n)
}

/// The check that a checked type holds no unresolved type parameter.
pub open spec fn resolved_pred(strs: Seq<Seq<char>>) -> spec_fn(HirType) -> bool {
    |t: HirType| !unresolved(t, strs)
}

/// Whether no type that the expression holds (`as` and `sizeof` targets, `let`
/// pattern types) has an unresolved type parameter.
pub fn no_type_params(expr: &HirExpr, interner: &Interner) -> (r: bool)
    requires
        checked_types_ok(*expr, interned_pred(interner@.len())),
    ensures
        r == checked_types_ok(*expr, resolved_pred(interner@)),
    decreases expr, 0nat,
{
    let ghost ip = interned_pred(interner@.len());
    let ghost rp = resolved_pred(interner@);
    match expr {
        HirExpr::Binary { lhs, rhs, .. } => no_type_params(lhs, interner) && no_type_params(rhs, interner),
        HirExpr::Unary { operand, .. } => no_type_params(operand, interner),
        HirExpr::Deref { expr: inner, .. } => no_type_params(inner, interner),
        HirExpr::Block { stmts, .. } => {
            proof { assert(decreases_to!(*expr => (*expr)->Block_stmts)); }
            let mut i: usize = 0;
            while i < stmts.len()
                invariant
                    0 <= i <= stmts@.len(),
                    decreases_to!(*expr => *stmts),
                    (*expr) is Block && (*expr)->Block_stmts == *stmts,
                    ip == interned_pred(interner@.len()),
                    rp == resolved_pred(interner@),
                    forall|k: int| 0 <= k < stmts@.len() ==> stmt_types_ok(#[trigger] stmts@[k], ip),
                    forall|k: int| 0 <= k < i ==> stmt_types_ok(#[trigger] stmts@[k], rp),
                decreases stmts@.len() - i,
            {
                proof { assert(decreases_to!(*stmts => stmts@[i as int])); }
                let ok = match &stmts[i] {
                    HirStmt::Let { value, .. } => no_type_params(value, interner),
                    HirStmt::LetPat { value, ty, .. } => no_type_params(value, interner) && match ty {
                        Some(t) => !has_unresolved_param(t, interner),
                        None => true,
                    },
                    HirStmt::Assign { value, .. } => no_type_params(value, interner),
                    HirStmt::AssignField { value, .. } => no_type_params(value, interner),
                    HirStmt::AssignDeref { target, value, .. } => no_type_params(target, interner) && no_type_params(value, interner),
                    HirStmt::Expr(e) => no_type_params(e, interner),
                };
                assert(ok == stmt_types_ok(stmts@[i as int], rp));
                if !ok {
                    return false;
                }
                i = i + 1;
            }
            true
        },
        HirExpr::If { condition, then_branch, else_branch, .. } => {
            no_type_params(condition, interner) && no_type_params(then_branch, interner) && match else_branch {
                Some(x) => no_type_params(x, interner),
                None => true,
            }
        },
        HirExpr::Match { scrutinee, arms, .. } => {
            proof { assert(decreases_to!(*expr => (*expr)->Match_arms)); }
            if !no_type_params(scrutinee, interner) {
                return false;
            }
            let mut i: usize = 0;
            while i < arms.len()
                invariant
                    0 <= i <= arms@.len(),
                    decreases_to!(*expr => *arms),
                    (*expr) is Match && (*expr)->Match_arms == *arms,
                    checked_types_ok(*(*expr)->Match_scrutinee, rp),
                    ip == interned_pred(interner@.len()),
                    rp == resolved_pred(interner@),
                    forall|k: int| 0 <= k < arms@.len() ==> (match (#[trigger] arms@[k]).guard {
                        Some(g) => checked_types_ok(g, ip),
                        None => true,
                    }) && checked_types_ok(arms@[k].body, ip),
                    forall|k: int| 0 <= k < i ==> (match (#[trigger] arms@[k]).guard {
                        Some(g) => checked_types_ok(g, rp),
                        None => true,
                    }) && checked_types_ok(arms@[k].body, rp),
                decreases arms@.len() - i,
            {
                proof { assert(decreases_to!(*arms => arms@[i as int])); }
                let arm = &arms[i];
                let g_ok = match &arm.guard {
                    Some(g) => no_type_params(g, interner),
                    None => true,
                };
                let b_ok = no_type_params(&arm.body, interner);
                assert(g_ok == (match arms@[i as int].guard {
                    Some(g) => checked_types_ok(g, rp),
                    None => true,
                }));
                if !g_ok || !b_ok {
                    assert(!((match arms@[i as int].guard {
                        Some(g) => checked_types_ok(g, rp),
                        None => true,
                    }) && checked_types_ok(arms@[i as int].body, rp)));
                    return false;
                }
                i = i + 1;
            }
            true
        },
        HirExpr::While { condition, body, .. } => no_type_params(condition, interner) && no_type_params(body, interner),
        HirExpr::ForIn { iter, body, .. } => no_type_params(iter, interner) && no_type_params(body, interner),
        HirExpr::Call { args, .. } => {
            proof { assert(decreases_to!(*expr => (*expr)->Call_args)); }
            all_no_type_params(args, interner)
        },
        HirExpr::MethodCall { receiver, args, .. } => {
            proof { assert(decreases_to!(*expr => (*expr)->MethodCall_args)); }
            no_type_params(receiver, interner) && all_no_type_params(args, interner)
        },
        HirExpr::StructLit { fields, .. } => {
            proof { assert(decreases_to!(*expr => (*expr)->StructLit_fields)); }
            let mut i: usize = 0;
            while i < fields.len()
                invariant
                    0 <= i <= fields@.len(),
                    decreases_to!(*expr => *fields),
                    (*expr) is StructLit && (*expr)->StructLit_fields == *fields,
                    ip == interned_pred(interner@.len()),
                    rp == resolved_pred(interner@),
                    forall|k: int| 0 <= k < fields@.len() ==> checked_types_ok(#[trigger] fields@[k].1, ip),
                    forall|k: int| 0 <= k < i ==> checked_types_ok(#[trigger] fields@[k].1, rp),
                decreases fields@.len() - i,
            {
                proof {
                    assert(decreases_to!(*fields => fields@[i as int]));
                    assert(decreases_to!(fields@[i as int] => fields@[i as int].1));
                }
                if !no_type_params(&fields[i].1, interner) {
                    assert(!checked_types_ok(fields@[i as int].1, rp));
                    return false;
                }
                i = i + 1;
            }
            true
        },
        HirExpr::EnumVariant { args, .. } => {
            proof { assert(decreases_to!(*expr => (*expr)->EnumVariant_args)); }
            all_no_type_params(args, interner)
        },
        HirExpr::TupleLit { elements, .. } => {
            proof { assert(decreases_to!(*expr => (*expr)->TupleLit_elements)); }
            all_no_type_params(elements, interner)
        },
        HirExpr::Println { arg, .. } => no_type_params(arg, interner),
        HirExpr::Assert { condition, message, .. } => {
            no_type_params(condition, interner) && match message {
                Some(m) => no_type_params(m, interner),
                None => true,
            }
        },
        HirExpr::Return { value, .. } => match value {
            Some(v) => no_type_params(v, interner),
            None => true,
        },
        HirExpr::SizeOf { target_type, .. } => !has_unresolved_param(target_type, interner),
        HirExpr::As { expr: inner, target_type, .. } => no_type_params(inner, interner) && !has_unresolved_param(target_type, interner),
        HirExpr::FieldAccess { object, .. } => no_type_params(object, interner),
        _ => true,
    }
}

/// Whether no expression of `xs` holds an unresolved type parameter where the pass looks.
fn all_no_type_params(xs: &Vec<HirExpr>, interner: &Interner) -> (r: bool)
    requires
        forall|i: int| 0 <= i < xs@.len() ==> checked_types_ok(#[trigger] xs@[i], interned_pred(interner@.len())),
    ensures
        r == forall|i: int| 0 <= i < xs@.len() ==> checked_types_ok(#[trigger] xs@[i], resolved_pred(interner@)),
    decreases xs, xs@.len(),
{
    let mut i: usize = 0;
    while i < xs.len()
        invariant
            0 <= i <= xs@.len(),
            forall|k: int| 0 <= k < xs@.len() ==> checked_types_ok(#[trigger] xs@[k], interned_pred(interner@.len())),
            forall|k: int| 0 <= k < i ==> checked_types_ok(#[trigger] xs@[k], resolved_pred(interner@)),
        decreases xs@.len() - i,
    {
        proof { assert(decreases_to!(*xs => xs@[i as int])); }
        if !no_type_params(&xs[i], interner) {
            return false;
        }
        i = i + 1;
    }
    true
}

/// The pass run after monomorphization: every type that an expression holds (`as`
/// and `sizeof` targets, `let` pattern types) is free of unresolved type parameters. The expressions it is given must
/// pass; `no_type_params` decides whether one does.
pub fn assert_no_type_params(expr: &HirExpr, interner: &Interner)
    requires
        checked_types_ok(*expr, interned_pred(interner@.len())),
        checked_types_ok(*expr, resolved_pred(interner@)),
{
}

} // verus!

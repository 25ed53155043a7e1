use vstd::prelude::*;
use vstd::string::StringExecFns;
use crate::item::{Hir, HirImplDef, HirItem};
use crate::monomorphize::mangling::extends;
use crate::node::{HirExpr, HirFn, HirStmt, MatchArm};
use crate::symbol::{Interner, Symbol};
use crate::types::{ExprId, HirType};

verus! {

broadcast use vstd::std_specs::vec::group_vec_axioms;

/// The type that type checking recorded for expression `id`, or `Error` when none is.
pub open spec fn recorded_type(types: Seq<HirType>, id: ExprId) -> HirType {
    if id.0 < types.len() { types[id.0 as int] } else { HirType::Error }
}

/// The type a reference option points at, as a value.
pub open spec fn first_of(o: Option<&HirType>) -> Option<HirType> {
    match o {
        Some(t) => Some(*t),
        None => None,
    }
}

/// The struct or enum name of a type, spelled out.
pub open spec fn head_text(t: HirType, strs: Seq<Seq<char>>) -> Option<Seq<char>> {
    match t {
        HirType::Named(s) => Some(strs[s.index() as int]),
        HirType::Generic(s, _) => Some(strs[s.index() as int]),
        _ => None,
    }
}

/// The name's text, or `unknown`.
pub open spec fn or_unknown(o: Option<Seq<char>>) -> Seq<char> {
    match o {
        Some(t) => t,
        None => "unknown"@,
    }
}

/// The type name a method call is resolved on: that of the receiver's recorded type,
/// or, when that type is unknown (`Error`) or `Int`, that of the enclosing function's
/// first parameter; `unknown` when there is no name.
pub open spec fn type_text(types: Seq<HirType>, rid: ExprId, self_ty: Option<HirType>, strs: Seq<Seq<char>>) -> Seq<char> {
    let rt = recorded_type(types, rid);
    if rt is Error || rt is Int {
        match self_ty {
            Some(t) => or_unknown(head_text(t, strs)),
            None => "unknown"@,
        }
    } else {
        or_unknown(head_text(rt, strs))
    }
}

/// The name `Type_method` that a method call becomes a call of.
pub open spec fn callee_text(types: Seq<HirType>, rid: ExprId, self_ty: Option<HirType>, m: Symbol, strs: Seq<Seq<char>>) -> Seq<char> {
    type_text(types, rid, self_ty, strs) + "_"@ + strs[m.index() as int]
}

/// The name of the type is interned whenever it has one.
pub open spec fn head_ok(t: HirType, n: nat) -> bool {
    match t {
        HirType::Named(s) => s.index() < n,
        HirType::Generic(s, _) => s.index() < n,
        _ => true,
    }
}

/// The type names that desugaring may spell out are interned.
pub open spec fn heads_ok(types: Seq<HirType>, self_ty: Option<HirType>, n: nat) -> bool {
    &&& forall|i: int| 0 <= i < types.len() ==> head_ok(#[trigger] types[i], n)
    &&& match self_ty {
        Some(t) => head_ok(t, n),
        None => true,
    }
}

/// The method calls that desugaring reaches in `e`, and their method names below `n`.
pub open spec fn dsg_ok(e: HirExpr, n: nat) -> bool
    decreases e, 0nat,
{
    match e {
        HirExpr::MethodCall { receiver, method_name, args, .. } => method_name.index() < n && dsg_ok(*receiver, n)
            && forall|i: int| 0 <= i < args@.len() ==> dsg_ok(#[trigger] args@[i], n),
        HirExpr::Call { args, .. } => forall|i: int| 0 <= i < args@.len() ==> dsg_ok(#[trigger] args@[i], n),
        HirExpr::Block { stmts, .. } => forall|i: int| 0 <= i < stmts@.len() ==> dsg_stmt_ok(#[trigger] stmts@[i], n),
        HirExpr::If { condition, then_branch, else_branch, .. } => dsg_ok(*condition, n) && dsg_ok(*then_branch, n)
            && match else_branch {
                Some(x) => dsg_ok(*x, n),
                None => true,
            },
        HirExpr::Match { scrutinee, arms, .. } => dsg_ok(*scrutinee, n) && forall|i: int| 0 <= i < arms@.len() ==> {
            &&& match (#[trigger] arms@[i]).guard {
                Some(g) => dsg_ok(g, n),
                None => true,
            }
            &&& dsg_ok(arms@[i].body, n)
        },
        HirExpr::While { condition, body, .. } => dsg_ok(*condition, n) && dsg_ok(*body, n),
        HirExpr::ForIn { iter, body, .. } => dsg_ok(*iter, n) && dsg_ok(*body, n),
        HirExpr::Binary { lhs, rhs, .. } => dsg_ok(*lhs, n) && dsg_ok(*rhs, n),
        HirExpr::Unary { operand, .. } => dsg_ok(*operand, n),
        HirExpr::Deref { expr, .. } => dsg_ok(*expr, n),
        HirExpr::As { expr, .. } => dsg_ok(*expr, n),
        HirExpr::FieldAccess { object, .. } => dsg_ok(*object, n),
        HirExpr::StructLit { fields, .. } => forall|i: int| 0 <= i < fields@.len() ==> dsg_ok((#[trigger] fields@[i]).1, n),
        HirExpr::EnumVariant { args, .. } => forall|i: int| 0 <= i < args@.len() ==> dsg_ok(#[trigger] args@[i], n),
        HirExpr::TupleLit { elements, .. } => forall|i: int| 0 <= i < elements@.len() ==> dsg_ok(#[trigger] elements@[i], n),
        HirExpr::Println { arg, .. } => dsg_ok(*arg, n),
        HirExpr::Assert { condition, message, .. } => dsg_ok(*condition, n) && match message {
            Some(x) => dsg_ok(*x, n),
            None => true,
        },
        _ => true,
    }
}

/// The method calls that desugaring reaches in `s` have interned method names.
pub open spec fn dsg_stmt_ok(s: HirStmt, n: nat) -> bool
    decreases s, 0nat,
{
    match s {
        HirStmt::Let { value, .. } => dsg_ok(value, n),
        HirStmt::LetPat { value, .. } => dsg_ok(value, n),
        HirStmt::Assign { value, .. } => dsg_ok(value, n),
        HirStmt::AssignDeref { target, value, .. } => dsg_ok(*target, n) && dsg_ok(value, n),
        HirStmt::AssignField { object, value, .. } => dsg_ok(*object, n) && dsg_ok(value, n),
        HirStmt::Expr(x) => dsg_ok(x, n),
    }
}

/// The number of method calls that desugaring reaches in `e`: an upper bound on the
/// names it interns.
pub open spec fn dsg_count(e: HirExpr) -> nat
    decreases e, 0nat,
{
    match e {
        HirExpr::MethodCall { receiver, args, .. } => 1 + dsg_count(*receiver) + dsg_counts(args, args@.len()),
        HirExpr::Call { args, .. } => dsg_counts(args, args@.len()),
        HirExpr::Block { stmts, .. } => dsg_stmts_count(stmts, stmts@.len()),
        HirExpr::If { condition, then_branch, else_branch, .. } => dsg_count(*condition) + dsg_count(*then_branch)
            + match else_branch {
                Some(x) => dsg_count(*x),
                None => 0,
            },
        HirExpr::Match { scrutinee, arms, .. } => dsg_count(*scrutinee) + dsg_arms_count(arms, arms@.len()),
        HirExpr::While { condition, body, .. } => dsg_count(*condition) + dsg_count(*body),
        HirExpr::ForIn { iter, body, .. } => dsg_count(*iter) + dsg_count(*body),
        HirExpr::Binary { lhs, rhs, .. } => dsg_count(*lhs) + dsg_count(*rhs),
        HirExpr::Unary { operand, .. } => dsg_count(*operand),
        HirExpr::Deref { expr, .. } => dsg_count(*expr),
        HirExpr::As { expr, .. } => dsg_count(*expr),
        HirExpr::FieldAccess { object, .. } => dsg_count(*object),
        HirExpr::StructLit { fields, .. } => dsg_fields_count(fields, fields@.len()),
        HirExpr::EnumVariant { args, .. } => dsg_counts(args, args@.len()),
        HirExpr::TupleLit { elements, .. } => dsg_counts(elements, elements@.len()),
        HirExpr::Println { arg, .. } => dsg_count(*arg),
        HirExpr::Assert { condition, message, .. } => dsg_count(*condition) + match message {
            Some(x) => dsg_count(*x),
            None => 0,
        },
        _ => 0,
    }
}

/// The counts of the first `n` expressions, summed.
pub open spec fn dsg_counts(xs: Vec<HirExpr>, n: nat) -> nat
    decreases xs, n,
{
    if n == 0 || n > xs@.len() { 0 } else { dsg_counts(xs, (n - 1) as nat) + dsg_count(xs@[n - 1]) }
}

/// The counts of the values of the first `n` fields, summed.
pub open spec fn dsg_fields_count(xs: Vec<(Symbol, HirExpr)>, n: nat) -> nat
    decreases xs, n,
{
    if n == 0 || n > xs@.len() { 0 } else { dsg_fields_count(xs, (n - 1) as nat) + dsg_count(xs@[n - 1].1) }
}

/// The count of one statement.
pub open spec fn dsg_stmt_count(s: HirStmt) -> nat
    decreases s, 0nat,
{
    match s {
        HirStmt::Let { value, .. } => dsg_count(value),
        HirStmt::LetPat { value, .. } => dsg_count(value),
        HirStmt::Assign { value, .. } => dsg_count(value),
        HirStmt::AssignDeref { target, value, .. } => dsg_count(*target) + dsg_count(value),
        HirStmt::AssignField { object, value, .. } => dsg_count(*object) + dsg_count(value),
        HirStmt::Expr(x) => dsg_count(x),
    }
}

/// The counts of the first `n` statements, summed.
pub open spec fn dsg_stmts_count(xs: Vec<HirStmt>, n: nat) -> nat
    decreases xs, n,
{
    if n == 0 || n > xs@.len() { 0 } else { dsg_stmts_count(xs, (n - 1) as nat) + dsg_stmt_count(xs@[n - 1]) }
}

/// The count of one arm: its guard and body.
pub open spec fn dsg_arm_count(a: MatchArm) -> nat
    decreases a, 0nat,
{
    let g: nat = match a.guard {
        Some(g) => dsg_count(g),
        None => 0,
    };
    g + dsg_count(a.body)
}

/// The counts of the first `n` arms, summed.
pub open spec fn dsg_arms_count(xs: Vec<MatchArm>, n: nat) -> nat
    decreases xs, n,
{
    if n == 0 || n > xs@.len() { 0 } else { dsg_arms_count(xs, (n - 1) as nat) + dsg_arm_count(xs@[n - 1]) }
}

/// `out` is `e` with every method call that desugaring reaches turned into a call of
/// `Type_method` (see `callee_text`; `strs` gives the callee's name) whose arguments are
/// the receiver followed by the method's arguments, all desugared in turn. Desugaring
/// enters blocks, branches, loops, operators, casts, field accesses, literals of
/// structs, enums and tuples, calls, `println` and `assert`; other nodes stay as they are.
pub open spec fn desugared(e: HirExpr, types: Seq<HirType>, self_ty: Option<HirType>, strs: Seq<Seq<char>>, out: HirExpr) -> bool
    decreases e, 0nat,
{
    match e {
        HirExpr::MethodCall { id, receiver, method_name, args, span, .. } =>
            out matches HirExpr::Call { id: i2, callee: c, args: ys, span: s2 } && i2 == id && s2 == span
            && c.index() < strs.len() && strs[c.index() as int] == callee_text(types, receiver.spec_id(), self_ty, method_name, strs)
            && ys@.len() == args@.len() + 1 && desugared(*receiver, types, self_ty, strs, ys@[0])
            && forall|i: int| 0 <= i < args@.len() ==> desugared(#[trigger] args@[i], types, self_ty, strs, ys@[i + 1]),
        HirExpr::Call { id, callee, args, span } =>
            out matches HirExpr::Call { id: i2, callee: c, args: ys, span: s2 } && i2 == id && c == callee && s2 == span
            && ys@.len() == args@.len()
            && forall|i: int| 0 <= i < args@.len() ==> desugared(#[trigger] args@[i], types, self_ty, strs, ys@[i]),
        HirExpr::Block { id, stmts, span } =>
            out matches HirExpr::Block { id: i2, stmts: ys, span: s2 } && i2 == id && s2 == span && ys@.len() == stmts@.len()
            && forall|i: int| 0 <= i < stmts@.len() ==> stmt_desugared(#[trigger] stmts@[i], types, self_ty, strs, ys@[i]),
        HirExpr::If { id, condition, then_branch, else_branch, span } =>
            out matches HirExpr::If { id: i2, condition: c, then_branch: t, else_branch: x, span: s2 } && i2 == id && s2 == span
            && desugared(*condition, types, self_ty, strs, *c) && desugared(*then_branch, types, self_ty, strs, *t)
            && match else_branch {
                Some(a) => x matches Some(b) && desugared(*a, types, self_ty, strs, *b),
                None => x is None,
            },
        HirExpr::Match { id, scrutinee, arms, span } =>
            out matches HirExpr::Match { id: i2, scrutinee: s, arms: ys, span: s2 } && i2 == id && s2 == span
            && desugared(*scrutinee, types, self_ty, strs, *s) && ys@.len() == arms@.len()
            && forall|i: int| 0 <= i < arms@.len() ==> {
                &&& (#[trigger] ys@[i]).pattern == arms@[i].pattern
                &&& match arms@[i].guard {
                    Some(g) => ys@[i].guard matches Some(h) && desugared(g, types, self_ty, strs, h),
                    None => ys@[i].guard is None,
                }
                &&& desugared(arms@[i].body, types, self_ty, strs, ys@[i].body)
            },
        HirExpr::While { id, condition, body, span } =>
            out matches HirExpr::While { id: i2, condition: c, body: b, span: s2 } && i2 == id && s2 == span
            && desugared(*condition, types, self_ty, strs, *c) && desugared(*body, types, self_ty, strs, *b),
        HirExpr::ForIn { id, pattern, iter, body, span } =>
            out matches HirExpr::ForIn { id: i2, pattern: p, iter: it, body: b, span: s2 } && i2 == id && s2 == span
            && p == pattern && desugared(*iter, types, self_ty, strs, *it) && desugared(*body, types, self_ty, strs, *b),
        HirExpr::Binary { id, op, lhs, rhs, span } =>
            out matches HirExpr::Binary { id: i2, op: o, lhs: l, rhs: r, span: s2 } && i2 == id && o == op && s2 == span
            && desugared(*lhs, types, self_ty, strs, *l) && desugared(*rhs, types, self_ty, strs, *r),
        HirExpr::Unary { id, op, operand, span } =>
            out matches HirExpr::Unary { id: i2, op: o, operand: x, span: s2 } && i2 == id && o == op && s2 == span
            && desugared(*operand, types, self_ty, strs, *x),
        HirExpr::Deref { id, expr, span } =>
            out matches HirExpr::Deref { id: i2, expr: x, span: s2 } && i2 == id && s2 == span
            && desugared(*expr, types, self_ty, strs, *x),
        HirExpr::As { id, expr, target_type, span } =>
            out matches HirExpr::As { id: i2, expr: x, target_type: t, span: s2 } && i2 == id && t == target_type && s2 == span
            && desugared(*expr, types, self_ty, strs, *x),
        HirExpr::FieldAccess { id, object, field, span } =>
            out matches HirExpr::FieldAccess { id: i2, object: x, field: f, span: s2 } && i2 == id && f == field && s2 == span
            && desugared(*object, types, self_ty, strs, *x),
        HirExpr::StructLit { id, struct_name, fields, span } =>
            out matches HirExpr::StructLit { id: i2, struct_name: n, fields: ys, span: s2 } && i2 == id && n == struct_name
            && s2 == span && ys@.len() == fields@.len()
            && forall|i: int| 0 <= i < fields@.len() ==> (#[trigger] ys@[i]).0 == fields@[i].0
                && desugared(fields@[i].1, types, self_ty, strs, ys@[i].1),
        HirExpr::EnumVariant { id, enum_name, variant_name, args, span } =>
            out matches HirExpr::EnumVariant { id: i2, enum_name: en, variant_name: vn, args: ys, span: s2 } && i2 == id
            && en == enum_name && vn == variant_name && s2 == span && ys@.len() == args@.len()
            && forall|i: int| 0 <= i < args@.len() ==> desugared(#[trigger] args@[i], types, self_ty, strs, ys@[i]),
        HirExpr::TupleLit { id, elements, span } =>
            out matches HirExpr::TupleLit { id: i2, elements: ys, span: s2 } && i2 == id && s2 == span
            && ys@.len() == elements@.len()
            && forall|i: int| 0 <= i < elements@.len() ==> desugared(#[trigger] elements@[i], types, self_ty, strs, ys@[i]),
        HirExpr::Println { id, arg, span } =>
            out matches HirExpr::Println { id: i2, arg: x, span: s2 } && i2 == id && s2 == span
            && desugared(*arg, types, self_ty, strs, *x),
        HirExpr::Assert { id, condition, message, span } =>
            out matches HirExpr::Assert { id: i2, condition: c, message: m, span: s2 } && i2 == id && s2 == span
            && desugared(*condition, types, self_ty, strs, *c)
            && match message {
                Some(a) => m matches Some(b) && desugared(*a, types, self_ty, strs, *b),
                None => m is None,
            },
        _ => out == e,
    }
}

/// `out` is statement `s` with the expressions that desugaring reaches desugared.
pub open spec fn stmt_desugared(s: HirStmt, types: Seq<HirType>, self_ty: Option<HirType>, strs: Seq<Seq<char>>, out: HirStmt) -> bool
    decreases s, 0nat,
{
    match s {
        HirStmt::Let { name, mutable, value, span } => out matches HirStmt::Let { name: n, mutable: m, value: v, span: s2 }
            && n == name && m == mutable && s2 == span && desugared(value, types, self_ty, strs, v),
        HirStmt::LetPat { pattern, mutable, value, ty, span } =>
            out matches HirStmt::LetPat { pattern: p, mutable: m, value: v, ty: t, span: s2 }
            && p == pattern && m == mutable && t == ty && s2 == span && desugared(value, types, self_ty, strs, v),
        HirStmt::Assign { target, value, span } => out matches HirStmt::Assign { target: t, value: v, span: s2 }
            && t == target && s2 == span && desugared(value, types, self_ty, strs, v),
        HirStmt::AssignDeref { target, value, span } => out matches HirStmt::AssignDeref { target: t, value: v, span: s2 }
            && s2 == span && desugared(*target, types, self_ty, strs, *t) && desugared(value, types, self_ty, strs, v),
        HirStmt::AssignField { object, field, value, span } =>
            out matches HirStmt::AssignField { object: o, field: f, value: v, span: s2 }
            && f == field && s2 == span && desugared(*object, types, self_ty, strs, *o) && desugared(value, types, self_ty, strs, v),
        HirStmt::Expr(x) => out matches HirStmt::Expr(y) && desugared(x, types, self_ty, strs, y),
    }
}

/// The name a method call becomes a call of does not change when the table grows.
proof fn lemma_callee_text_extends(types: Seq<HirType>, rid: ExprId, self_ty: Option<HirType>, m: Symbol,
    small: Seq<Seq<char>>, big: Seq<Seq<char>>)
    requires
        heads_ok(types, self_ty, small.len()),
        m.index() < small.len(),
        extends(small, big),
    ensures
        callee_text(types, rid, self_ty, m, small) == callee_text(types, rid, self_ty, m, big),
{
    let rt = recorded_type(types, rid);
    if rid.0 < types.len() {
        assert(head_ok(types[rid.0 as int], small.len()));
    }
    match rt {
        HirType::Named(x) => { assert(big[x.index() as int] == small[x.index() as int]); },
        HirType::Generic(x, _) => { assert(big[x.index() as int] == small[x.index() as int]); },
        _ => {},
    }
    match self_ty {
        Some(t) => match t {
            HirType::Named(x) => { assert(big[x.index() as int] == small[x.index() as int]); },
            HirType::Generic(x, _) => { assert(big[x.index() as int] == small[x.index() as int]); },
            _ => {},
        },
        None => {},
    }
    assert(big[m.index() as int] == small[m.index() as int]);
}

/// Desugaring stays correct when the table grows.
pub proof fn lemma_desugared_extends(e: HirExpr, types: Seq<HirType>, self_ty: Option<HirType>,
    small: Seq<Seq<char>>, big: Seq<Seq<char>>, out: HirExpr)
    requires
        desugared(e, types, self_ty, small, out),
        dsg_ok(e, small.len()),
        heads_ok(types, self_ty, small.len()),
        extends(small, big),
    ensures
        desugared(e, types, self_ty, big, out),
    decreases e, 0nat,
{
    match e {
        HirExpr::MethodCall { id, receiver, method_name, args, span, .. } => {
            let ys = out->Call_args;
            let c = out->Call_callee;
            lemma_callee_text_extends(types, receiver.spec_id(), self_ty, method_name, small, big);
            assert(big[c.index() as int] == small[c.index() as int]);
            lemma_desugared_extends(*receiver, types, self_ty, small, big, ys@[0]);
            assert forall|i: int| 0 <= i < args@.len() implies desugared(#[trigger] args@[i], types, self_ty, big, ys@[i + 1]) by {
                assert(decreases_to!(e => e->MethodCall_args));
                lemma_desugared_extends(args@[i], types, self_ty, small, big, ys@[i + 1]);
            }
        },
        HirExpr::Call { args, .. } => {
            let ys = out->Call_args;
            assert forall|i: int| 0 <= i < args@.len() implies desugared(#[trigger] args@[i], types, self_ty, big, ys@[i]) by {
                assert(decreases_to!(e => e->Call_args));
                lemma_desugared_extends(args@[i], types, self_ty, small, big, ys@[i]);
            }
        },
        HirExpr::Block { stmts, .. } => {
            let ys = out->Block_stmts;
            assert forall|i: int| 0 <= i < stmts@.len() implies stmt_desugared(#[trigger] stmts@[i], types, self_ty, big, ys@[i]) by {
                assert(decreases_to!(e => e->Block_stmts));
                lemma_stmt_desugared_extends(stmts@[i], types, self_ty, small, big, ys@[i]);
            }
        },
        HirExpr::If { condition, then_branch, else_branch, .. } => {
            lemma_desugared_extends(*condition, types, self_ty, small, big, *out->If_condition);
            lemma_desugared_extends(*then_branch, types, self_ty, small, big, *out->If_then_branch);
            match else_branch {
                Some(a) => {
                    lemma_desugared_extends(*a, types, self_ty, small, big, *out->If_else_branch->Some_0);
                },
                None => {},
            }
        },
        HirExpr::Match { scrutinee, arms, .. } => {
            let ys = out->Match_arms;
            lemma_desugared_extends(*scrutinee, types, self_ty, small, big, *out->Match_scrutinee);
            assert forall|i: int| 0 <= i < arms@.len() implies {
                &&& (#[trigger] ys@[i]).pattern == arms@[i].pattern
                &&& match arms@[i].guard {
                    Some(g) => ys@[i].guard matches Some(h) && desugared(g, types, self_ty, big, h),
                    None => ys@[i].guard is None,
                }
                &&& desugared(arms@[i].body, types, self_ty, big, ys@[i].body)
            } by {
                assert(decreases_to!(e => e->Match_arms));
                assert(decreases_to!(arms => arms@[i]));
                match arms@[i].guard {
                    Some(g) => {
                        lemma_desugared_extends(g, types, self_ty, small, big, ys@[i].guard->Some_0);
                    },
                    None => {},
                }
                lemma_desugared_extends(arms@[i].body, types, self_ty, small, big, ys@[i].body);
            }
        },
        HirExpr::While { condition, body, .. } => {
            lemma_desugared_extends(*condition, types, self_ty, small, big, *out->While_condition);
            lemma_desugared_extends(*body, types, self_ty, small, big, *out->While_body);
        },
        HirExpr::ForIn { iter, body, .. } => {
            lemma_desugared_extends(*iter, types, self_ty, small, big, *out->ForIn_iter);
            lemma_desugared_extends(*body, types, self_ty, small, big, *out->ForIn_body);
        },
        HirExpr::Binary { lhs, rhs, .. } => {
            lemma_desugared_extends(*lhs, types, self_ty, small, big, *out->Binary_lhs);
            lemma_desugared_extends(*rhs, types, self_ty, small, big, *out->Binary_rhs);
        },
        HirExpr::Unary { operand, .. } => {
            lemma_desugared_extends(*operand, types, self_ty, small, big, *out->Unary_operand);
        },
        HirExpr::Deref { expr, .. } => {
            lemma_desugared_extends(*expr, types, self_ty, small, big, *out->Deref_expr);
        },
        HirExpr::As { expr, .. } => {
            lemma_desugared_extends(*expr, types, self_ty, small, big, *out->As_expr);
        },
        HirExpr::FieldAccess { object, .. } => {
            lemma_desugared_extends(*object, types, self_ty, small, big, *out->FieldAccess_object);
        },
        HirExpr::StructLit { fields, .. } => {
            let ys = out->StructLit_fields;
            assert forall|i: int| 0 <= i < fields@.len() implies (#[trigger] ys@[i]).0 == fields@[i].0
                && desugared(fields@[i].1, types, self_ty, big, ys@[i].1) by {
                assert(decreases_to!(e => e->StructLit_fields));
                assert(decreases_to!(fields => fields@[i]));
                lemma_desugared_extends(fields@[i].1, types, self_ty, small, big, ys@[i].1);
            }
        },
        HirExpr::EnumVariant { args, .. } => {
            let ys = out->EnumVariant_args;
            assert forall|i: int| 0 <= i < args@.len() implies desugared(#[trigger] args@[i], types, self_ty, big, ys@[i]) by {
                assert(decreases_to!(e => e->EnumVariant_args));
                lemma_desugared_extends(args@[i], types, self_ty, small, big, ys@[i]);
            }
        },
        HirExpr::TupleLit { elements, .. } => {
            let ys = out->TupleLit_elements;
            assert forall|i: int| 0 <= i < elements@.len() implies desugared(#[trigger] elements@[i], types, self_ty, big, ys@[i]) by {
                assert(decreases_to!(e => e->TupleLit_elements));
                lemma_desugared_extends(elements@[i], types, self_ty, small, big, ys@[i]);
            }
        },
        HirExpr::Println { arg, .. } => {
            lemma_desugared_extends(*arg, types, self_ty, small, big, *out->Println_arg);
        },
        HirExpr::Assert { condition, message, .. } => {
            lemma_desugared_extends(*condition, types, self_ty, small, big, *out->Assert_condition);
            match message {
                Some(a) => {
                    lemma_desugared_extends(*a, types, self_ty, small, big, *out->Assert_message->Some_0);
                },
                None => {},
            }
        },
        _ => {},
    }
}

/// Desugaring of a statement stays correct when the table grows.
pub proof fn lemma_stmt_desugared_extends(s: HirStmt, types: Seq<HirType>, self_ty: Option<HirType>,
    small: Seq<Seq<char>>, big: Seq<Seq<char>>, out: HirStmt)
    requires
        stmt_desugared(s, types, self_ty, small, out),
        dsg_stmt_ok(s, small.len()),
        heads_ok(types, self_ty, small.len()),
        extends(small, big),
    ensures
        stmt_desugared(s, types, self_ty, big, out),
    decreases s, 0nat,
{
    match s {
        HirStmt::Let { value, .. } => lemma_desugared_extends(value, types, self_ty, small, big, out->Let_value),
        HirStmt::LetPat { value, .. } => lemma_desugared_extends(value, types, self_ty, small, big, out->LetPat_value),
        HirStmt::Assign { value, .. } => lemma_desugared_extends(value, types, self_ty, small, big, out->Assign_value),
        HirStmt::AssignDeref { target, value, .. } => {
            lemma_desugared_extends(*target, types, self_ty, small, big, *out->AssignDeref_target);
            lemma_desugared_extends(value, types, self_ty, small, big, out->AssignDeref_value);
        },
        HirStmt::AssignField { object, value, .. } => {
            lemma_desugared_extends(*object, types, self_ty, small, big, *out->AssignField_object);
            lemma_desugared_extends(value, types, self_ty, small, big, out->AssignField_value);
        },
        HirStmt::Expr(x) => lemma_desugared_extends(x, types, self_ty, small, big, out->Expr_0),
    }
}

/// The struct or enum name of a type, spelled out.
fn head_name(t: &HirType, interner: &Interner) -> (r: Option<String>)
    requires
        head_ok(*t, interner@.len()),
    ensures
        match r {
            Some(x) => head_text(*t, interner@) == Some(x@),
            None => head_text(*t, interner@) is None,
        },
{
    match t {
        HirType::Named(s) => Some(interner.resolve(*s).to_owned()),
        HirType::Generic(s, _) => Some(interner.resolve(*s).to_owned()),
        _ => None,
    }
}

/// The type name a method call on receiver `rid` is resolved on; see `type_text`.
fn receiver_type_name(types: &[HirType], rid: ExprId, self_ty: Option<&HirType>, interner: &Interner) -> (r: String)
    requires
        heads_ok(types@, first_of(self_ty), interner@.len()),
    ensures
        r@ == type_text(types@, rid, first_of(self_ty), interner@),
{
    let idx = rid.as_usize();
    let unknown_receiver = if idx < types.len() {
        match &types[idx] {
            HirType::Error | HirType::Int => true,
            _ => false,
        }
    } else {
        true
    };
    if unknown_receiver {
        match self_ty {
            Some(t) => match head_name(t, interner) {
                Some(x) => x,
                None => String::from_str("unknown"),
            },
            None => String::from_str("unknown"),
        }
    } else {
        proof {
            assert(head_ok(types@[idx as int], interner@.len()));
        }
        match head_name(&types[idx], interner) {
            Some(x) => x,
            None => String::from_str("unknown"),
        }
    }
}

/// Desugars the method calls in `e`; see `desugared`.
fn desugar_expr(e: HirExpr, types: &[HirType], self_ty: Option<&HirType>, interner: &mut Interner) -> (r: HirExpr)
    requires
        heads_ok(types@, first_of(self_ty), old(interner)@.len()),
        dsg_ok(e, old(interner)@.len()),
        old(interner)@.len() + dsg_count(e) < u32::MAX,
    ensures
        extends(old(interner)@, final(interner)@),
        final(interner)@.len() <= old(interner)@.len() + dsg_count(e),
        desugared(e, types@, first_of(self_ty), final(interner)@, r),
    decreases e, 0nat,
{
    let ghost s0 = interner@;
    let ghost e0 = e;
    match e {
        HirExpr::MethodCall { id, receiver, method_name, resolved_callee: _, args, span } => {
            let rid = receiver.get_id();
            let mut name = receiver_type_name(types, rid, self_ty, interner);
            name.append("_");
            name.append(interner.resolve(method_name));
            let callee = interner.intern(name.as_str());
            let ghost s1 = interner@;
            proof {
                assert(decreases_to!(e0 => e0->MethodCall_args));
                lemma_heads_ok_mono(types@, first_of(self_ty), s0.len(), s1.len());
                lemma_dsg_ok_mono(*receiver, s0.len(), s1.len());
                assert forall|i: int| 0 <= i < args@.len() implies dsg_ok(#[trigger] args@[i], s1.len()) by {
                    lemma_dsg_ok_mono(args@[i], s0.len(), s1.len());
                }
            }
            let r0 = desugar_expr(*receiver, types, self_ty, interner);
            let ghost s2 = interner@;
            proof {
                lemma_heads_ok_mono(types@, first_of(self_ty), s1.len(), s2.len());
                assert forall|i: int| 0 <= i < args@.len() implies dsg_ok(#[trigger] args@[i], s2.len()) by {
                    lemma_dsg_ok_mono(args@[i], s1.len(), s2.len());
                }
            }
            let ys = desugar_exprs(args, types, self_ty, interner);
            let ghost s3 = interner@;
            let mut full = ys;
            full.insert(0, r0);
            proof {
                assert(s1[callee.index() as int] == name@);
                lemma_callee_text_extends(types@, receiver.spec_id(), first_of(self_ty), method_name, s0, s3);
                assert(s3[callee.index() as int] == s1[callee.index() as int]);
                lemma_kept(*receiver, types@, first_of(self_ty), s0.len(), s2, s3, r0);
                assert(full@[0] == r0);
                assert forall|i: int| 0 <= i < args@.len() implies desugared(#[trigger] args@[i], types@, first_of(self_ty), s3, full@[i + 1]) by {
                    assert(full@[i + 1] == ys@[i]);
                }
            }
            HirExpr::Call { id, callee, args: full, span }
        },
        HirExpr::Call { id, callee, args, span } => {
            let ys = desugar_exprs(args, types, self_ty, interner);
            HirExpr::Call { id, callee, args: ys, span }
        },
        HirExpr::Block { id, stmts, span } => {
            let ys = desugar_stmts(stmts, types, self_ty, interner);
            HirExpr::Block { id, stmts: ys, span }
        },
        HirExpr::If { id, condition, then_branch, else_branch, span } => {
            let c = desugar_expr(*condition, types, self_ty, interner);
            let ghost s1 = interner@;
            proof {
                lemma_heads_ok_mono(types@, first_of(self_ty), s0.len(), s1.len());
                lemma_dsg_ok_mono(*then_branch, s0.len(), s1.len());
            }
            let t = desugar_expr(*then_branch, types, self_ty, interner);
            let ghost s2 = interner@;
            let x = match else_branch {
                Some(a) => {
                    proof {
                        lemma_heads_ok_mono(types@, first_of(self_ty), s0.len(), s2.len());
                        lemma_dsg_ok_mono(*a, s0.len(), s2.len());
                    }
                    Some(Box::new(desugar_expr(*a, types, self_ty, interner)))
                },
                None => None,
            };
            proof {
                let s3 = interner@;
                lemma_kept(*condition, types@, first_of(self_ty), s0.len(), s1, s3, c);
                lemma_kept(*then_branch, types@, first_of(self_ty), s0.len(), s2, s3, t);
            }
            HirExpr::If { id, condition: Box::new(c), then_branch: Box::new(t), else_branch: x, span }
        },
        HirExpr::Match { id, scrutinee, arms, span } => {
            let x = desugar_expr(*scrutinee, types, self_ty, interner);
            let ghost s1 = interner@;
            proof {
                assert(decreases_to!(e0 => e0->Match_arms));
                lemma_heads_ok_mono(types@, first_of(self_ty), s0.len(), s1.len());
                assert forall|i: int| 0 <= i < arms@.len() implies dsg_arm_ok(#[trigger] arms@[i], s1.len()) by {
                    lemma_dsg_arm_ok_mono(arms@[i], s0.len(), s1.len());
                }
            }
            let ys = desugar_arms(arms, types, self_ty, interner);
            proof {
                lemma_kept(*scrutinee, types@, first_of(self_ty), s0.len(), s1, interner@, x);
            }
            HirExpr::Match { id, scrutinee: Box::new(x), arms: ys, span }
        },
        HirExpr::While { id, condition, body, span } => {
            let c = desugar_expr(*condition, types, self_ty, interner);
            let ghost s1 = interner@;
            proof {
                lemma_heads_ok_mono(types@, first_of(self_ty), s0.len(), s1.len());
                lemma_dsg_ok_mono(*body, s0.len(), s1.len());
            }
            let b = desugar_expr(*body, types, self_ty, interner);
            proof {
                lemma_kept(*condition, types@, first_of(self_ty), s0.len(), s1, interner@, c);
            }
            HirExpr::While { id, condition: Box::new(c), body: Box::new(b), span }
        },
        HirExpr::ForIn { id, pattern, iter, body, span } => {
            let it = desugar_expr(*iter, types, self_ty, interner);
            let ghost s1 = interner@;
            proof {
                lemma_heads_ok_mono(types@, first_of(self_ty), s0.len(), s1.len());
                lemma_dsg_ok_mono(*body, s0.len(), s1.len());
            }
            let b = desugar_expr(*body, types, self_ty, interner);
            proof {
                lemma_kept(*iter, types@, first_of(self_ty), s0.len(), s1, interner@, it);
            }
            HirExpr::ForIn { id, pattern, iter: Box::new(it), body: Box::new(b), span }
        },
        HirExpr::Binary { id, op, lhs, rhs, span } => {
            let l = desugar_expr(*lhs, types, self_ty, interner);
            let ghost s1 = interner@;
            proof {
                lemma_heads_ok_mono(types@, first_of(self_ty), s0.len(), s1.len());
                lemma_dsg_ok_mono(*rhs, s0.len(), s1.len());
            }
            let r = desugar_expr(*rhs, types, self_ty, interner);
            proof {
                lemma_kept(*lhs, types@, first_of(self_ty), s0.len(), s1, interner@, l);
            }
            HirExpr::Binary { id, op, lhs: Box::new(l), rhs: Box::new(r), span }
        },
        HirExpr::Unary { id, op, operand, span } => {
            let x = desugar_expr(*operand, types, self_ty, interner);
            HirExpr::Unary { id, op, operand: Box::new(x), span }
        },
        HirExpr::Deref { id, expr, span } => {
            let x = desugar_expr(*expr, types, self_ty, interner);
            HirExpr::Deref { id, expr: Box::new(x), span }
        },
        HirExpr::As { id, expr, target_type, span } => {
            let x = desugar_expr(*expr, types, self_ty, interner);
            HirExpr::As { id, expr: Box::new(x), target_type, span }
        },
        HirExpr::FieldAccess { id, object, field, span } => {
            let x = desugar_expr(*object, types, self_ty, interner);
            HirExpr::FieldAccess { id, object: Box::new(x), field, span }
        },
        HirExpr::StructLit { id, struct_name, fields, span } => {
            let ys = desugar_fields(fields, types, self_ty, interner);
            HirExpr::StructLit { id, struct_name, fields: ys, span }
        },
        HirExpr::EnumVariant { id, enum_name, variant_name, args, span } => {
            let ys = desugar_exprs(args, types, self_ty, interner);
            HirExpr::EnumVariant { id, enum_name, variant_name, args: ys, span }
        },
        HirExpr::TupleLit { id, elements, span } => {
            let ys = desugar_exprs(elements, types, self_ty, interner);
            HirExpr::TupleLit { id, elements: ys, span }
        },
        HirExpr::Println { id, arg, span } => {
            let x = desugar_expr(*arg, types, self_ty, interner);
            HirExpr::Println { id, arg: Box::new(x), span }
        },
        HirExpr::Assert { id, condition, message, span } => {
            let c = desugar_expr(*condition, types, self_ty, interner);
            let ghost s1 = interner@;
            let m = match message {
                Some(a) => {
                    proof {
                        lemma_heads_ok_mono(types@, first_of(self_ty), s0.len(), s1.len());
                        lemma_dsg_ok_mono(*a, s0.len(), s1.len());
                    }
                    Some(Box::new(desugar_expr(*a, types, self_ty, interner)))
                },
                None => None,
            };
            proof {
                lemma_kept(*condition, types@, first_of(self_ty), s0.len(), s1, interner@, c);
            }
            HirExpr::Assert { id, condition: Box::new(c), message: m, span }
        },
        other => other,
    }
}

/// Desugars the expressions of `xs` in turn.
#[verifier::loop_isolation(false)]
fn desugar_exprs(xs: Vec<HirExpr>, types: &[HirType], self_ty: Option<&HirType>, interner: &mut Interner) -> (r: Vec<HirExpr>)
    requires
        heads_ok(types@, first_of(self_ty), old(interner)@.len()),
        forall|i: int| 0 <= i < xs@.len() ==> dsg_ok(#[trigger] xs@[i], old(interner)@.len()),
        old(interner)@.len() + dsg_counts(xs, xs@.len()) < u32::MAX,
    ensures
        extends(old(interner)@, final(interner)@),
        final(interner)@.len() <= old(interner)@.len() + dsg_counts(xs, xs@.len()),
        r@.len() == xs@.len(),
        forall|i: int| 0 <= i < xs@.len() ==> desugared(#[trigger] xs@[i], types@, first_of(self_ty), final(interner)@, r@[i]),
    decreases xs, 0nat,
{
    let ghost s0 = interner@;
    let ghost all = xs;
    let total = xs.len();
    let mut rest = xs;
    let mut out: Vec<HirExpr> = Vec::new();
    let mut n: usize = 0;
    while n < total
        invariant
            all@.len() == total,
            all@.len() == n + rest@.len(),
            rest@ == all@.skip(n as int),
            out@.len() == n,
            s0 == old(interner)@,
            extends(s0, interner@),
            interner@.len() <= s0.len() + dsg_counts(all, n as nat),
            s0.len() + dsg_counts(all, all@.len()) < u32::MAX,
            heads_ok(types@, first_of(self_ty), s0.len()),
            forall|k: int| 0 <= k < all@.len() ==> dsg_ok(#[trigger] all@[k], s0.len()),
            forall|k: int| 0 <= k < n ==> desugared(#[trigger] all@[k], types@, first_of(self_ty), interner@, out@[k]),
        decreases rest@.len(),
    {
        let x = rest.remove(0);
        let ghost before = interner@;
        proof {
            assert(all@[n as int] == x);
            assert(rest@ == all@.skip(n + 1));
            assert(decreases_to!(all => all@[n as int]));
            lemma_dsg_counts_mono(all, (n + 1) as nat, all@.len());
            lemma_heads_ok_mono(types@, first_of(self_ty), s0.len(), before.len());
            lemma_dsg_ok_mono(x, s0.len(), before.len());
        }
        let y = desugar_expr(x, types, self_ty, interner);
        proof {
            assert forall|k: int| 0 <= k < n implies desugared(#[trigger] all@[k], types@, first_of(self_ty), interner@, out@[k]) by {
                lemma_dsg_ok_mono(all@[k], s0.len(), before.len());
                lemma_desugared_extends(all@[k], types@, first_of(self_ty), before, interner@, out@[k]);
            }
        }
        out.push(y);
        n = n + 1;
    }
    out
}

/// Desugars the values of the named fields of `xs` in turn.
#[verifier::loop_isolation(false)]
fn desugar_fields(xs: Vec<(Symbol, HirExpr)>, types: &[HirType], self_ty: Option<&HirType>, interner: &mut Interner) -> (r: Vec<(Symbol, HirExpr)>)
    requires
        heads_ok(types@, first_of(self_ty), old(interner)@.len()),
        forall|i: int| 0 <= i < xs@.len() ==> dsg_ok((#[trigger] xs@[i]).1, old(interner)@.len()),
        old(interner)@.len() + dsg_fields_count(xs, xs@.len()) < u32::MAX,
    ensures
        extends(old(interner)@, final(interner)@),
        final(interner)@.len() <= old(interner)@.len() + dsg_fields_count(xs, xs@.len()),
        r@.len() == xs@.len(),
        forall|i: int| 0 <= i < xs@.len() ==> (#[trigger] r@[i]).0 == xs@[i].0
            && desugared(xs@[i].1, types@, first_of(self_ty), final(interner)@, r@[i].1),
    decreases xs, 0nat,
{
    let ghost s0 = interner@;
    let ghost all = xs;
    let total = xs.len();
    let mut rest = xs;
    let mut out: Vec<(Symbol, HirExpr)> = Vec::new();
    let mut n: usize = 0;
    while n < total
        invariant
            all@.len() == total,
            all@.len() == n + rest@.len(),
            rest@ == all@.skip(n as int),
            out@.len() == n,
            s0 == old(interner)@,
            extends(s0, interner@),
            interner@.len() <= s0.len() + dsg_fields_count(all, n as nat),
            s0.len() + dsg_fields_count(all, all@.len()) < u32::MAX,
            heads_ok(types@, first_of(self_ty), s0.len()),
            forall|k: int| 0 <= k < all@.len() ==> dsg_ok((#[trigger] all@[k]).1, s0.len()),
            forall|k: int| 0 <= k < n ==> (#[trigger] out@[k]).0 == all@[k].0
                && desugared(all@[k].1, types@, first_of(self_ty), interner@, out@[k].1),
        decreases rest@.len(),
    {
        let (f, x) = rest.remove(0);
        let ghost before = interner@;
        proof {
            assert(all@[n as int] == (f, x));
            assert(rest@ == all@.skip(n + 1));
            assert(decreases_to!(all => all@[n as int]));
            assert(decreases_to!(all@[n as int] => all@[n as int].1));
            lemma_dsg_fields_count_mono(all, (n + 1) as nat, all@.len());
            lemma_heads_ok_mono(types@, first_of(self_ty), s0.len(), before.len());
            lemma_dsg_ok_mono(x, s0.len(), before.len());
        }
        let y = desugar_expr(x, types, self_ty, interner);
        proof {
            assert forall|k: int| 0 <= k < n implies (#[trigger] out@[k]).0 == all@[k].0
                && desugared(all@[k].1, types@, first_of(self_ty), interner@, out@[k].1) by {
                lemma_dsg_ok_mono(all@[k].1, s0.len(), before.len());
                lemma_desugared_extends(all@[k].1, types@, first_of(self_ty), before, interner@, out@[k].1);
            }
        }
        out.push((f, y));
        n = n + 1;
    }
    out
}

/// Desugars the expressions of a statement.
fn desugar_stmt(s: HirStmt, types: &[HirType], self_ty: Option<&HirType>, interner: &mut Interner) -> (r: HirStmt)
    requires
        heads_ok(types@, first_of(self_ty), old(interner)@.len()),
        dsg_stmt_ok(s, old(interner)@.len()),
        old(interner)@.len() + dsg_stmt_count(s) < u32::MAX,
    ensures
        extends(old(interner)@, final(interner)@),
        final(interner)@.len() <= old(interner)@.len() + dsg_stmt_count(s),
        stmt_desugared(s, types@, first_of(self_ty), final(interner)@, r),
    decreases s, 0nat,
{
    let ghost s0 = interner@;
    match s {
        HirStmt::Let { name, mutable, value, span } => {
            let v = desugar_expr(value, types, self_ty, interner);
            HirStmt::Let { name, mutable, value: v, span }
        },
        HirStmt::LetPat { pattern, mutable, value, ty, span } => {
            let v = desugar_expr(value, types, self_ty, interner);
            HirStmt::LetPat { pattern, mutable, value: v, ty, span }
        },
        HirStmt::Assign { target, value, span } => {
            let v = desugar_expr(value, types, self_ty, interner);
            HirStmt::Assign { target, value: v, span }
        },
        HirStmt::AssignDeref { target, value, span } => {
            let t = desugar_expr(*target, types, self_ty, interner);
            let ghost s1 = interner@;
            proof {
                lemma_heads_ok_mono(types@, first_of(self_ty), s0.len(), s1.len());
                lemma_dsg_ok_mono(value, s0.len(), s1.len());
            }
            let v = desugar_expr(value, types, self_ty, interner);
            proof {
                lemma_kept(*target, types@, first_of(self_ty), s0.len(), s1, interner@, t);
            }
            HirStmt::AssignDeref { target: Box::new(t), value: v, span }
        },
        HirStmt::AssignField { object, field, value, span } => {
            let o = desugar_expr(*object, types, self_ty, interner);
            let ghost s1 = interner@;
            proof {
                lemma_heads_ok_mono(types@, first_of(self_ty), s0.len(), s1.len());
                lemma_dsg_ok_mono(value, s0.len(), s1.len());
            }
            let v = desugar_expr(value, types, self_ty, interner);
            proof {
                lemma_kept(*object, types@, first_of(self_ty), s0.len(), s1, interner@, o);
            }
            HirStmt::AssignField { object: Box::new(o), field, value: v, span }
        },
        HirStmt::Expr(x) => HirStmt::Expr(desugar_expr(x, types, self_ty, interner)),
    }
}

/// Desugars the statements of `xs` in turn.
#[verifier::loop_isolation(false)]
fn desugar_stmts(xs: Vec<HirStmt>, types: &[HirType], self_ty: Option<&HirType>, interner: &mut Interner) -> (r: Vec<HirStmt>)
    requires
        heads_ok(types@, first_of(self_ty), old(interner)@.len()),
        forall|i: int| 0 <= i < xs@.len() ==> dsg_stmt_ok(#[trigger] xs@[i], old(interner)@.len()),
        old(interner)@.len() + dsg_stmts_count(xs, xs@.len()) < u32::MAX,
    ensures
        extends(old(interner)@, final(interner)@),
        final(interner)@.len() <= old(interner)@.len() + dsg_stmts_count(xs, xs@.len()),
        r@.len() == xs@.len(),
        forall|i: int| 0 <= i < xs@.len() ==> stmt_desugared(#[trigger] xs@[i], types@, first_of(self_ty), final(interner)@, r@[i]),
    decreases xs, 0nat,
{
    let ghost s0 = interner@;
    let ghost all = xs;
    let total = xs.len();
    let mut rest = xs;
    let mut out: Vec<HirStmt> = Vec::new();
    let mut n: usize = 0;
    while n < total
        invariant
            all@.len() == total,
            all@.len() == n + rest@.len(),
            rest@ == all@.skip(n as int),
            out@.len() == n,
            s0 == old(interner)@,
            extends(s0, interner@),
            interner@.len() <= s0.len() + dsg_stmts_count(all, n as nat),
            s0.len() + dsg_stmts_count(all, all@.len()) < u32::MAX,
            heads_ok(types@, first_of(self_ty), s0.len()),
            forall|k: int| 0 <= k < all@.len() ==> dsg_stmt_ok(#[trigger] all@[k], s0.len()),
            forall|k: int| 0 <= k < n ==> stmt_desugared(#[trigger] all@[k], types@, first_of(self_ty), interner@, out@[k]),
        decreases rest@.len(),
    {
        let x = rest.remove(0);
        let ghost before = interner@;
        proof {
            assert(all@[n as int] == x);
            assert(rest@ == all@.skip(n + 1));
            assert(decreases_to!(all => all@[n as int]));
            lemma_dsg_stmts_count_mono(all, (n + 1) as nat, all@.len());
            lemma_heads_ok_mono(types@, first_of(self_ty), s0.len(), before.len());
            lemma_dsg_stmt_ok_mono(x, s0.len(), before.len());
        }
        let y = desugar_stmt(x, types, self_ty, interner);
        proof {
            assert forall|k: int| 0 <= k < n implies stmt_desugared(#[trigger] all@[k], types@, first_of(self_ty), interner@, out@[k]) by {
                lemma_dsg_stmt_ok_mono(all@[k], s0.len(), before.len());
                lemma_stmt_desugared_extends(all@[k], types@, first_of(self_ty), before, interner@, out@[k]);
            }
        }
        out.push(y);
        n = n + 1;
    }
    out
}

/// The method calls that desugaring reaches in arm `a` have interned method names.
pub open spec fn dsg_arm_ok(a: MatchArm, n: nat) -> bool {
    &&& match a.guard {
        Some(g) => dsg_ok(g, n),
        None => true,
    }
    &&& dsg_ok(a.body, n)
}

/// The arm desugared: pattern kept, guard and body desugared.
pub open spec fn arm_desugared(a: MatchArm, types: Seq<HirType>, self_ty: Option<HirType>, strs: Seq<Seq<char>>, out: MatchArm) -> bool {
    &&& out.pattern == a.pattern
    &&& match a.guard {
        Some(g) => out.guard matches Some(h) && desugared(g, types, self_ty, strs, h),
        None => out.guard is None,
    }
    &&& desugared(a.body, types, self_ty, strs, out.body)
}

/// Desugars the guards and bodies of the arms of `xs` in turn.
#[verifier::loop_isolation(false)]
fn desugar_arms(xs: Vec<MatchArm>, types: &[HirType], self_ty: Option<&HirType>, interner: &mut Interner) -> (r: Vec<MatchArm>)
    requires
        heads_ok(types@, first_of(self_ty), old(interner)@.len()),
        forall|i: int| 0 <= i < xs@.len() ==> dsg_arm_ok(#[trigger] xs@[i], old(interner)@.len()),
        old(interner)@.len() + dsg_arms_count(xs, xs@.len()) < u32::MAX,
    ensures
        extends(old(interner)@, final(interner)@),
        final(interner)@.len() <= old(interner)@.len() + dsg_arms_count(xs, xs@.len()),
        r@.len() == xs@.len(),
        forall|i: int| 0 <= i < xs@.len() ==> arm_desugared(#[trigger] xs@[i], types@, first_of(self_ty), final(interner)@, r@[i]),
    decreases xs, 0nat,
{
    let ghost s0 = interner@;
    let ghost all = xs;
    let total = xs.len();
    let mut rest = xs;
    let mut out: Vec<MatchArm> = Vec::new();
    let mut n: usize = 0;
    while n < total
        invariant
            all@.len() == total,
            all@.len() == n + rest@.len(),
            rest@ == all@.skip(n as int),
            out@.len() == n,
            s0 == old(interner)@,
            extends(s0, interner@),
            interner@.len() <= s0.len() + dsg_arms_count(all, n as nat),
            s0.len() + dsg_arms_count(all, all@.len()) < u32::MAX,
            heads_ok(types@, first_of(self_ty), s0.len()),
            forall|k: int| 0 <= k < all@.len() ==> dsg_arm_ok(#[trigger] all@[k], s0.len()),
            forall|k: int| 0 <= k < n ==> arm_desugared(#[trigger] all@[k], types@, first_of(self_ty), interner@, out@[k]),
        decreases rest@.len(),
    {
        let arm = rest.remove(0);
        let ghost before = interner@;
        proof {
            assert(all@[n as int] == arm);
            assert(rest@ == all@.skip(n + 1));
            assert(decreases_to!(all => all@[n as int]));
            lemma_dsg_arms_count_mono(all, (n + 1) as nat, all@.len());
            lemma_heads_ok_mono(types@, first_of(self_ty), s0.len(), before.len());
            lemma_dsg_arm_ok_mono(arm, s0.len(), before.len());
            assert(dsg_arms_count(all, (n + 1) as nat) == dsg_arms_count(all, n as nat) + dsg_arm_count(arm));
        }
        let ghost arm0 = arm;
        let MatchArm { pattern, guard, body } = arm;
        let ghost guard0 = guard;
        proof {
            let gc: nat = match guard0 {
                Some(x) => dsg_count(x),
                None => 0,
            };
            assert(dsg_arm_count(arm0) == gc + dsg_count(body));
        }
        let g = match guard {
            Some(x) => Some(desugar_expr(x, types, self_ty, interner)),
            None => None,
        };
        let ghost mid = interner@;
        proof {
            lemma_heads_ok_mono(types@, first_of(self_ty), s0.len(), mid.len());
            lemma_dsg_ok_mono(body, s0.len(), mid.len());
        }
        let b = desugar_expr(body, types, self_ty, interner);
        proof {
            match guard0 {
                Some(x) => {
                    lemma_dsg_ok_mono(x, s0.len(), before.len());
                    lemma_kept(x, types@, first_of(self_ty), s0.len(), mid, interner@, g->Some_0);
                },
                None => {},
            }
            assert forall|k: int| 0 <= k < n implies arm_desugared(#[trigger] all@[k], types@, first_of(self_ty), interner@, out@[k]) by {
                lemma_dsg_arm_ok_mono(all@[k], s0.len(), before.len());
                let a = all@[k];
                match a.guard {
                    Some(x) => {
                        lemma_desugared_extends(x, types@, first_of(self_ty), before, interner@, out@[k].guard->Some_0);
                    },
                    None => {},
                }
                lemma_desugared_extends(a.body, types@, first_of(self_ty), before, interner@, out@[k].body);
            }
        }
        out.push(MatchArm { pattern, guard: g, body: b });
        n = n + 1;
    }
    out
}

/// Desugaring done against a table stays correct as the table grows, given the names
/// it reads were interned at the start.
proof fn lemma_kept(e: HirExpr, types: Seq<HirType>, self_ty: Option<HirType>, n: nat,
    small: Seq<Seq<char>>, big: Seq<Seq<char>>, out: HirExpr)
    requires
        dsg_ok(e, n),
        heads_ok(types, self_ty, n),
        n <= small.len(),
        desugared(e, types, self_ty, small, out),
        extends(small, big),
    ensures
        desugared(e, types, self_ty, big, out),
{
    lemma_dsg_ok_mono(e, n, small.len());
    lemma_heads_ok_mono(types, self_ty, n, small.len());
    lemma_desugared_extends(e, types, self_ty, small, big, out);
}

/// A name bound holds for any larger bound.
proof fn lemma_heads_ok_mono(types: Seq<HirType>, self_ty: Option<HirType>, n: nat, m: nat)
    requires
        heads_ok(types, self_ty, n),
        n <= m,
    ensures
        heads_ok(types, self_ty, m),
{
    assert forall|i: int| 0 <= i < types.len() implies head_ok(#[trigger] types[i], m) by {
        assert(head_ok(types[i], n));
    }
}

/// Method names below a bound are below any larger bound.
proof fn lemma_dsg_ok_mono(e: HirExpr, n: nat, m: nat)
    requires
        dsg_ok(e, n),
        n <= m,
    ensures
        dsg_ok(e, m),
    decreases e, 0nat,
{
    match e {
        HirExpr::MethodCall { receiver, args, .. } => {
            lemma_dsg_ok_mono(*receiver, n, m);
            assert forall|i: int| 0 <= i < args@.len() implies dsg_ok(#[trigger] args@[i], m) by {
                assert(decreases_to!(e => e->MethodCall_args));
                lemma_dsg_ok_mono(args@[i], n, m);
            }
        },
        HirExpr::Call { args, .. } => {
            assert forall|i: int| 0 <= i < args@.len() implies dsg_ok(#[trigger] args@[i], m) by {
                assert(decreases_to!(e => e->Call_args));
                lemma_dsg_ok_mono(args@[i], n, m);
            }
        },
        HirExpr::EnumVariant { args, .. } => {
            assert forall|i: int| 0 <= i < args@.len() implies dsg_ok(#[trigger] args@[i], m) by {
                assert(decreases_to!(e => e->EnumVariant_args));
                lemma_dsg_ok_mono(args@[i], n, m);
            }
        },
        HirExpr::TupleLit { elements, .. } => {
            assert forall|i: int| 0 <= i < elements@.len() implies dsg_ok(#[trigger] elements@[i], m) by {
                assert(decreases_to!(e => e->TupleLit_elements));
                lemma_dsg_ok_mono(elements@[i], n, m);
            }
        },
        HirExpr::StructLit { fields, .. } => {
            assert forall|i: int| 0 <= i < fields@.len() implies dsg_ok((#[trigger] fields@[i]).1, m) by {
                assert(decreases_to!(e => e->StructLit_fields));
                assert(decreases_to!(fields => fields@[i]));
                lemma_dsg_ok_mono(fields@[i].1, n, m);
            }
        },
        HirExpr::Block { stmts, .. } => {
            assert forall|i: int| 0 <= i < stmts@.len() implies dsg_stmt_ok(#[trigger] stmts@[i], m) by {
                assert(decreases_to!(e => e->Block_stmts));
                lemma_dsg_stmt_ok_mono(stmts@[i], n, m);
            }
        },
        HirExpr::Match { scrutinee, arms, .. } => {
            lemma_dsg_ok_mono(*scrutinee, n, m);
            assert forall|i: int| 0 <= i < arms@.len() implies {
                &&& match (#[trigger] arms@[i]).guard {
                    Some(g) => dsg_ok(g, m),
                    None => true,
                }
                &&& dsg_ok(arms@[i].body, m)
            } by {
                assert(decreases_to!(e => e->Match_arms));
                assert(decreases_to!(arms => arms@[i]));
                match arms@[i].guard {
                    Some(g) => lemma_dsg_ok_mono(g, n, m),
                    None => {},
                }
                lemma_dsg_ok_mono(arms@[i].body, n, m);
            }
        },
        HirExpr::If { condition, then_branch, else_branch, .. } => {
            lemma_dsg_ok_mono(*condition, n, m);
            lemma_dsg_ok_mono(*then_branch, n, m);
            match else_branch {
                Some(x) => lemma_dsg_ok_mono(*x, n, m),
                None => {},
            }
        },
        HirExpr::Assert { condition, message, .. } => {
            lemma_dsg_ok_mono(*condition, n, m);
            match message {
                Some(x) => lemma_dsg_ok_mono(*x, n, m),
                None => {},
            }
        },
        HirExpr::While { condition, body, .. } => {
            lemma_dsg_ok_mono(*condition, n, m);
            lemma_dsg_ok_mono(*body, n, m);
        },
        HirExpr::ForIn { iter, body, .. } => {
            lemma_dsg_ok_mono(*iter, n, m);
            lemma_dsg_ok_mono(*body, n, m);
        },
        HirExpr::Binary { lhs, rhs, .. } => {
            lemma_dsg_ok_mono(*lhs, n, m);
            lemma_dsg_ok_mono(*rhs, n, m);
        },
        HirExpr::Unary { operand, .. } => lemma_dsg_ok_mono(*operand, n, m),
        HirExpr::Deref { expr, .. } => lemma_dsg_ok_mono(*expr, n, m),
        HirExpr::As { expr, .. } => lemma_dsg_ok_mono(*expr, n, m),
        HirExpr::FieldAccess { object, .. } => lemma_dsg_ok_mono(*object, n, m),
        HirExpr::Println { arg, .. } => lemma_dsg_ok_mono(*arg, n, m),
        _ => {},
    }
}

/// Method names below a bound are below any larger bound.
proof fn lemma_dsg_stmt_ok_mono(s: HirStmt, n: nat, m: nat)
    requires
        dsg_stmt_ok(s, n),
        n <= m,
    ensures
        dsg_stmt_ok(s, m),
    decreases s, 0nat,
{
    match s {
        HirStmt::Let { value, .. } => lemma_dsg_ok_mono(value, n, m),
        HirStmt::LetPat { value, .. } => lemma_dsg_ok_mono(value, n, m),
        HirStmt::Assign { value, .. } => lemma_dsg_ok_mono(value, n, m),
        HirStmt::AssignDeref { target, value, .. } => {
            lemma_dsg_ok_mono(*target, n, m);
            lemma_dsg_ok_mono(value, n, m);
        },
        HirStmt::AssignField { object, value, .. } => {
            lemma_dsg_ok_mono(*object, n, m);
            lemma_dsg_ok_mono(value, n, m);
        },
        HirStmt::Expr(x) => lemma_dsg_ok_mono(x, n, m),
    }
}

/// Method names below a bound are below any larger bound.
proof fn lemma_dsg_arm_ok_mono(a: MatchArm, n: nat, m: nat)
    requires
        dsg_arm_ok(a, n),
        n <= m,
    ensures
        dsg_arm_ok(a, m),
{
    match a.guard {
        Some(g) => lemma_dsg_ok_mono(g, n, m),
        None => {},
    }
    lemma_dsg_ok_mono(a.body, n, m);
}

/// Sums over longer prefixes are larger.
proof fn lemma_dsg_counts_mono(xs: Vec<HirExpr>, n: nat, m: nat)
    requires
        n <= m <= xs@.len(),
    ensures
        dsg_counts(xs, n) <= dsg_counts(xs, m),
    decreases m,
{
    if n < m {
        lemma_dsg_counts_mono(xs, n, (m - 1) as nat);
    }
}

/// Sums over longer prefixes are larger.
proof fn lemma_dsg_fields_count_mono(xs: Vec<(Symbol, HirExpr)>, n: nat, m: nat)
    requires
        n <= m <= xs@.len(),
    ensures
        dsg_fields_count(xs, n) <= dsg_fields_count(xs, m),
    decreases m,
{
    if n < m {
        lemma_dsg_fields_count_mono(xs, n, (m - 1) as nat);
    }
}

/// Sums over longer prefixes are larger.
proof fn lemma_dsg_stmts_count_mono(xs: Vec<HirStmt>, n: nat, m: nat)
    requires
        n <= m <= xs@.len(),
    ensures
        dsg_stmts_count(xs, n) <= dsg_stmts_count(xs, m),
    decreases m,
{
    if n < m {
        lemma_dsg_stmts_count_mono(xs, n, (m - 1) as nat);
    }
}

/// Sums over longer prefixes are larger.
proof fn lemma_dsg_arms_count_mono(xs: Vec<MatchArm>, n: nat, m: nat)
    requires
        n <= m <= xs@.len(),
    ensures
        dsg_arms_count(xs, n) <= dsg_arms_count(xs, m),
    decreases m,
{
    if n < m {
        lemma_dsg_arms_count_mono(xs, n, (m - 1) as nat);
    }
}


/// The type of a function's first parameter, which stands for `self` in its body.
pub open spec fn first_param_type(f: HirFn) -> Option<HirType> {
    if f.params@.len() > 0 { Some(f.params@[0].1) } else { None }
}

/// The names that desugaring of `f` reads are interned below `n`.
pub open spec fn fn_ready(f: HirFn, types: Seq<HirType>, n: nat) -> bool {
    heads_ok(types, first_param_type(f), n) && dsg_ok(f.body, n)
}

/// The names that desugaring of `it` reads are interned below `n`.
pub open spec fn item_ready(it: HirItem, types: Seq<HirType>, n: nat) -> bool {
    match it {
        HirItem::Fn(f) => fn_ready(f, types, n),
        HirItem::Impl(d) => forall|i: int| 0 <= i < d.methods@.len() ==> fn_ready(#[trigger] d.methods@[i], types, n),
        _ => true,
    }
}

/// The names that desugaring of the whole program reads are interned below `n`.
pub open spec fn hir_ready(hir: Hir, types: Seq<HirType>, n: nat) -> bool {
    forall|i: int| 0 <= i < hir.items@.len() ==> item_ready(#[trigger] hir.items@[i], types, n)
}

/// The method calls in the bodies of the first `n` functions of `xs`.
pub open spec fn fns_count(xs: Vec<HirFn>, n: nat) -> nat
    decreases n,
{
    if n == 0 || n > xs@.len() { 0 } else { fns_count(xs, (n - 1) as nat) + dsg_count(xs@[n - 1].body) }
}

/// The method calls that desugaring of `it` reaches.
pub open spec fn item_count(it: HirItem) -> nat {
    match it {
        HirItem::Fn(f) => dsg_count(f.body),
        HirItem::Impl(d) => fns_count(d.methods, d.methods@.len()),
        _ => 0,
    }
}

/// The method calls that desugaring of the first `n` items of `xs` reaches.
pub open spec fn items_count(xs: Vec<HirItem>, n: nat) -> nat
    decreases n,
{
    if n == 0 || n > xs@.len() { 0 } else { items_count(xs, (n - 1) as nat) + item_count(xs@[n - 1]) }
}

/// `g` is `f` with its body desugared, its first parameter's type standing for `self`.
pub open spec fn fn_desugared(f: HirFn, types: Seq<HirType>, strs: Seq<Seq<char>>, g: HirFn) -> bool {
    &&& g.doc == f.doc
    &&& g.name == f.name
    &&& g.type_params == f.type_params
    &&& g.params == f.params
    &&& g.param_mutability == f.param_mutability
    &&& g.ret == f.ret
    &&& g.span == f.span
    &&& g.is_pub == f.is_pub
    &&& g.is_macro_generated == f.is_macro_generated
    &&& g.is_extern_backed == f.is_extern_backed
    &&& desugared(f.body, types, first_param_type(f), strs, g.body)
}

/// `out` is item `it` desugared: a function's body, or each method of an `impl`; other
/// items are unchanged.
pub open spec fn item_desugared(it: HirItem, types: Seq<HirType>, strs: Seq<Seq<char>>, out: HirItem) -> bool {
    match it {
        HirItem::Fn(f) => out matches HirItem::Fn(g) && fn_desugared(f, types, strs, g),
        HirItem::Impl(d) => out matches HirItem::Impl(e) && e.doc == d.doc && e.target_name == d.target_name
            && e.type_params == d.type_params && e.span == d.span && e.is_pub == d.is_pub
            && e.methods@.len() == d.methods@.len()
            && forall|i: int| 0 <= i < d.methods@.len() ==> fn_desugared(#[trigger] d.methods@[i], types, strs, e.methods@[i]),
        _ => out == it,
    }
}

/// A desugared function stays so as the table grows.
proof fn lemma_fn_kept(f: HirFn, types: Seq<HirType>, n: nat, small: Seq<Seq<char>>, big: Seq<Seq<char>>, g: HirFn)
    requires
        fn_ready(f, types, n),
        n <= small.len(),
        fn_desugared(f, types, small, g),
        extends(small, big),
    ensures
        fn_desugared(f, types, big, g),
{
    lemma_kept(f.body, types, first_param_type(f), n, small, big, g.body);
}

/// A desugared item stays so as the table grows.
proof fn lemma_item_kept(it: HirItem, types: Seq<HirType>, n: nat, small: Seq<Seq<char>>, big: Seq<Seq<char>>, out: HirItem)
    requires
        item_ready(it, types, n),
        n <= small.len(),
        item_desugared(it, types, small, out),
        extends(small, big),
    ensures
        item_desugared(it, types, big, out),
{
    match it {
        HirItem::Fn(f) => lemma_fn_kept(f, types, n, small, big, out->Fn_0),
        HirItem::Impl(d) => {
            let e = out->Impl_0;
            assert forall|i: int| 0 <= i < d.methods@.len() implies fn_desugared(#[trigger] d.methods@[i], types, big, e.methods@[i]) by {
                lemma_fn_kept(d.methods@[i], types, n, small, big, e.methods@[i]);
            }
        },
        _ => {},
    }
}

/// Sums over longer prefixes are larger.
proof fn lemma_fns_count_mono(xs: Vec<HirFn>, n: nat, m: nat)
    requires
        n <= m <= xs@.len(),
    ensures
        fns_count(xs, n) <= fns_count(xs, m),
    decreases m,
{
    if n < m {
        lemma_fns_count_mono(xs, n, (m - 1) as nat);
    }
}

/// Sums over longer prefixes are larger.
proof fn lemma_items_count_mono(xs: Vec<HirItem>, n: nat, m: nat)
    requires
        n <= m <= xs@.len(),
    ensures
        items_count(xs, n) <= items_count(xs, m),
    decreases m,
{
    if n < m {
        lemma_items_count_mono(xs, n, (m - 1) as nat);
    }
}

/// Desugars the body of `f`, its first parameter's type standing for `self`.
fn desugar_fn(f: HirFn, types: &[HirType], interner: &mut Interner) -> (g: HirFn)
    requires
        fn_ready(f, types@, old(interner)@.len()),
        old(interner)@.len() + dsg_count(f.body) < u32::MAX,
    ensures
        extends(old(interner)@, final(interner)@),
        final(interner)@.len() <= old(interner)@.len() + dsg_count(f.body),
        fn_desugared(f, types@, final(interner)@, g),
{
    let ghost f0 = f;
    let HirFn { doc, name, type_params, params, param_mutability, ret, body, span, is_pub, is_macro_generated, is_extern_backed } = f;
    let self_ty: Option<&HirType> = if params.len() > 0 { Some(&params[0].1) } else { None };
    proof {
        assert(first_of(self_ty) == first_param_type(f0));
    }
    let b = desugar_expr(body, types, self_ty, interner);
    HirFn { doc, name, type_params, params, param_mutability, ret, body: b, span, is_pub, is_macro_generated, is_extern_backed }
}

/// Desugars the bodies of the methods of `xs` in turn.
#[verifier::loop_isolation(false)]
fn desugar_methods(xs: Vec<HirFn>, types: &[HirType], interner: &mut Interner) -> (r: Vec<HirFn>)
    requires
        forall|i: int| 0 <= i < xs@.len() ==> fn_ready(#[trigger] xs@[i], types@, old(interner)@.len()),
        old(interner)@.len() + fns_count(xs, xs@.len()) < u32::MAX,
    ensures
        extends(old(interner)@, final(interner)@),
        final(interner)@.len() <= old(interner)@.len() + fns_count(xs, xs@.len()),
        r@.len() == xs@.len(),
        forall|i: int| 0 <= i < xs@.len() ==> fn_desugared(#[trigger] xs@[i], types@, final(interner)@, r@[i]),
{
    let ghost s0 = interner@;
    let ghost all = xs;
    let total = xs.len();
    let mut rest = xs;
    let mut out: Vec<HirFn> = Vec::new();
    let mut n: usize = 0;
    while n < total
        invariant
            all@.len() == total,
            all@.len() == n + rest@.len(),
            rest@ == all@.skip(n as int),
            out@.len() == n,
            s0 == old(interner)@,
            extends(s0, interner@),
            interner@.len() <= s0.len() + fns_count(all, n as nat),
            s0.len() + fns_count(all, all@.len()) < u32::MAX,
            forall|k: int| 0 <= k < all@.len() ==> fn_ready(#[trigger] all@[k], types@, s0.len()),
            forall|k: int| 0 <= k < n ==> fn_desugared(#[trigger] all@[k], types@, interner@, out@[k]),
        decreases total - n,
    {
        let f = rest.remove(0);
        let ghost before = interner@;
        proof {
            assert(all@[n as int] == f);
            assert(rest@ == all@.skip(n + 1));
            lemma_fns_count_mono(all, (n + 1) as nat, all@.len());
            lemma_heads_ok_mono(types@, first_param_type(f), s0.len(), before.len());
            lemma_dsg_ok_mono(f.body, s0.len(), before.len());
        }
        let g = desugar_fn(f, types, interner);
        proof {
            assert forall|k: int| 0 <= k < n implies fn_desugared(#[trigger] all@[k], types@, interner@, out@[k]) by {
                lemma_fn_kept(all@[k], types@, s0.len(), before, interner@, out@[k]);
            }
        }
        out.push(g);
        n = n + 1;
    }
    out
}

/// Desugars one item; see `item_desugared`.
fn desugar_item(it: HirItem, types: &[HirType], interner: &mut Interner) -> (r: HirItem)
    requires
        item_ready(it, types@, old(interner)@.len()),
        old(interner)@.len() + item_count(it) < u32::MAX,
    ensures
        extends(old(interner)@, final(interner)@),
        final(interner)@.len() <= old(interner)@.len() + item_count(it),
        item_desugared(it, types@, final(interner)@, r),
{
    match it {
        HirItem::Fn(f) => HirItem::Fn(desugar_fn(f, types, interner)),
        HirItem::Impl(d) => {
            let HirImplDef { doc, target_name, type_params, methods, span, is_pub } = d;
            let ms = desugar_methods(methods, types, interner);
            HirItem::Impl(HirImplDef { doc, target_name, type_params, methods: ms, span, is_pub })
        },
        other => other,
    }
}

/// Rewrites every method call `recv.m(args)` in the bodies of the program's functions
/// and methods into a call of `Type_m` with the receiver as first argument, where
/// `Type` is the name of the receiver's type as `expr_types` records it, or, when that
/// is unknown or `Int`, the name of the type of the enclosing function's first
/// parameter (`unknown` when neither has a name). The callee names are interned.
pub fn desugar_method_calls(hir: &mut Hir, expr_types: &[HirType], interner: &mut Interner)
    requires
        hir_ready(*old(hir), expr_types@, old(interner)@.len()),
        old(interner)@.len() + items_count(old(hir).items, old(hir).items@.len()) < u32::MAX,
    ensures
        extends(old(interner)@, final(interner)@),
        final(hir).items@.len() == old(hir).items@.len(),
        forall|i: int| 0 <= i < old(hir).items@.len()
            ==> item_desugared(#[trigger] old(hir).items@[i], expr_types@, final(interner)@, final(hir).items@[i]),
{
    let ghost s0 = interner@;
    let ghost all = hir.items;
    let mut rest: Vec<HirItem> = Vec::new();
    std::mem::swap(&mut rest, &mut hir.items);
    let total = rest.len();
    let mut out: Vec<HirItem> = Vec::new();
    let mut n: usize = 0;
    while n < total
        invariant
            all@.len() == total,
            all@.len() == n + rest@.len(),
            rest@ == all@.skip(n as int),
            out@.len() == n,
            extends(s0, interner@),
            interner@.len() <= s0.len() + items_count(all, n as nat),
            s0.len() + items_count(all, all@.len()) < u32::MAX,
            forall|k: int| 0 <= k < all@.len() ==> item_ready(#[trigger] all@[k], expr_types@, s0.len()),
            forall|k: int| 0 <= k < n ==> item_desugared(#[trigger] all@[k], expr_types@, interner@, out@[k]),
        decreases total - n,
    {
        let it = rest.remove(0);
        let ghost before = interner@;
        proof {
            assert(all@[n as int] == it);
            assert(rest@ == all@.skip(n + 1));
            lemma_items_count_mono(all, (n + 1) as nat, all@.len());
            let it0 = it;
            match it0 {
                HirItem::Fn(f) => {
                    lemma_heads_ok_mono(expr_types@, first_param_type(f), s0.len(), before.len());
                    lemma_dsg_ok_mono(f.body, s0.len(), before.len());
                },
                HirItem::Impl(d) => {
                    assert forall|i: int| 0 <= i < d.methods@.len() implies fn_ready(#[trigger] d.methods@[i], expr_types@, before.len()) by {
                        lemma_heads_ok_mono(expr_types@, first_param_type(d.methods@[i]), s0.len(), before.len());
                        lemma_dsg_ok_mono(d.methods@[i].body, s0.len(), before.len());
                    }
                },
                _ => {},
            }
        }
        let r = desugar_item(it, expr_types, interner);
        proof {
            assert forall|k: int| 0 <= k < n implies item_desugared(#[trigger] all@[k], expr_types@, interner@, out@[k]) by {
                lemma_item_kept(all@[k], expr_types@, s0.len(), before, interner@, out@[k]);
            }
        }
        out.push(r);
        n = n + 1;
    }
    hir.items = out;
}


/// No method call is left in `e` where desugaring reaches (see `desugared`; it does not
/// enter `return`, `sizeof` or address-of nodes).
pub open spec fn no_method_calls(e: HirExpr) -> bool
    decreases e, 0nat,
{
    match e {
        HirExpr::MethodCall { .. } => false,
        HirExpr::Call { args, .. } => forall|i: int| 0 <= i < args@.len() ==> no_method_calls(#[trigger] args@[i]),
        HirExpr::Block { stmts, .. } => forall|i: int| 0 <= i < stmts@.len() ==> stmt_no_method_calls(#[trigger] stmts@[i]),
        HirExpr::If { condition, then_branch, else_branch, .. } => no_method_calls(*condition) && no_method_calls(*then_branch)
            && match else_branch {
                Some(x) => no_method_calls(*x),
                None => true,
            },
        HirExpr::Match { scrutinee, arms, .. } => no_method_calls(*scrutinee) && forall|i: int| 0 <= i < arms@.len() ==> {
            &&& match (#[trigger] arms@[i]).guard {
                Some(g) => no_method_calls(g),
                None => true,
            }
            &&& no_method_calls(arms@[i].body)
        },
        HirExpr::While { condition, body, .. } => no_method_calls(*condition) && no_method_calls(*body),
        HirExpr::ForIn { iter, body, .. } => no_method_calls(*iter) && no_method_calls(*body),
        HirExpr::Binary { lhs, rhs, .. } => no_method_calls(*lhs) && no_method_calls(*rhs),
        HirExpr::Unary { operand, .. } => no_method_calls(*operand),
        HirExpr::Deref { expr, .. } => no_method_calls(*expr),
        HirExpr::As { expr, .. } => no_method_calls(*expr),
        HirExpr::FieldAccess { object, .. } => no_method_calls(*object),
        HirExpr::StructLit { fields, .. } => forall|i: int| 0 <= i < fields@.len() ==> no_method_calls((#[trigger] fields@[i]).1),
        HirExpr::EnumVariant { args, .. } => forall|i: int| 0 <= i < args@.len() ==> no_method_calls(#[trigger] args@[i]),
        HirExpr::TupleLit { elements, .. } => forall|i: int| 0 <= i < elements@.len() ==> no_method_calls(#[trigger] elements@[i]),
        HirExpr::Println { arg, .. } => no_method_calls(*arg),
        HirExpr::Assert { condition, message, .. } => no_method_calls(*condition) && match message {
            Some(x) => no_method_calls(*x),
            None => true,
        },
        _ => true,
    }
}

/// No method call is left in the expressions of `s` where desugaring reaches.
pub open spec fn stmt_no_method_calls(s: HirStmt) -> bool
    decreases s, 0nat,
{
    match s {
        HirStmt::Let { value, .. } => no_method_calls(value),
        HirStmt::LetPat { value, .. } => no_method_calls(value),
        HirStmt::Assign { value, .. } => no_method_calls(value),
        HirStmt::AssignDeref { target, value, .. } => no_method_calls(*target) && no_method_calls(value),
        HirStmt::AssignField { object, value, .. } => no_method_calls(*object) && no_method_calls(value),
        HirStmt::Expr(x) => no_method_calls(x),
    }
}

/// Desugaring leaves no method call where it reaches.
pub proof fn lemma_desugared_no_method_calls(e: HirExpr, types: Seq<HirType>, self_ty: Option<HirType>,
    strs: Seq<Seq<char>>, out: HirExpr)
    requires
        desugared(e, types, self_ty, strs, out),
    ensures
        no_method_calls(out),
    decreases e, 0nat,
{
    match e {
        HirExpr::MethodCall { receiver, args, .. } => {
            let ys = out->Call_args;
            assert forall|i: int| 0 <= i < ys@.len() implies no_method_calls(#[trigger] ys@[i]) by {
                assert(decreases_to!(e => e->MethodCall_args));
                if i == 0 {
                    lemma_desugared_no_method_calls(*receiver, types, self_ty, strs, ys@[0]);
                } else {
                    assert(desugared(args@[i - 1], types, self_ty, strs, ys@[(i - 1) + 1]));
                    lemma_desugared_no_method_calls(args@[i - 1], types, self_ty, strs, ys@[i]);
                }
            }
        },
        HirExpr::Call { args, .. } => {
            let ys = out->Call_args;
            assert forall|i: int| 0 <= i < ys@.len() implies no_method_calls(#[trigger] ys@[i]) by {
                assert(decreases_to!(e => e->Call_args));
                lemma_desugared_no_method_calls(args@[i], types, self_ty, strs, ys@[i]);
            }
        },
        HirExpr::Block { stmts, .. } => {
            let ys = out->Block_stmts;
            assert forall|i: int| 0 <= i < ys@.len() implies stmt_no_method_calls(#[trigger] ys@[i]) by {
                assert(decreases_to!(e => e->Block_stmts));
                lemma_stmt_desugared_no_method_calls(stmts@[i], types, self_ty, strs, ys@[i]);
            }
        },
        HirExpr::If { condition, then_branch, else_branch, .. } => {
            lemma_desugared_no_method_calls(*condition, types, self_ty, strs, *out->If_condition);
            lemma_desugared_no_method_calls(*then_branch, types, self_ty, strs, *out->If_then_branch);
            if let Some(a) = else_branch {
                lemma_desugared_no_method_calls(*a, types, self_ty, strs, *out->If_else_branch->Some_0);
            }
        },
        HirExpr::Match { scrutinee, arms, .. } => {
            let ys = out->Match_arms;
            lemma_desugared_no_method_calls(*scrutinee, types, self_ty, strs, *out->Match_scrutinee);
            assert forall|i: int| 0 <= i < ys@.len() implies {
                &&& match (#[trigger] ys@[i]).guard {
                    Some(g) => no_method_calls(g),
                    None => true,
                }
                &&& no_method_calls(ys@[i].body)
            } by {
                assert(decreases_to!(e => e->Match_arms));
                assert(decreases_to!(arms => arms@[i]));
                if let Some(g) = arms@[i].guard {
                    lemma_desugared_no_method_calls(g, types, self_ty, strs, ys@[i].guard->Some_0);
                }
                lemma_desugared_no_method_calls(arms@[i].body, types, self_ty, strs, ys@[i].body);
            }
        },
        HirExpr::While { condition, body, .. } => {
            lemma_desugared_no_method_calls(*condition, types, self_ty, strs, *out->While_condition);
            lemma_desugared_no_method_calls(*body, types, self_ty, strs, *out->While_body);
        },
        HirExpr::ForIn { iter, body, .. } => {
            lemma_desugared_no_method_calls(*iter, types, self_ty, strs, *out->ForIn_iter);
            lemma_desugared_no_method_calls(*body, types, self_ty, strs, *out->ForIn_body);
        },
        HirExpr::Binary { lhs, rhs, .. } => {
            lemma_desugared_no_method_calls(*lhs, types, self_ty, strs, *out->Binary_lhs);
            lemma_desugared_no_method_calls(*rhs, types, self_ty, strs, *out->Binary_rhs);
        },
        HirExpr::Unary { operand, .. } => lemma_desugared_no_method_calls(*operand, types, self_ty, strs, *out->Unary_operand),
        HirExpr::Deref { expr, .. } => lemma_desugared_no_method_calls(*expr, types, self_ty, strs, *out->Deref_expr),
        HirExpr::As { expr, .. } => lemma_desugared_no_method_calls(*expr, types, self_ty, strs, *out->As_expr),
        HirExpr::FieldAccess { object, .. } => lemma_desugared_no_method_calls(*object, types, self_ty, strs, *out->FieldAccess_object),
        HirExpr::StructLit { fields, .. } => {
            let ys = out->StructLit_fields;
            assert forall|i: int| 0 <= i < ys@.len() implies no_method_calls((#[trigger] ys@[i]).1) by {
                assert(decreases_to!(e => e->StructLit_fields));
                assert(decreases_to!(fields => fields@[i]));
                lemma_desugared_no_method_calls(fields@[i].1, types, self_ty, strs, ys@[i].1);
            }
        },
        HirExpr::EnumVariant { args, .. } => {
            let ys = out->EnumVariant_args;
            assert forall|i: int| 0 <= i < ys@.len() implies no_method_calls(#[trigger] ys@[i]) by {
                assert(decreases_to!(e => e->EnumVariant_args));
                lemma_desugared_no_method_calls(args@[i], types, self_ty, strs, ys@[i]);
            }
        },
        HirExpr::TupleLit { elements, .. } => {
            let ys = out->TupleLit_elements;
            assert forall|i: int| 0 <= i < ys@.len() implies no_method_calls(#[trigger] ys@[i]) by {
                assert(decreases_to!(e => e->TupleLit_elements));
                lemma_desugared_no_method_calls(elements@[i], types, self_ty, strs, ys@[i]);
            }
        },
        HirExpr::Println { arg, .. } => lemma_desugared_no_method_calls(*arg, types, self_ty, strs, *out->Println_arg),
        HirExpr::Assert { condition, message, .. } => {
            lemma_desugared_no_method_calls(*condition, types, self_ty, strs, *out->Assert_condition);
            if let Some(a) = message {
                lemma_desugared_no_method_calls(*a, types, self_ty, strs, *out->Assert_message->Some_0);
            }
        },
        _ => {},
    }
}

/// The same for a statement.
pub proof fn lemma_stmt_desugared_no_method_calls(s: HirStmt, types: Seq<HirType>, self_ty: Option<HirType>,
    strs: Seq<Seq<char>>, out: HirStmt)
    requires
        stmt_desugared(s, types, self_ty, strs, out),
    ensures
        stmt_no_method_calls(out),
    decreases s, 0nat,
{
    match s {
        HirStmt::Let { value, .. } => lemma_desugared_no_method_calls(value, types, self_ty, strs, out->Let_value),
        HirStmt::LetPat { value, .. } => lemma_desugared_no_method_calls(value, types, self_ty, strs, out->LetPat_value),
        HirStmt::Assign { value, .. } => lemma_desugared_no_method_calls(value, types, self_ty, strs, out->Assign_value),
        HirStmt::AssignDeref { target, value, .. } => {
            lemma_desugared_no_method_calls(*target, types, self_ty, strs, *out->AssignDeref_target);
            lemma_desugared_no_method_calls(value, types, self_ty, strs, out->AssignDeref_value);
        },
        HirStmt::AssignField { object, value, .. } => {
            lemma_desugared_no_method_calls(*object, types, self_ty, strs, *out->AssignField_object);
            lemma_desugared_no_method_calls(value, types, self_ty, strs, out->AssignField_value);
        },
        HirStmt::Expr(x) => lemma_desugared_no_method_calls(x, types, self_ty, strs, out->Expr_0),
    }
}

/// No method call is left in the bodies of a desugared item's functions and methods.
pub open spec fn item_no_method_calls(it: HirItem) -> bool {
    match it {
        HirItem::Fn(f) => no_method_calls(f.body),
        HirItem::Impl(d) => forall|i: int| 0 <= i < d.methods@.len() ==> no_method_calls(#[trigger] d.methods@[i].body),
        _ => true,
    }
}

/// After `desugar_method_calls`, no function or method body holds a method call where
/// desugaring reaches: every one became a call of its `Type_method` function.
pub proof fn lemma_desugar_leaves_no_method_calls(before: Hir, after: Hir, types: Seq<HirType>, strs: Seq<Seq<char>>)
    requires
        after.items@.len() == before.items@.len(),
        forall|i: int| 0 <= i < before.items@.len() ==> item_desugared(#[trigger] before.items@[i], types, strs, after.items@[i]),
    ensures
        forall|i: int| 0 <= i < after.items@.len() ==> item_no_method_calls(#[trigger] after.items@[i]),
{
    assert forall|i: int| 0 <= i < after.items@.len() implies item_no_method_calls(#[trigger] after.items@[i]) by {
        assert(item_desugared(before.items@[i], types, strs, after.items@[i]));
        match before.items@[i] {
            HirItem::Fn(f) => {
                lemma_desugared_no_method_calls(f.body, types, first_param_type(f), strs, after.items@[i]->Fn_0.body);
            },
            HirItem::Impl(d) => {
                let e = after.items@[i]->Impl_0;
                assert forall|k: int| 0 <= k < e.methods@.len() implies no_method_calls(#[trigger] e.methods@[k].body) by {
                    assert(fn_desugared(d.methods@[k], types, strs, e.methods@[k]));
                    lemma_desugared_no_method_calls(d.methods@[k].body, types, first_param_type(d.methods@[k]), strs, e.methods@[k].body);
                }
            },
            _ => {},
        }
    }
}

} // verus!

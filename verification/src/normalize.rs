use vstd::prelude::*;
use crate::node::{HirBinOp, HirExpr, HirFn, HirStmt, HirUnOp, MatchArm};
use crate::assoc::{assoc_find, assoc_keys_unique, assoc_map, assoc_upsert};
use crate::normal_order::{ord_expr, order_expr, Order};
use crate::symbol::{Interner, Symbol};
use vstd::string::StringExecFns;
use crate::types::{copy_type, ty_eq, HirPattern, HirType};

verus! {

/// An expression with names made canonical: locals numbered in order of binding,
/// other names spelled out, operands of commutative operators in a fixed order.
#[derive(Debug, PartialEq, Eq, Hash, PartialOrd, Ord)]
pub enum NormalizedExpr {
    IntLit(i64),
    /// A float literal's IEEE-754 bits.
    FloatLit(u64),
    BoolLit(bool),
    StrLit(String),
    UnitLit,
    Local(u32),
    Name(String),
    Binary { op: HirBinOp, lhs: Box<NormalizedExpr>, rhs: Box<NormalizedExpr> },
    Unary { op: HirUnOp, operand: Box<NormalizedExpr> },
    Block { stmts: Vec<NormalizedStmt> },
    If { condition: Box<NormalizedExpr>, then_branch: Box<NormalizedExpr>, else_branch: Option<Box<NormalizedExpr>> },
    Call { callee: String, args: Vec<NormalizedExpr> },
    MethodCall { receiver: Box<NormalizedExpr>, method_name: String, resolved_callee: Option<String>, args: Vec<NormalizedExpr> },
    Assert { condition: Box<NormalizedExpr>, message: Option<Box<NormalizedExpr>> },
    Match { scrutinee: Box<NormalizedExpr>, arms: Vec<NormalizedMatchArm> },
    FieldAccess { object: Box<NormalizedExpr>, field: String },
    StructLit { struct_name: String, fields: Vec<(String, NormalizedExpr)> },
    EnumVariant { enum_name: String, variant_name: String, args: Vec<NormalizedExpr> },
    ForIn { pattern: NormalizedPattern, iter: Box<NormalizedExpr>, body: Box<NormalizedExpr> },
    While { condition: Box<NormalizedExpr>, body: Box<NormalizedExpr> },
    Return { value: Option<Box<NormalizedExpr>> },
    As { expr: Box<NormalizedExpr>, target_type: HirType },
    SizeOf { target_type: HirType },
    TupleLit { elements: Vec<NormalizedExpr> },
    AddrOf { target: String },
    Deref { expr: Box<NormalizedExpr> },
    Println { arg: Box<NormalizedExpr> },
}

/// A statement with names made canonical.
#[derive(Debug, PartialEq, Eq, Hash, PartialOrd, Ord)]
pub enum NormalizedStmt {
    Let { local_id: u32, mutable: bool, value: NormalizedExpr },
    Assign { local_id: u32, value: NormalizedExpr },
    AssignField { object: NormalizedExpr, field: String, value: NormalizedExpr },
    AssignDeref { target: NormalizedExpr, value: NormalizedExpr },
    Expr(NormalizedExpr),
}

/// A `match` arm with names made canonical.
#[derive(Debug, PartialEq, Eq, Hash, PartialOrd, Ord)]
pub struct NormalizedMatchArm {
    pub pattern: NormalizedPattern,
    pub guard: Option<NormalizedExpr>,
    pub body: NormalizedExpr,
}

/// A pattern with names made canonical.
#[derive(Debug, PartialEq, Eq, Hash, PartialOrd, Ord)]
pub enum NormalizedPattern {
    Wild,
    BoolLit(bool),
    IntLit(i64),
    /// A float literal's IEEE-754 bits.
    FloatLit(u64),
    StrLit(String),
    Unit,
    Local(u32),
    Struct { name: String, bindings: Vec<(String, NormalizedPattern)> },
    EnumVariant { enum_name: String, variant_name: String, bindings: Vec<(String, NormalizedPattern)> },
    Tuple { elements: Vec<NormalizedPattern> },
    OptionSome(Box<NormalizedPattern>),
    OptionNone,
    ResultOk(Box<NormalizedPattern>),
    ResultErr(Box<NormalizedPattern>),
}

/// A function with names made canonical: parameters become `_p0`, `_p1`, ...
#[derive(Debug, PartialEq, Eq, Hash)]
pub struct NormalizedHirFn {
    pub name: String,
    pub type_params: Vec<String>,
    pub params: Vec<(String, HirType)>,
    pub param_mutability: Vec<bool>,
    pub ret: Option<HirType>,
    pub body: NormalizedExpr,
    pub is_pub: bool,
    pub is_extern_backed: bool,
}

/// What normalization tracks: the local number of each bound name, and the next
/// number to hand out.
pub type Locals = (Map<Symbol, u32>, nat);

/// Binds `s` to the next local number.
pub open spec fn bind_local(st: Locals, s: Symbol) -> Locals {
    (st.0.insert(s, st.1 as u32), st.1 + 1)
}

/// The text a name resolves to: its string, or `<unknown>` for a symbol outside the
/// table.
pub open spec fn name_text(strs: Seq<Seq<char>>, s: Symbol) -> Seq<char> {
    if s.index() < strs.len() {
        strs[s.index() as int]
    } else {
        "<unknown>"@
    }
}

// ---------------------------------------------------------------------------
// Patterns met in `match` arms and `for` loops: a variable not yet bound is bound.

/// The bookkeeping after normalizing pattern `p`.
pub open spec fn pat_after(p: HirPattern, st: Locals) -> Locals
    decreases p, 0nat,
{
    match p {
        HirPattern::Var(s) => if st.0.contains_key(s) { st } else { bind_local(st, s) },
        HirPattern::Struct { bindings, .. } => pbinds_after(bindings, bindings@.len(), st),
        HirPattern::EnumVariant { bindings, .. } => pbinds_after(bindings, bindings@.len(), st),
        HirPattern::Tuple { elements, .. } => pats_after(elements, elements@.len(), st),
        HirPattern::OptionSome(x) => pat_after(*x, st),
        HirPattern::ResultOk(x) => pat_after(*x, st),
        HirPattern::ResultErr(x) => pat_after(*x, st),
        _ => st,
    }
}

/// The bookkeeping after normalizing the first `n` patterns of `xs` in turn.
pub open spec fn pats_after(xs: Vec<HirPattern>, n: nat, st: Locals) -> Locals
    decreases xs, n,
{
    if n == 0 || n > xs@.len() {
        st
    } else {
        pat_after(xs@[n - 1], pats_after(xs, (n - 1) as nat, st))
    }
}

/// The bookkeeping after normalizing the sub-patterns of the first `n` bindings.
pub open spec fn pbinds_after(xs: Vec<(Symbol, HirPattern)>, n: nat, st: Locals) -> Locals
    decreases xs, n,
{
    if n == 0 || n > xs@.len() {
        st
    } else {
        pat_after(xs@[n - 1].1, pbinds_after(xs, (n - 1) as nat, st))
    }
}

/// Normalizing `p` does not run out of local numbers.
pub open spec fn pat_ok(p: HirPattern, st: Locals) -> bool
    decreases p, 0nat,
{
    match p {
        HirPattern::Var(s) => st.0.contains_key(s) || st.1 < u32::MAX,
        HirPattern::Struct { bindings, .. } => forall|i: int| 0 <= i < bindings@.len()
            ==> pat_ok(#[trigger] bindings@[i].1, pbinds_after(bindings, i as nat, st)),
        HirPattern::EnumVariant { bindings, .. } => forall|i: int| 0 <= i < bindings@.len()
            ==> pat_ok(#[trigger] bindings@[i].1, pbinds_after(bindings, i as nat, st)),
        HirPattern::Tuple { elements, .. } => forall|i: int| 0 <= i < elements@.len()
            ==> pat_ok(#[trigger] elements@[i], pats_after(elements, i as nat, st)),
        HirPattern::OptionSome(x) => pat_ok(*x, st),
        HirPattern::ResultOk(x) => pat_ok(*x, st),
        HirPattern::ResultErr(x) => pat_ok(*x, st),
        _ => true,
    }
}

/// `out` is the normal form of pattern `p` met in the bookkeeping `st`: bound variables
/// become their local numbers (a variable not yet bound is bound first), names are
/// spelled out.
pub open spec fn pat_norm(p: HirPattern, st: Locals, strs: Seq<Seq<char>>, out: NormalizedPattern) -> bool
    decreases p, 0nat,
{
    match p {
        HirPattern::Wild => out is Wild,
        HirPattern::BoolLit(b) => out == NormalizedPattern::BoolLit(b),
        HirPattern::IntLit(v) => out == NormalizedPattern::IntLit(v),
        HirPattern::FloatLit(v) => out == NormalizedPattern::FloatLit(v),
        HirPattern::StrLit(t) => out matches NormalizedPattern::StrLit(u) && u@ == t@,
        HirPattern::Unit => out is Unit,
        HirPattern::Var(s) => out == NormalizedPattern::Local(pat_after(p, st).0[s]),
        HirPattern::Struct { name, bindings, .. } => out matches NormalizedPattern::Struct { name: n, bindings: bs }
            && n@ == name_text(strs, name) && bs@.len() == bindings@.len()
            && forall|i: int| 0 <= i < bindings@.len() ==> (#[trigger] bs@[i]).0@ == name_text(strs, bindings@[i].0)
                && pat_norm(bindings@[i].1, pbinds_after(bindings, i as nat, st), strs, bs@[i].1),
        HirPattern::EnumVariant { enum_name, variant_name, bindings, .. } =>
            out matches NormalizedPattern::EnumVariant { enum_name: e, variant_name: v, bindings: bs }
            && e@ == name_text(strs, enum_name) && v@ == name_text(strs, variant_name) && bs@.len() == bindings@.len()
            && forall|i: int| 0 <= i < bindings@.len() ==> (#[trigger] bs@[i]).0@ == name_text(strs, bindings@[i].0)
                && pat_norm(bindings@[i].1, pbinds_after(bindings, i as nat, st), strs, bs@[i].1),
        HirPattern::Tuple { elements, .. } => out matches NormalizedPattern::Tuple { elements: es }
            && es@.len() == elements@.len()
            && forall|i: int| 0 <= i < elements@.len() ==> pat_norm(#[trigger] elements@[i], pats_after(elements, i as nat, st), strs, es@[i]),
        HirPattern::OptionSome(x) => out matches NormalizedPattern::OptionSome(y) && pat_norm(*x, st, strs, *y),
        HirPattern::OptionNone => out is OptionNone,
        HirPattern::ResultOk(x) => out matches NormalizedPattern::ResultOk(y) && pat_norm(*x, st, strs, *y),
        HirPattern::ResultErr(x) => out matches NormalizedPattern::ResultErr(y) && pat_norm(*x, st, strs, *y),
    }
}

// ---------------------------------------------------------------------------
// Patterns of `let` statements: every variable is bound afresh.

/// The bookkeeping after binding every variable of `p` afresh, left to right.
pub open spec fn bind_after(p: HirPattern, st: Locals) -> Locals
    decreases p, 0nat,
{
    match p {
        HirPattern::Var(s) => bind_local(st, s),
        HirPattern::Struct { bindings, .. } => bind_pbinds_after(bindings, bindings@.len(), st),
        HirPattern::EnumVariant { bindings, .. } => bind_pbinds_after(bindings, bindings@.len(), st),
        HirPattern::Tuple { elements, .. } => bind_pats_after(elements, elements@.len(), st),
        HirPattern::OptionSome(x) => bind_after(*x, st),
        HirPattern::ResultOk(x) => bind_after(*x, st),
        HirPattern::ResultErr(x) => bind_after(*x, st),
        _ => st,
    }
}

/// The bookkeeping after binding the first `n` patterns of `xs` afresh.
pub open spec fn bind_pats_after(xs: Vec<HirPattern>, n: nat, st: Locals) -> Locals
    decreases xs, n,
{
    if n == 0 || n > xs@.len() {
        st
    } else {
        bind_after(xs@[n - 1], bind_pats_after(xs, (n - 1) as nat, st))
    }
}

/// The bookkeeping after binding the sub-patterns of the first `n` bindings afresh.
pub open spec fn bind_pbinds_after(xs: Vec<(Symbol, HirPattern)>, n: nat, st: Locals) -> Locals
    decreases xs, n,
{
    if n == 0 || n > xs@.len() {
        st
    } else {
        bind_after(xs@[n - 1].1, bind_pbinds_after(xs, (n - 1) as nat, st))
    }
}

/// The local number that a `let` pattern stands for: that of its first variable, or
/// the next number when it binds none there.
pub open spec fn bind_first(p: HirPattern, st: Locals) -> u32
    decreases p, 0nat,
{
    match p {
        HirPattern::Var(_) => st.1 as u32,
        HirPattern::Struct { bindings, .. } => if bindings@.len() > 0 { bind_first(bindings@[0].1, st) } else { st.1 as u32 },
        HirPattern::EnumVariant { bindings, .. } => if bindings@.len() > 0 { bind_first(bindings@[0].1, st) } else { st.1 as u32 },
        HirPattern::Tuple { elements, .. } => if elements@.len() > 0 { bind_first(elements@[0], st) } else { st.1 as u32 },
        HirPattern::OptionSome(x) => bind_first(*x, st),
        HirPattern::ResultOk(x) => bind_first(*x, st),
        HirPattern::ResultErr(x) => bind_first(*x, st),
        _ => st.1 as u32,
    }
}

/// Binding the variables of `p` does not run out of local numbers.
pub open spec fn bind_ok(p: HirPattern, st: Locals) -> bool
    decreases p, 0nat,
{
    match p {
        HirPattern::Var(_) => st.1 < u32::MAX,
        HirPattern::Struct { bindings, .. } => forall|i: int| 0 <= i < bindings@.len()
            ==> bind_ok(#[trigger] bindings@[i].1, bind_pbinds_after(bindings, i as nat, st)),
        HirPattern::EnumVariant { bindings, .. } => forall|i: int| 0 <= i < bindings@.len()
            ==> bind_ok(#[trigger] bindings@[i].1, bind_pbinds_after(bindings, i as nat, st)),
        HirPattern::Tuple { elements, .. } => forall|i: int| 0 <= i < elements@.len()
            ==> bind_ok(#[trigger] elements@[i], bind_pats_after(elements, i as nat, st)),
        HirPattern::OptionSome(x) => bind_ok(*x, st),
        HirPattern::ResultOk(x) => bind_ok(*x, st),
        HirPattern::ResultErr(x) => bind_ok(*x, st),
        _ => true,
    }
}

// ---------------------------------------------------------------------------
// Expressions and statements.

/// The bookkeeping after normalizing `e`: `let` statements bind their names, patterns
/// of `match` arms and `for` loops bind their new variables, in evaluation order.
pub open spec fn expr_after(e: HirExpr, st: Locals) -> Locals
    decreases e, 0nat,
{
    match e {
        HirExpr::Binary { lhs, rhs, .. } => expr_after(*rhs, expr_after(*lhs, st)),
        HirExpr::Unary { operand, .. } => expr_after(*operand, st),
        HirExpr::Block { stmts, .. } => stmts_after(stmts, stmts@.len(), st),
        HirExpr::If { condition, then_branch, else_branch, .. } => {
            let s2 = expr_after(*then_branch, expr_after(*condition, st));
            match else_branch {
                Some(x) => expr_after(*x, s2),
                None => s2,
            }
        },
        HirExpr::Call { args, .. } => exprs_after(args, args@.len(), st),
        HirExpr::MethodCall { receiver, args, .. } => exprs_after(args, args@.len(), expr_after(*receiver, st)),
        HirExpr::Assert { condition, message, .. } => {
            let s1 = expr_after(*condition, st);
            match message {
                Some(x) => expr_after(*x, s1),
                None => s1,
            }
        },
        HirExpr::Match { scrutinee, arms, .. } => arms_after(arms, arms@.len(), expr_after(*scrutinee, st)),
        HirExpr::FieldAccess { object, .. } => expr_after(*object, st),
        HirExpr::StructLit { fields, .. } => fields_after(fields, fields@.len(), st),
        HirExpr::EnumVariant { args, .. } => exprs_after(args, args@.len(), st),
        HirExpr::ForIn { pattern, iter, body, .. } => expr_after(*body, expr_after(*iter, pat_after(pattern, st))),
        HirExpr::While { condition, body, .. } => expr_after(*body, expr_after(*condition, st)),
        HirExpr::Return { value, .. } => match value {
            Some(x) => expr_after(*x, st),
            None => st,
        },
        HirExpr::As { expr, .. } => expr_after(*expr, st),
        HirExpr::TupleLit { elements, .. } => exprs_after(elements, elements@.len(), st),
        HirExpr::Deref { expr, .. } => expr_after(*expr, st),
        HirExpr::Println { arg, .. } => expr_after(*arg, st),
        _ => st,
    }
}

/// The bookkeeping after normalizing the first `n` expressions of `xs` in turn.
pub open spec fn exprs_after(xs: Vec<HirExpr>, n: nat, st: Locals) -> Locals
    decreases xs, n,
{
    if n == 0 || n > xs@.len() {
        st
    } else {
        expr_after(xs@[n - 1], exprs_after(xs, (n - 1) as nat, st))
    }
}

/// The bookkeeping after normalizing the values of the first `n` fields in turn.
pub open spec fn fields_after(xs: Vec<(Symbol, HirExpr)>, n: nat, st: Locals) -> Locals
    decreases xs, n,
{
    if n == 0 || n > xs@.len() {
        st
    } else {
        expr_after(xs@[n - 1].1, fields_after(xs, (n - 1) as nat, st))
    }
}

/// The bookkeeping after normalizing statement `s`.
pub open spec fn stmt_after(s: HirStmt, st: Locals) -> Locals
    decreases s, 0nat,
{
    match s {
        HirStmt::Let { name, value, .. } => expr_after(value, bind_local(st, name)),
        HirStmt::LetPat { pattern, value, .. } => expr_after(value, bind_after(pattern, st)),
        HirStmt::Assign { value, .. } => expr_after(value, st),
        HirStmt::AssignField { object, value, .. } => expr_after(value, expr_after(*object, st)),
        HirStmt::AssignDeref { target, value, .. } => expr_after(value, expr_after(*target, st)),
        HirStmt::Expr(x) => expr_after(x, st),
    }
}

/// The bookkeeping after normalizing the first `n` statements of `xs` in turn.
pub open spec fn stmts_after(xs: Vec<HirStmt>, n: nat, st: Locals) -> Locals
    decreases xs, n,
{
    if n == 0 || n > xs@.len() {
        st
    } else {
        stmt_after(xs@[n - 1], stmts_after(xs, (n - 1) as nat, st))
    }
}

/// The bookkeeping after normalizing the guard (if any) of an arm whose pattern left `st`.
pub open spec fn guard_after(g: Option<HirExpr>, st: Locals) -> Locals
    decreases g, 0nat,
{
    match g {
        Some(x) => expr_after(x, st),
        None => st,
    }
}

/// The bookkeeping after normalizing match arm `a`: pattern, guard, body.
pub open spec fn arm_after(a: MatchArm, st: Locals) -> Locals
    decreases a, 0nat,
{
    expr_after(a.body, guard_after(a.guard, pat_after(a.pattern, st)))
}

/// The bookkeeping after normalizing the first `n` arms of `xs` in turn.
pub open spec fn arms_after(xs: Vec<MatchArm>, n: nat, st: Locals) -> Locals
    decreases xs, n,
{
    if n == 0 || n > xs@.len() {
        st
    } else {
        arm_after(xs@[n - 1], arms_after(xs, (n - 1) as nat, st))
    }
}

/// Normalizing `e` in the bookkeeping `st` is defined: every name read as a variable
/// is bound or interned (below `n`), every assigned name is bound, and local numbers
/// do not run out.
pub open spec fn expr_ok(e: HirExpr, st: Locals, n: nat) -> bool
    decreases e, 0nat,
{
    match e {
        HirExpr::Ident { name, .. } => st.0.contains_key(name) || name.index() < n,
        HirExpr::Binary { lhs, rhs, .. } => expr_ok(*lhs, st, n) && expr_ok(*rhs, expr_after(*lhs, st), n),
        HirExpr::Unary { operand, .. } => expr_ok(*operand, st, n),
        HirExpr::Block { stmts, .. } => forall|i: int| 0 <= i < stmts@.len()
            ==> stmt_ok(#[trigger] stmts@[i], stmts_after(stmts, i as nat, st), n),
        HirExpr::If { condition, then_branch, else_branch, .. } => {
            &&& expr_ok(*condition, st, n)
            &&& expr_ok(*then_branch, expr_after(*condition, st), n)
            &&& match else_branch {
                Some(x) => expr_ok(*x, expr_after(*then_branch, expr_after(*condition, st)), n),
                None => true,
            }
        },
        HirExpr::Call { args, .. } => forall|i: int| 0 <= i < args@.len()
            ==> expr_ok(#[trigger] args@[i], exprs_after(args, i as nat, st), n),
        HirExpr::MethodCall { receiver, args, .. } => expr_ok(*receiver, st, n)
            && forall|i: int| 0 <= i < args@.len()
                ==> expr_ok(#[trigger] args@[i], exprs_after(args, i as nat, expr_after(*receiver, st)), n),
        HirExpr::Assert { condition, message, .. } => expr_ok(*condition, st, n) && match message {
            Some(x) => expr_ok(*x, expr_after(*condition, st), n),
            None => true,
        },
        HirExpr::Match { scrutinee, arms, .. } => expr_ok(*scrutinee, st, n)
            && forall|i: int| 0 <= i < arms@.len() ==> {
                let s0 = arms_after(arms, i as nat, expr_after(*scrutinee, st));
                let s1 = pat_after((#[trigger] arms@[i]).pattern, s0);
                &&& pat_ok(arms@[i].pattern, s0)
                &&& match arms@[i].guard {
                    Some(g) => expr_ok(g, s1, n),
                    None => true,
                }
                &&& expr_ok(arms@[i].body, guard_after(arms@[i].guard, s1), n)
            },
        HirExpr::FieldAccess { object, .. } => expr_ok(*object, st, n),
        HirExpr::StructLit { fields, .. } => forall|i: int| 0 <= i < fields@.len()
            ==> expr_ok((#[trigger] fields@[i]).1, fields_after(fields, i as nat, st), n),
        HirExpr::EnumVariant { args, .. } => forall|i: int| 0 <= i < args@.len()
            ==> expr_ok(#[trigger] args@[i], exprs_after(args, i as nat, st), n),
        HirExpr::ForIn { pattern, iter, body, .. } => {
            &&& pat_ok(pattern, st)
            &&& expr_ok(*iter, pat_after(pattern, st), n)
            &&& expr_ok(*body, expr_after(*iter, pat_after(pattern, st)), n)
        },
        HirExpr::While { condition, body, .. } => expr_ok(*condition, st, n) && expr_ok(*body, expr_after(*condition, st), n),
        HirExpr::Return { value, .. } => match value {
            Some(x) => expr_ok(*x, st, n),
            None => true,
        },
        HirExpr::As { expr, .. } => expr_ok(*expr, st, n),
        HirExpr::TupleLit { elements, .. } => forall|i: int| 0 <= i < elements@.len()
            ==> expr_ok(#[trigger] elements@[i], exprs_after(elements, i as nat, st), n),
        HirExpr::Deref { expr, .. } => expr_ok(*expr, st, n),
        HirExpr::Println { arg, .. } => expr_ok(*arg, st, n),
        _ => true,
    }
}

/// Normalizing statement `s` in the bookkeeping `st` is defined.
pub open spec fn stmt_ok(s: HirStmt, st: Locals, n: nat) -> bool
    decreases s, 0nat,
{
    match s {
        HirStmt::Let { name, value, .. } => st.1 < u32::MAX && expr_ok(value, bind_local(st, name), n),
        HirStmt::LetPat { pattern, value, .. } => bind_ok(pattern, st) && expr_ok(value, bind_after(pattern, st), n),
        HirStmt::Assign { target, value, .. } => st.0.contains_key(target) && expr_ok(value, st, n),
        HirStmt::AssignField { object, value, .. } => expr_ok(*object, st, n) && expr_ok(value, expr_after(*object, st), n),
        HirStmt::AssignDeref { target, value, .. } => expr_ok(*target, st, n) && expr_ok(value, expr_after(*target, st), n),
        HirStmt::Expr(x) => expr_ok(x, st, n),
    }
}

/// `out` is the normal form of the optional expression `e` in the bookkeeping `st`.
pub open spec fn opt_norm(e: Option<Box<HirExpr>>, st: Locals, strs: Seq<Seq<char>>, out: Option<Box<NormalizedExpr>>) -> bool
    decreases e, 0nat,
{
    match e {
        Some(x) => out matches Some(y) && expr_norm(*x, st, strs, *y),
        None => out is None,
    }
}

/// `out` is the normal form of expression `e` met in the bookkeeping `st` (see
/// `expr_after` for how the bookkeeping evolves): literals stay; a bound name becomes
/// its local number and any other name its text; other names are spelled out; the
/// operands of a commutative operator come in `ord_expr` order, the smaller first;
/// a double `!` vanishes; every other node keeps its shape with its parts normalized
/// in evaluation order.
pub open spec fn expr_norm(e: HirExpr, st: Locals, strs: Seq<Seq<char>>, out: NormalizedExpr) -> bool
    decreases e, 0nat,
{
    match e {
        HirExpr::IntLit { value, .. } => out == NormalizedExpr::IntLit(value),
        HirExpr::FloatLit { value, .. } => out == NormalizedExpr::FloatLit(value),
        HirExpr::BoolLit { value, .. } => out == NormalizedExpr::BoolLit(value),
        HirExpr::StrLit { value, .. } => out matches NormalizedExpr::StrLit(t) && t@ == value@,
        HirExpr::UnitLit { .. } => out is UnitLit,
        HirExpr::Ident { name, .. } => if st.0.contains_key(name) {
            out == NormalizedExpr::Local(st.0[name])
        } else {
            out matches NormalizedExpr::Name(t) && t@ == strs[name.index() as int]
        },
        HirExpr::Binary { op, lhs, rhs, .. } => {
            let s1 = expr_after(*lhs, st);
            out matches NormalizedExpr::Binary { op: o, lhs: l, rhs: r } && o == op && {
                ||| expr_norm(*lhs, st, strs, *l) && expr_norm(*rhs, s1, strs, *r)
                    && !(op.spec_is_commutative() && ord_expr(*l, *r) is Greater)
                ||| expr_norm(*lhs, st, strs, *r) && expr_norm(*rhs, s1, strs, *l)
                    && op.spec_is_commutative() && ord_expr(*r, *l) is Greater
            }
        },
        HirExpr::Unary { op, operand, .. } => {
            ||| out matches NormalizedExpr::Unary { op: o, operand: x } && o == op && expr_norm(*operand, st, strs, *x)
                && !(op is Not && (*x matches NormalizedExpr::Unary { op: HirUnOp::Not, .. }))
            ||| op is Not && expr_norm(*operand, st, strs, NormalizedExpr::Unary { op: HirUnOp::Not, operand: Box::new(out) })
        },
        HirExpr::Block { stmts, .. } => out matches NormalizedExpr::Block { stmts: ys } && ys@.len() == stmts@.len()
            && forall|i: int| 0 <= i < stmts@.len() ==> stmt_norm(#[trigger] stmts@[i], stmts_after(stmts, i as nat, st), strs, ys@[i]),
        HirExpr::If { condition, then_branch, else_branch, .. } => {
            let s1 = expr_after(*condition, st);
            &&& out matches NormalizedExpr::If { condition: c, then_branch: t, else_branch: x }
            &&& expr_norm(*condition, st, strs, *c)
            &&& expr_norm(*then_branch, s1, strs, *t)
            &&& opt_norm(else_branch, expr_after(*then_branch, s1), strs, x)
        },
        HirExpr::Call { callee, args, .. } => out matches NormalizedExpr::Call { callee: c, args: ys }
            && c@ == name_text(strs, callee) && ys@.len() == args@.len()
            && forall|i: int| 0 <= i < args@.len() ==> expr_norm(#[trigger] args@[i], exprs_after(args, i as nat, st), strs, ys@[i]),
        HirExpr::MethodCall { receiver, method_name, resolved_callee, args, .. } => {
            let s1 = expr_after(*receiver, st);
            &&& out matches NormalizedExpr::MethodCall { receiver: r, method_name: m, resolved_callee: rc, args: ys }
            &&& expr_norm(*receiver, st, strs, *r)
            &&& m@ == name_text(strs, method_name)
            &&& match resolved_callee {
                Some(c) => rc matches Some(t) && t@ == name_text(strs, c),
                None => rc is None,
            }
            &&& ys@.len() == args@.len()
            &&& forall|i: int| 0 <= i < args@.len() ==> expr_norm(#[trigger] args@[i], exprs_after(args, i as nat, s1), strs, ys@[i])
        },
        HirExpr::Assert { condition, message, .. } => out matches NormalizedExpr::Assert { condition: c, message: m }
            && expr_norm(*condition, st, strs, *c) && opt_norm(message, expr_after(*condition, st), strs, m),
        HirExpr::Match { scrutinee, arms, .. } => {
            let s1 = expr_after(*scrutinee, st);
            &&& out matches NormalizedExpr::Match { scrutinee: x, arms: ys }
            &&& expr_norm(*scrutinee, st, strs, *x)
            &&& ys@.len() == arms@.len()
            &&& forall|i: int| 0 <= i < arms@.len() ==> {
                let s0 = arms_after(arms, i as nat, s1);
                let a = #[trigger] arms@[i];
                let sp = pat_after(a.pattern, s0);
                &&& pat_norm(a.pattern, s0, strs, ys@[i].pattern)
                &&& match a.guard {
                    Some(g) => ys@[i].guard matches Some(h) && expr_norm(g, sp, strs, h),
                    None => ys@[i].guard is None,
                }
                &&& expr_norm(a.body, guard_after(a.guard, sp), strs, ys@[i].body)
            }
        },
        HirExpr::FieldAccess { object, field, .. } => out matches NormalizedExpr::FieldAccess { object: o, field: f }
            && expr_norm(*object, st, strs, *o) && f@ == name_text(strs, field),
        HirExpr::StructLit { struct_name, fields, .. } => out matches NormalizedExpr::StructLit { struct_name: nm, fields: fs }
            && nm@ == name_text(strs, struct_name) && fs@.len() == fields@.len()
            && forall|i: int| 0 <= i < fields@.len() ==> (#[trigger] fs@[i]).0@ == name_text(strs, fields@[i].0)
                && expr_norm(fields@[i].1, fields_after(fields, i as nat, st), strs, fs@[i].1),
        HirExpr::EnumVariant { enum_name, variant_name, args, .. } =>
            out matches NormalizedExpr::EnumVariant { enum_name: en, variant_name: vn, args: ys }
            && en@ == name_text(strs, enum_name) && vn@ == name_text(strs, variant_name) && ys@.len() == args@.len()
            && forall|i: int| 0 <= i < args@.len() ==> expr_norm(#[trigger] args@[i], exprs_after(args, i as nat, st), strs, ys@[i]),
        HirExpr::ForIn { pattern, iter, body, .. } => {
            let sp = pat_after(pattern, st);
            &&& out matches NormalizedExpr::ForIn { pattern: p, iter: it, body: b }
            &&& pat_norm(pattern, st, strs, p)
            &&& expr_norm(*iter, sp, strs, *it)
            &&& expr_norm(*body, expr_after(*iter, sp), strs, *b)
        },
        HirExpr::While { condition, body, .. } => out matches NormalizedExpr::While { condition: c, body: b }
            && expr_norm(*condition, st, strs, *c) && expr_norm(*body, expr_after(*condition, st), strs, *b),
        HirExpr::Return { value, .. } => out matches NormalizedExpr::Return { value: v } && opt_norm(value, st, strs, v),
        HirExpr::As { expr, target_type, .. } => out matches NormalizedExpr::As { expr: x, target_type: t }
            && expr_norm(*expr, st, strs, *x) && ty_eq(t, target_type),
        HirExpr::SizeOf { target_type, .. } => out matches NormalizedExpr::SizeOf { target_type: t } && ty_eq(t, target_type),
        HirExpr::TupleLit { elements, .. } => out matches NormalizedExpr::TupleLit { elements: ys } && ys@.len() == elements@.len()
            && forall|i: int| 0 <= i < elements@.len() ==> expr_norm(#[trigger] elements@[i], exprs_after(elements, i as nat, st), strs, ys@[i]),
        HirExpr::AddrOf { target, .. } => out matches NormalizedExpr::AddrOf { target: t } && t@ == name_text(strs, target),
        HirExpr::Deref { expr, .. } => out matches NormalizedExpr::Deref { expr: x } && expr_norm(*expr, st, strs, *x),
        HirExpr::Println { arg, .. } => out matches NormalizedExpr::Println { arg: x } && expr_norm(*arg, st, strs, *x),
    }
}

/// `out` is the normal form of statement `s` met in the bookkeeping `st`: `let` binds
/// its name (a pattern binds all its variables, and stands for the first) before its
/// value is normalized; an assignment names the local number of its target.
pub open spec fn stmt_norm(s: HirStmt, st: Locals, strs: Seq<Seq<char>>, out: NormalizedStmt) -> bool
    decreases s, 0nat,
{
    match s {
        HirStmt::Let { name, mutable, value, .. } => out matches NormalizedStmt::Let { local_id: l, mutable: m, value: v }
            && l == st.1 as u32 && m == mutable && expr_norm(value, bind_local(st, name), strs, v),
        HirStmt::LetPat { pattern, mutable, value, .. } => out matches NormalizedStmt::Let { local_id: l, mutable: m, value: v }
            && l == bind_first(pattern, st) && m == mutable && expr_norm(value, bind_after(pattern, st), strs, v),
        HirStmt::Assign { target, value, .. } => out matches NormalizedStmt::Assign { local_id: l, value: v }
            && l == st.0[target] && expr_norm(value, st, strs, v),
        HirStmt::AssignField { object, field, value, .. } => out matches NormalizedStmt::AssignField { object: o, field: f, value: v }
            && expr_norm(*object, st, strs, o) && f@ == name_text(strs, field) && expr_norm(value, expr_after(*object, st), strs, v),
        HirStmt::AssignDeref { target, value, .. } => out matches NormalizedStmt::AssignDeref { target: t, value: v }
            && expr_norm(*target, st, strs, t) && expr_norm(value, expr_after(*target, st), strs, v),
        HirStmt::Expr(x) => out matches NormalizedStmt::Expr(y) && expr_norm(x, st, strs, y),
    }
}

// ---------------------------------------------------------------------------
// The normalizer.

/// Puts functions into a canonical form in which names of locals and the order of
/// commutative operands no longer matter: locals are numbered in order of binding,
/// other names are spelled out through the interner.
pub struct SemanticNormalizer<'a> {
    interner: &'a Interner,
    local_map: Vec<(Symbol, u32)>,
    next_local: u32,
}

impl<'a> SemanticNormalizer<'a> {
    /// The bookkeeping: local numbers of bound names, and the next number.
    pub closed spec fn locals(&self) -> Locals {
        (assoc_map(self.local_map@), self.next_local as nat)
    }

    /// The interned strings that names are spelled out with.
    pub closed spec fn strs(&self) -> Seq<Seq<char>> {
        self.interner@
    }

    #[verifier::type_invariant]
    spec fn inv(&self) -> bool {
        assoc_keys_unique(self.local_map@)
    }

    /// A normalizer with nothing bound, spelling names out through `interner`.
    pub fn new(interner: &'a Interner) -> (r: Self)
        ensures
            r.locals() == (Map::<Symbol, u32>::empty(), 0nat),
            r.strs() == interner@,
    {
        let r = SemanticNormalizer { interner, local_map: Vec::new(), next_local: 0 };
        assert(assoc_map(r.local_map@) =~= Map::<Symbol, u32>::empty());
        r
    }

    /// Binds a parameter to the next local number.
    pub fn register_param(&mut self, sym: Symbol)
        requires
            old(self).locals().1 < u32::MAX,
        ensures
            final(self).locals() == bind_local(old(self).locals(), sym),
            final(self).strs() == old(self).strs(),
    {
        self.register_local(sym);
    }

    /// Binds a name to the next local number, and returns the number.
    fn register_local(&mut self, sym: Symbol) -> (r: u32)
        requires
            old(self).locals().1 < u32::MAX,
        ensures
            r == old(self).locals().1,
            final(self).locals() == bind_local(old(self).locals(), sym),
            final(self).strs() == old(self).strs(),
    {
        proof {
            use_type_invariant(&*self);
        }
        let idx = self.next_local;
        let mut map: Vec<(Symbol, u32)> = Vec::new();
        std::mem::swap(&mut map, &mut self.local_map);
        assoc_upsert(&mut map, sym, idx);
        self.local_map = map;
        self.next_local = self.next_local + 1;
        idx
    }

    /// The local number of a bound name, if it is bound.
    fn local_of(&self, sym: Symbol) -> (r: Option<u32>)
        ensures
            match r {
                Some(i) => self.locals().0.contains_key(sym) && self.locals().0[sym] == i,
                None => !self.locals().0.contains_key(sym),
            },
    {
        proof {
            use_type_invariant(self);
        }
        assoc_find(&self.local_map, sym)
    }

    /// The text of a name, or `<unknown>` for a symbol outside the interner.
    fn resolve_name(&self, sym: Symbol) -> (r: String)
        ensures
            r@ == name_text(self.strs(), sym),
    {
        match self.interner.try_resolve(sym) {
            Some(t) => t.to_owned(),
            None => String::from_str("<unknown>"),
        }
    }

    /// Normalizes a pattern of a `match` arm or a `for` loop; see `pat_norm`.
    fn normalize_pattern(&mut self, pat: &HirPattern) -> (r: NormalizedPattern)
        requires
            pat_ok(*pat, old(self).locals()),
        ensures
            pat_norm(*pat, old(self).locals(), old(self).strs(), r),
            final(self).locals() == pat_after(*pat, old(self).locals()),
            final(self).strs() == old(self).strs(),
        decreases pat, 0nat,
    {
        match pat {
            HirPattern::Wild => NormalizedPattern::Wild,
            HirPattern::BoolLit(b) => NormalizedPattern::BoolLit(*b),
            HirPattern::IntLit(v) => NormalizedPattern::IntLit(*v),
            HirPattern::FloatLit(v) => NormalizedPattern::FloatLit(*v),
            HirPattern::StrLit(t) => NormalizedPattern::StrLit(t.clone()),
            HirPattern::Unit => NormalizedPattern::Unit,
            HirPattern::Var(sym) => match self.local_of(*sym) {
                Some(i) => NormalizedPattern::Local(i),
                None => {
                    let i = self.register_local(*sym);
                    NormalizedPattern::Local(i)
                },
            },
            HirPattern::Struct { name, bindings, .. } => {
                proof { assert(decreases_to!(*pat => (*pat)->Struct_bindings)); }
                let n = self.resolve_name(*name);
                let bs = self.normalize_pbinds(bindings);
                NormalizedPattern::Struct { name: n, bindings: bs }
            },
            HirPattern::EnumVariant { enum_name, variant_name, bindings, .. } => {
                proof { assert(decreases_to!(*pat => (*pat)->EnumVariant_bindings)); }
                let e = self.resolve_name(*enum_name);
                let v = self.resolve_name(*variant_name);
                let bs = self.normalize_pbinds(bindings);
                NormalizedPattern::EnumVariant { enum_name: e, variant_name: v, bindings: bs }
            },
            HirPattern::Tuple { elements, .. } => {
                proof { assert(decreases_to!(*pat => (*pat)->Tuple_elements)); }
                let es = self.normalize_patterns(elements);
                NormalizedPattern::Tuple { elements: es }
            },
            HirPattern::OptionSome(x) => NormalizedPattern::OptionSome(Box::new(self.normalize_pattern(x))),
            HirPattern::OptionNone => NormalizedPattern::OptionNone,
            HirPattern::ResultOk(x) => NormalizedPattern::ResultOk(Box::new(self.normalize_pattern(x))),
            HirPattern::ResultErr(x) => NormalizedPattern::ResultErr(Box::new(self.normalize_pattern(x))),
        }
    }

    /// Normalizes the patterns of `xs` in turn.
    fn normalize_patterns(&mut self, xs: &Vec<HirPattern>) -> (ys: Vec<NormalizedPattern>)
        requires
            forall|i: int| 0 <= i < xs@.len() ==> pat_ok(#[trigger] xs@[i], pats_after(*xs, i as nat, old(self).locals())),
        ensures
            ys@.len() == xs@.len(),
            forall|i: int| 0 <= i < xs@.len() ==> pat_norm(#[trigger] xs@[i], pats_after(*xs, i as nat, old(self).locals()), old(self).strs(), ys@[i]),
            final(self).locals() == pats_after(*xs, xs@.len(), old(self).locals()),
            final(self).strs() == old(self).strs(),
        decreases xs, xs@.len(),
    {
        let ghost st0 = self.locals();
        let ghost strs = self.strs();
        let mut ys: Vec<NormalizedPattern> = Vec::new();
        let mut i: usize = 0;
        while i < xs.len()
            invariant
                0 <= i <= xs@.len(),
                ys@.len() == i,
                st0 == old(self).locals(),
                strs == old(self).strs(),
                self.strs() == strs,
                self.locals() == pats_after(*xs, i as nat, st0),
                forall|k: int| 0 <= k < xs@.len() ==> pat_ok(#[trigger] xs@[k], pats_after(*xs, k as nat, st0)),
                forall|k: int| 0 <= k < i ==> pat_norm(#[trigger] xs@[k], pats_after(*xs, k as nat, st0), strs, ys@[k]),
            decreases xs@.len() - i,
        {
            proof { assert(decreases_to!(*xs => xs@[i as int])); }
            let y = self.normalize_pattern(&xs[i]);
            ys.push(y);
            i = i + 1;
        }
        ys
    }

    /// Normalizes the named sub-patterns of `xs` in turn.
    fn normalize_pbinds(&mut self, xs: &Vec<(Symbol, HirPattern)>) -> (ys: Vec<(String, NormalizedPattern)>)
        requires
            forall|i: int| 0 <= i < xs@.len() ==> pat_ok(#[trigger] xs@[i].1, pbinds_after(*xs, i as nat, old(self).locals())),
        ensures
            ys@.len() == xs@.len(),
            forall|i: int| 0 <= i < xs@.len() ==> (#[trigger] ys@[i]).0@ == name_text(old(self).strs(), xs@[i].0)
                && pat_norm(xs@[i].1, pbinds_after(*xs, i as nat, old(self).locals()), old(self).strs(), ys@[i].1),
            final(self).locals() == pbinds_after(*xs, xs@.len(), old(self).locals()),
            final(self).strs() == old(self).strs(),
        decreases xs, xs@.len(),
    {
        let ghost st0 = self.locals();
        let ghost strs = self.strs();
        let mut ys: Vec<(String, NormalizedPattern)> = Vec::new();
        let mut i: usize = 0;
        while i < xs.len()
            invariant
                0 <= i <= xs@.len(),
                ys@.len() == i,
                st0 == old(self).locals(),
                strs == old(self).strs(),
                self.strs() == strs,
                self.locals() == pbinds_after(*xs, i as nat, st0),
                forall|k: int| 0 <= k < xs@.len() ==> pat_ok(#[trigger] xs@[k].1, pbinds_after(*xs, k as nat, st0)),
                forall|k: int| 0 <= k < i ==> (#[trigger] ys@[k]).0@ == name_text(strs, xs@[k].0)
                    && pat_norm(xs@[k].1, pbinds_after(*xs, k as nat, st0), strs, ys@[k].1),
            decreases xs@.len() - i,
        {
            proof { assert(decreases_to!(*xs => xs@[i as int])); }
            let f = self.resolve_name(xs[i].0);
            let y = self.normalize_pattern(&xs[i].1);
            ys.push((f, y));
            i = i + 1;
        }
        ys
    }

    /// Binds every variable of a `let` pattern afresh, left to right, and returns the
    /// local number that the pattern stands for; see `bind_first`.
    fn register_pattern_bindings(&mut self, pat: &HirPattern) -> (r: u32)
        requires
            bind_ok(*pat, old(self).locals()),
        ensures
            r == bind_first(*pat, old(self).locals()),
            final(self).locals() == bind_after(*pat, old(self).locals()),
            final(self).strs() == old(self).strs(),
        decreases pat, 0nat,
    {
        match pat {
            HirPattern::Var(sym) => self.register_local(*sym),
            HirPattern::Struct { bindings, .. } | HirPattern::EnumVariant { bindings, .. } => {
                proof {
                    if *pat is Struct {
                        assert(decreases_to!(*pat => (*pat)->Struct_bindings));
                    } else {
                        assert(decreases_to!(*pat => (*pat)->EnumVariant_bindings));
                    }
                }
                self.bind_pbinds(bindings)
            },
            HirPattern::Tuple { elements, .. } => {
                proof { assert(decreases_to!(*pat => (*pat)->Tuple_elements)); }
                self.bind_pats(elements)
            },
            HirPattern::OptionSome(x) => self.register_pattern_bindings(x),
            HirPattern::ResultOk(x) => self.register_pattern_bindings(x),
            HirPattern::ResultErr(x) => self.register_pattern_bindings(x),
            _ => self.next_local,
        }
    }

    /// Binds the variables of the sub-patterns of `xs` in turn; the first sub-pattern
    /// gives the number (the next number when there is none).
    fn bind_pbinds(&mut self, xs: &Vec<(Symbol, HirPattern)>) -> (r: u32)
        requires
            forall|i: int| 0 <= i < xs@.len() ==> bind_ok(#[trigger] xs@[i].1, bind_pbinds_after(*xs, i as nat, old(self).locals())),
        ensures
            r == (if xs@.len() > 0 { bind_first(xs@[0].1, old(self).locals()) } else { old(self).locals().1 as u32 }),
            final(self).locals() == bind_pbinds_after(*xs, xs@.len(), old(self).locals()),
            final(self).strs() == old(self).strs(),
        decreases xs, xs@.len(),
    {
        let ghost st0 = self.locals();
        if xs.len() == 0 {
            return self.next_local;
        }
        proof { assert(decreases_to!(*xs => xs@[0])); }
        let first = self.register_pattern_bindings(&xs[0].1);
        let mut i: usize = 1;
        while i < xs.len()
            invariant
                1 <= i <= xs@.len(),
                st0 == old(self).locals(),
                self.strs() == old(self).strs(),
                self.locals() == bind_pbinds_after(*xs, i as nat, st0),
                forall|k: int| 0 <= k < xs@.len() ==> bind_ok(#[trigger] xs@[k].1, bind_pbinds_after(*xs, k as nat, st0)),
            decreases xs@.len() - i,
        {
            proof { assert(decreases_to!(*xs => xs@[i as int])); }
            self.register_pattern_bindings(&xs[i].1);
            i = i + 1;
        }
        first
    }

    /// Binds the variables of the patterns of `xs` in turn; the first pattern gives
    /// the number (the next number when there is none).
    fn bind_pats(&mut self, xs: &Vec<HirPattern>) -> (r: u32)
        requires
            forall|i: int| 0 <= i < xs@.len() ==> bind_ok(#[trigger] xs@[i], bind_pats_after(*xs, i as nat, old(self).locals())),
        ensures
            r == (if xs@.len() > 0 { bind_first(xs@[0], old(self).locals()) } else { old(self).locals().1 as u32 }),
            final(self).locals() == bind_pats_after(*xs, xs@.len(), old(self).locals()),
            final(self).strs() == old(self).strs(),
        decreases xs, xs@.len(),
    {
        let ghost st0 = self.locals();
        if xs.len() == 0 {
            return self.next_local;
        }
        proof { assert(decreases_to!(*xs => xs@[0])); }
        let first = self.register_pattern_bindings(&xs[0]);
        let mut i: usize = 1;
        while i < xs.len()
            invariant
                1 <= i <= xs@.len(),
                st0 == old(self).locals(),
                self.strs() == old(self).strs(),
                self.locals() == bind_pats_after(*xs, i as nat, st0),
                forall|k: int| 0 <= k < xs@.len() ==> bind_ok(#[trigger] xs@[k], bind_pats_after(*xs, k as nat, st0)),
            decreases xs@.len() - i,
        {
            proof { assert(decreases_to!(*xs => xs@[i as int])); }
            self.register_pattern_bindings(&xs[i]);
            i = i + 1;
        }
        first
    }

    /// Normalizes an optional boxed expression.
    fn normalize_opt(&mut self, e: &Option<Box<HirExpr>>) -> (r: Option<Box<NormalizedExpr>>)
        requires
            match *e {
                Some(x) => expr_ok(*x, old(self).locals(), old(self).strs().len()),
                None => true,
            },
        ensures
            opt_norm(*e, old(self).locals(), old(self).strs(), r),
            final(self).locals() == (match *e {
                Some(x) => expr_after(*x, old(self).locals()),
                None => old(self).locals(),
            }),
            final(self).strs() == old(self).strs(),
        decreases e, 0nat,
    {
        match e {
            Some(x) => Some(Box::new(self.normalize_expr(x))),
            None => None,
        }
    }

    /// Normalizes an expression; see `expr_norm`.
    pub fn normalize_expr(&mut self, expr: &HirExpr) -> (r: NormalizedExpr)
        requires
            expr_ok(*expr, old(self).locals(), old(self).strs().len()),
        ensures
            expr_norm(*expr, old(self).locals(), old(self).strs(), r),
            final(self).locals() == expr_after(*expr, old(self).locals()),
            final(self).strs() == old(self).strs(),
        decreases expr, 0nat,
    {
        match expr {
            HirExpr::IntLit { value, .. } => NormalizedExpr::IntLit(*value),
            HirExpr::FloatLit { value, .. } => NormalizedExpr::FloatLit(*value),
            HirExpr::BoolLit { value, .. } => NormalizedExpr::BoolLit(*value),
            HirExpr::StrLit { value, .. } => NormalizedExpr::StrLit(value.clone()),
            HirExpr::UnitLit { .. } => NormalizedExpr::UnitLit,
            HirExpr::Ident { name, .. } => match self.local_of(*name) {
                Some(i) => NormalizedExpr::Local(i),
                None => NormalizedExpr::Name(self.interner.resolve(*name).to_owned()),
            },
            HirExpr::Binary { op, lhs, rhs, .. } => {
                let lhs_n = self.normalize_expr(lhs);
                let rhs_n = self.normalize_expr(rhs);
                if op.is_commutative() && order_expr(&lhs_n, &rhs_n) == Order::Greater {
                    NormalizedExpr::Binary { op: *op, lhs: Box::new(rhs_n), rhs: Box::new(lhs_n) }
                } else {
                    NormalizedExpr::Binary { op: *op, lhs: Box::new(lhs_n), rhs: Box::new(rhs_n) }
                }
            },
            HirExpr::Unary { op, operand, .. } => {
                let operand_n = self.normalize_expr(operand);
                match op {
                    HirUnOp::Not => match operand_n {
                        NormalizedExpr::Unary { op: HirUnOp::Not, operand: inner } => *inner,
                        other => NormalizedExpr::Unary { op: HirUnOp::Not, operand: Box::new(other) },
                    },
                    HirUnOp::Neg => NormalizedExpr::Unary { op: HirUnOp::Neg, operand: Box::new(operand_n) },
                }
            },
            HirExpr::Block { stmts, .. } => {
                proof { assert(decreases_to!(*expr => (*expr)->Block_stmts)); }
                NormalizedExpr::Block { stmts: self.normalize_stmts(stmts) }
            },
            HirExpr::If { condition, then_branch, else_branch, .. } => {
                let c = self.normalize_expr(condition);
                let t = self.normalize_expr(then_branch);
                let e = self.normalize_opt(else_branch);
                NormalizedExpr::If { condition: Box::new(c), then_branch: Box::new(t), else_branch: e }
            },
            HirExpr::Call { callee, args, .. } => {
                proof { assert(decreases_to!(*expr => (*expr)->Call_args)); }
                let c = self.resolve_name(*callee);
                let ys = self.normalize_exprs(args);
                NormalizedExpr::Call { callee: c, args: ys }
            },
            HirExpr::MethodCall { receiver, method_name, resolved_callee, args, .. } => {
                proof { assert(decreases_to!(*expr => (*expr)->MethodCall_args)); }
                let r = self.normalize_expr(receiver);
                let m = self.resolve_name(*method_name);
                let rc = match resolved_callee {
                    Some(c) => Some(self.resolve_name(*c)),
                    None => None,
                };
                let ys = self.normalize_exprs(args);
                NormalizedExpr::MethodCall { receiver: Box::new(r), method_name: m, resolved_callee: rc, args: ys }
            },
            HirExpr::Assert { condition, message, .. } => {
                let c = self.normalize_expr(condition);
                let m = self.normalize_opt(message);
                NormalizedExpr::Assert { condition: Box::new(c), message: m }
            },
            HirExpr::Match { scrutinee, arms, .. } => {
                proof { assert(decreases_to!(*expr => (*expr)->Match_arms)); }
                let x = self.normalize_expr(scrutinee);
                let ys = self.normalize_arms(arms);
                NormalizedExpr::Match { scrutinee: Box::new(x), arms: ys }
            },
            HirExpr::FieldAccess { object, field, .. } => {
                let o = self.normalize_expr(object);
                let f = self.resolve_name(*field);
                NormalizedExpr::FieldAccess { object: Box::new(o), field: f }
            },
            HirExpr::StructLit { struct_name, fields, .. } => {
                proof { assert(decreases_to!(*expr => (*expr)->StructLit_fields)); }
                let n = self.resolve_name(*struct_name);
                let fs = self.normalize_fields(fields);
                NormalizedExpr::StructLit { struct_name: n, fields: fs }
            },
            HirExpr::EnumVariant { enum_name, variant_name, args, .. } => {
                proof { assert(decreases_to!(*expr => (*expr)->EnumVariant_args)); }
                let en = self.resolve_name(*enum_name);
                let vn = self.resolve_name(*variant_name);
                let ys = self.normalize_exprs(args);
                NormalizedExpr::EnumVariant { enum_name: en, variant_name: vn, args: ys }
            },
            HirExpr::ForIn { pattern, iter, body, .. } => {
                let p = self.normalize_pattern(pattern);
                let it = self.normalize_expr(iter);
                let b = self.normalize_expr(body);
                NormalizedExpr::ForIn { pattern: p, iter: Box::new(it), body: Box::new(b) }
            },
            HirExpr::While { condition, body, .. } => {
                let c = self.normalize_expr(condition);
                let b = self.normalize_expr(body);
                NormalizedExpr::While { condition: Box::new(c), body: Box::new(b) }
            },
            HirExpr::Return { value, .. } => NormalizedExpr::Return { value: self.normalize_opt(value) },
            HirExpr::As { expr: inner, target_type, .. } => {
                let x = self.normalize_expr(inner);
                NormalizedExpr::As { expr: Box::new(x), target_type: copy_type(target_type) }
            },
            HirExpr::SizeOf { target_type, .. } => NormalizedExpr::SizeOf { target_type: copy_type(target_type) },
            HirExpr::TupleLit { elements, .. } => {
                proof { assert(decreases_to!(*expr => (*expr)->TupleLit_elements)); }
                NormalizedExpr::TupleLit { elements: self.normalize_exprs(elements) }
            },
            HirExpr::AddrOf { target, .. } => NormalizedExpr::AddrOf { target: self.resolve_name(*target) },
            HirExpr::Deref { expr: inner, .. } => NormalizedExpr::Deref { expr: Box::new(self.normalize_expr(inner)) },
            HirExpr::Println { arg, .. } => NormalizedExpr::Println { arg: Box::new(self.normalize_expr(arg)) },
        }
    }

    /// Normalizes the expressions of `xs` in turn.
    fn normalize_exprs(&mut self, xs: &Vec<HirExpr>) -> (ys: Vec<NormalizedExpr>)
        requires
            forall|i: int| 0 <= i < xs@.len() ==> expr_ok(#[trigger] xs@[i], exprs_after(*xs, i as nat, old(self).locals()), old(self).strs().len()),
        ensures
            ys@.len() == xs@.len(),
            forall|i: int| 0 <= i < xs@.len() ==> expr_norm(#[trigger] xs@[i], exprs_after(*xs, i as nat, old(self).locals()), old(self).strs(), ys@[i]),
            final(self).locals() == exprs_after(*xs, xs@.len(), old(self).locals()),
            final(self).strs() == old(self).strs(),
        decreases xs, xs@.len(),
    {
        let ghost st0 = self.locals();
        let ghost strs = self.strs();
        let mut ys: Vec<NormalizedExpr> = Vec::new();
        let mut i: usize = 0;
        while i < xs.len()
            invariant
                0 <= i <= xs@.len(),
                ys@.len() == i,
                st0 == old(self).locals(),
                strs == old(self).strs(),
                self.strs() == strs,
                self.locals() == exprs_after(*xs, i as nat, st0),
                forall|k: int| 0 <= k < xs@.len() ==> expr_ok(#[trigger] xs@[k], exprs_after(*xs, k as nat, st0), strs.len()),
                forall|k: int| 0 <= k < i ==> expr_norm(#[trigger] xs@[k], exprs_after(*xs, k as nat, st0), strs, ys@[k]),
            decreases xs@.len() - i,
        {
            proof { assert(decreases_to!(*xs => xs@[i as int])); }
            let y = self.normalize_expr(&xs[i]);
            ys.push(y);
            i = i + 1;
        }
        ys
    }

    /// Normalizes the values of the named fields of `xs` in turn.
    fn normalize_fields(&mut self, xs: &Vec<(Symbol, HirExpr)>) -> (ys: Vec<(String, NormalizedExpr)>)
        requires
            forall|i: int| 0 <= i < xs@.len() ==> expr_ok((#[trigger] xs@[i]).1, fields_after(*xs, i as nat, old(self).locals()), old(self).strs().len()),
        ensures
            ys@.len() == xs@.len(),
            forall|i: int| 0 <= i < xs@.len() ==> (#[trigger] ys@[i]).0@ == name_text(old(self).strs(), xs@[i].0)
                && expr_norm(xs@[i].1, fields_after(*xs, i as nat, old(self).locals()), old(self).strs(), ys@[i].1),
            final(self).locals() == fields_after(*xs, xs@.len(), old(self).locals()),
            final(self).strs() == old(self).strs(),
        decreases xs, xs@.len(),
    {
        let ghost st0 = self.locals();
        let ghost strs = self.strs();
        let mut ys: Vec<(String, NormalizedExpr)> = Vec::new();
        let mut i: usize = 0;
        while i < xs.len()
            invariant
                0 <= i <= xs@.len(),
                ys@.len() == i,
                st0 == old(self).locals(),
                strs == old(self).strs(),
                self.strs() == strs,
                self.locals() == fields_after(*xs, i as nat, st0),
                forall|k: int| 0 <= k < xs@.len() ==> expr_ok((#[trigger] xs@[k]).1, fields_after(*xs, k as nat, st0), strs.len()),
                forall|k: int| 0 <= k < i ==> (#[trigger] ys@[k]).0@ == name_text(strs, xs@[k].0)
                    && expr_norm(xs@[k].1, fields_after(*xs, k as nat, st0), strs, ys@[k].1),
            decreases xs@.len() - i,
        {
            proof { assert(decreases_to!(*xs => xs@[i as int])); }
            let f = self.resolve_name(xs[i].0);
            let y = self.normalize_expr(&xs[i].1);
            ys.push((f, y));
            i = i + 1;
        }
        ys
    }

    /// Normalizes a statement; see `stmt_norm`.
    pub fn normalize_stmt(&mut self, stmt: &HirStmt) -> (r: NormalizedStmt)
        requires
            stmt_ok(*stmt, old(self).locals(), old(self).strs().len()),
        ensures
            stmt_norm(*stmt, old(self).locals(), old(self).strs(), r),
            final(self).locals() == stmt_after(*stmt, old(self).locals()),
            final(self).strs() == old(self).strs(),
        decreases stmt, 0nat,
    {
        match stmt {
            HirStmt::Let { name, mutable, value, .. } => {
                let local_id = self.register_local(*name);
                let v = self.normalize_expr(value);
                NormalizedStmt::Let { local_id, mutable: *mutable, value: v }
            },
            HirStmt::LetPat { pattern, mutable, value, .. } => {
                let local_id = self.register_pattern_bindings(pattern);
                let v = self.normalize_expr(value);
                NormalizedStmt::Let { local_id, mutable: *mutable, value: v }
            },
            HirStmt::Assign { target, value, .. } => {
                let local_id = match self.local_of(*target) {
                    Some(i) => i,
                    None => {
                        proof { assert(false); }
                        0
                    },
                };
                let v = self.normalize_expr(value);
                NormalizedStmt::Assign { local_id, value: v }
            },
            HirStmt::AssignField { object, field, value, .. } => {
                let o = self.normalize_expr(object);
                let f = self.resolve_name(*field);
                let v = self.normalize_expr(value);
                NormalizedStmt::AssignField { object: o, field: f, value: v }
            },
            HirStmt::AssignDeref { target, value, .. } => {
                let t = self.normalize_expr(target);
                let v = self.normalize_expr(value);
                NormalizedStmt::AssignDeref { target: t, value: v }
            },
            HirStmt::Expr(x) => NormalizedStmt::Expr(self.normalize_expr(x)),
        }
    }

    /// Normalizes the statements of `xs` in turn.
    fn normalize_stmts(&mut self, xs: &Vec<HirStmt>) -> (ys: Vec<NormalizedStmt>)
        requires
            forall|i: int| 0 <= i < xs@.len() ==> stmt_ok(#[trigger] xs@[i], stmts_after(*xs, i as nat, old(self).locals()), old(self).strs().len()),
        ensures
            ys@.len() == xs@.len(),
            forall|i: int| 0 <= i < xs@.len() ==> stmt_norm(#[trigger] xs@[i], stmts_after(*xs, i as nat, old(self).locals()), old(self).strs(), ys@[i]),
            final(self).locals() == stmts_after(*xs, xs@.len(), old(self).locals()),
            final(self).strs() == old(self).strs(),
        decreases xs, xs@.len(),
    {
        let ghost st0 = self.locals();
        let ghost strs = self.strs();
        let mut ys: Vec<NormalizedStmt> = Vec::new();
        let mut i: usize = 0;
        while i < xs.len()
            invariant
                0 <= i <= xs@.len(),
                ys@.len() == i,
                st0 == old(self).locals(),
                strs == old(self).strs(),
                self.strs() == strs,
                self.locals() == stmts_after(*xs, i as nat, st0),
                forall|k: int| 0 <= k < xs@.len() ==> stmt_ok(#[trigger] xs@[k], stmts_after(*xs, k as nat, st0), strs.len()),
                forall|k: int| 0 <= k < i ==> stmt_norm(#[trigger] xs@[k], stmts_after(*xs, k as nat, st0), strs, ys@[k]),
            decreases xs@.len() - i,
        {
            proof { assert(decreases_to!(*xs => xs@[i as int])); }
            let y = self.normalize_stmt(&xs[i]);
            ys.push(y);
            i = i + 1;
        }
        ys
    }

    /// Normalizes a match arm: pattern, guard, body.
    fn normalize_match_arm(&mut self, arm: &MatchArm) -> (r: NormalizedMatchArm)
        requires
            pat_ok(arm.pattern, old(self).locals()),
            match arm.guard {
                Some(g) => expr_ok(g, pat_after(arm.pattern, old(self).locals()), old(self).strs().len()),
                None => true,
            },
            expr_ok(arm.body, guard_after(arm.guard, pat_after(arm.pattern, old(self).locals())), old(self).strs().len()),
        ensures
            pat_norm(arm.pattern, old(self).locals(), old(self).strs(), r.pattern),
            match arm.guard {
                Some(g) => r.guard matches Some(h) && expr_norm(g, pat_after(arm.pattern, old(self).locals()), old(self).strs(), h),
                None => r.guard is None,
            },
            expr_norm(arm.body, guard_after(arm.guard, pat_after(arm.pattern, old(self).locals())), old(self).strs(), r.body),
            final(self).locals() == arm_after(*arm, old(self).locals()),
            final(self).strs() == old(self).strs(),
        decreases arm, 0nat,
    {
        let pattern = self.normalize_pattern(&arm.pattern);
        let guard = match &arm.guard {
            Some(g) => Some(self.normalize_expr(g)),
            None => None,
        };
        let body = self.normalize_expr(&arm.body);
        NormalizedMatchArm { pattern, guard, body }
    }

    /// Normalizes the arms of `xs` in turn.
    fn normalize_arms(&mut self, xs: &Vec<MatchArm>) -> (ys: Vec<NormalizedMatchArm>)
        requires
            forall|i: int| 0 <= i < xs@.len() ==> {
                let s0 = arms_after(*xs, i as nat, old(self).locals());
                let s1 = pat_after((#[trigger] xs@[i]).pattern, s0);
                &&& pat_ok(xs@[i].pattern, s0)
                &&& match xs@[i].guard {
                    Some(g) => expr_ok(g, s1, old(self).strs().len()),
                    None => true,
                }
                &&& expr_ok(xs@[i].body, guard_after(xs@[i].guard, s1), old(self).strs().len())
            },
        ensures
            ys@.len() == xs@.len(),
            forall|i: int| 0 <= i < xs@.len() ==> {
                let s0 = arms_after(*xs, i as nat, old(self).locals());
                let a = #[trigger] xs@[i];
                let sp = pat_after(a.pattern, s0);
                &&& pat_norm(a.pattern, s0, old(self).strs(), ys@[i].pattern)
                &&& match a.guard {
                    Some(g) => ys@[i].guard matches Some(h) && expr_norm(g, sp, old(self).strs(), h),
                    None => ys@[i].guard is None,
                }
                &&& expr_norm(a.body, guard_after(a.guard, sp), old(self).strs(), ys@[i].body)
            },
            final(self).locals() == arms_after(*xs, xs@.len(), old(self).locals()),
            final(self).strs() == old(self).strs(),
        decreases xs, xs@.len(),
    {
        let ghost st0 = self.locals();
        let ghost strs = self.strs();
        let mut ys: Vec<NormalizedMatchArm> = Vec::new();
        let mut i: usize = 0;
        while i < xs.len()
            invariant
                0 <= i <= xs@.len(),
                ys@.len() == i,
                st0 == old(self).locals(),
                strs == old(self).strs(),
                self.strs() == strs,
                self.locals() == arms_after(*xs, i as nat, st0),
                forall|k: int| 0 <= k < xs@.len() ==> {
                    let s0 = arms_after(*xs, k as nat, st0);
                    let s1 = pat_after((#[trigger] xs@[k]).pattern, s0);
                    &&& pat_ok(xs@[k].pattern, s0)
                    &&& match xs@[k].guard {
                        Some(g) => expr_ok(g, s1, strs.len()),
                        None => true,
                    }
                    &&& expr_ok(xs@[k].body, guard_after(xs@[k].guard, s1), strs.len())
                },
                forall|k: int| 0 <= k < i ==> {
                    let s0 = arms_after(*xs, k as nat, st0);
                    let a = #[trigger] xs@[k];
                    let sp = pat_after(a.pattern, s0);
                    &&& pat_norm(a.pattern, s0, strs, ys@[k].pattern)
                    &&& match a.guard {
                        Some(g) => ys@[k].guard matches Some(h) && expr_norm(g, sp, strs, h),
                        None => ys@[k].guard is None,
                    }
                    &&& expr_norm(a.body, guard_after(a.guard, sp), strs, ys@[k].body)
                },
            decreases xs@.len() - i,
        {
            proof { assert(decreases_to!(*xs => xs@[i as int])); }
            let y = self.normalize_match_arm(&xs[i]);
            ys.push(y);
            i = i + 1;
        }
        ys
    }

    /// Normalizes a function: its parameters are bound in order to locals `0`, `1`,
    /// ... and renamed `_p0`, `_p1`, ...; see `fn_norm`.
    pub fn normalize_fn(&mut self, hir_fn: &HirFn) -> (r: NormalizedHirFn)
        requires
            fn_ok(*hir_fn, old(self).strs().len()),
        ensures
            fn_norm(*hir_fn, old(self).strs(), r),
            final(self).strs() == old(self).strs(),
    {
        let ghost strs = self.strs();
        self.local_map = Vec::new();
        self.next_local = 0;
        assert(self.locals() =~= (Map::<Symbol, u32>::empty(), 0nat));
        let mut i: usize = 0;
        while i < hir_fn.params.len()
            invariant
                0 <= i <= hir_fn.params@.len(),
                hir_fn.params@.len() <= u32::MAX,
                self.strs() == strs,
                self.locals() == params_locals(hir_fn.params@, i as nat),
            decreases hir_fn.params@.len() - i,
        {
            proof {
                lemma_params_locals_next(hir_fn.params@, i as nat);
            }
            self.register_param(hir_fn.params[i].0);
            i = i + 1;
        }
        let body = self.normalize_expr(&hir_fn.body);
        let mut params: Vec<(String, HirType)> = Vec::new();
        let mut j: usize = 0;
        while j < hir_fn.params.len()
            invariant
                0 <= j <= hir_fn.params@.len(),
                params@.len() == j,
                forall|k: int| 0 <= k < j ==> (#[trigger] params@[k]).0@ == param_name(k as nat)
                    && ty_eq(params@[k].1, hir_fn.params@[k].1),
            decreases hir_fn.params@.len() - j,
        {
            let mut name = String::from_str("_p");
            let digits = decimal(j as u64);
            name.append(digits.as_str());
            params.push((name, copy_type(&hir_fn.params[j].1)));
            j = j + 1;
        }
        let mut type_params: Vec<String> = Vec::new();
        let mut k: usize = 0;
        while k < hir_fn.type_params.len()
            invariant
                0 <= k <= hir_fn.type_params@.len(),
                type_params@.len() == k,
                self.strs() == strs,
                forall|q: int| 0 <= q < k ==> (#[trigger] type_params@[q])@ == name_text(strs, hir_fn.type_params@[q]),
            decreases hir_fn.type_params@.len() - k,
        {
            type_params.push(self.resolve_name(hir_fn.type_params[k]));
            k = k + 1;
        }
        let mut param_mutability: Vec<bool> = Vec::new();
        let mut m: usize = 0;
        while m < hir_fn.param_mutability.len()
            invariant
                0 <= m <= hir_fn.param_mutability@.len(),
                param_mutability@ == hir_fn.param_mutability@.take(m as int),
            decreases hir_fn.param_mutability@.len() - m,
        {
            param_mutability.push(hir_fn.param_mutability[m]);
            assert(param_mutability@ =~= hir_fn.param_mutability@.take(m + 1));
            m = m + 1;
        }
        assert(param_mutability@ =~= hir_fn.param_mutability@);
        let ret = match &hir_fn.ret {
            Some(t) => Some(copy_type(t)),
            None => None,
        };
        NormalizedHirFn {
            name: self.resolve_name(hir_fn.name),
            type_params,
            params,
            param_mutability,
            ret,
            body,
            is_pub: hir_fn.is_pub,
            is_extern_backed: hir_fn.is_extern_backed,
        }
    }
}

/// The bookkeeping after binding the first `n` parameters, from nothing bound.
pub open spec fn params_locals(ps: Seq<(Symbol, HirType)>, n: nat) -> Locals
    decreases n,
{
    if n == 0 || n > ps.len() {
        (Map::empty(), 0)
    } else {
        bind_local(params_locals(ps, (n - 1) as nat), ps[n - 1].0)
    }
}

/// After binding `n` parameters the next local number is `n`.
pub proof fn lemma_params_locals_next(ps: Seq<(Symbol, HirType)>, n: nat)
    requires
        n <= ps.len(),
    ensures
        params_locals(ps, n).1 == n,
    decreases n,
{
    if n > 0 {
        lemma_params_locals_next(ps, (n - 1) as nat);
    }
}

/// The decimal digit `d`.
pub open spec fn digit_char(d: nat) -> char {
    if d == 0 { '0' } else if d == 1 { '1' } else if d == 2 { '2' } else if d == 3 { '3' } else if d == 4 { '4' }
    else if d == 5 { '5' } else if d == 6 { '6' } else if d == 7 { '7' } else if d == 8 { '8' } else { '9' }
}

/// The decimal text of `n`, without leading zeros.
pub open spec fn dec_text(n: nat) -> Seq<char>
    decreases n,
{
    if n < 10 {
        seq![digit_char(n)]
    } else {
        dec_text(n / 10) + seq![digit_char(n % 10)]
    }
}

/// The canonical name of the parameter at position `i`: `_p` and the decimal `i`.
pub open spec fn param_name(i: nat) -> Seq<char> {
    "_p"@ + dec_text(i)
}

/// The text of the decimal digit `d`.
fn digit_str(d: u64) -> (r: &'static str)
    requires
        d < 10,
    ensures
        r@ == seq![digit_char(d as nat)],
{
    if d == 0 {
        proof { reveal_strlit("0"); }
        "0"
    } else if d == 1 {
        proof { reveal_strlit("1"); }
        "1"
    } else if d == 2 {
        proof { reveal_strlit("2"); }
        "2"
    } else if d == 3 {
        proof { reveal_strlit("3"); }
        "3"
    } else if d == 4 {
        proof { reveal_strlit("4"); }
        "4"
    } else if d == 5 {
        proof { reveal_strlit("5"); }
        "5"
    } else if d == 6 {
        proof { reveal_strlit("6"); }
        "6"
    } else if d == 7 {
        proof { reveal_strlit("7"); }
        "7"
    } else if d == 8 {
        proof { reveal_strlit("8"); }
        "8"
    } else {
        proof { reveal_strlit("9"); }
        "9"
    }
}

/// The decimal text of `n`.
pub fn decimal(n: u64) -> (r: String)
    ensures
        r@ == dec_text(n as nat),
    decreases n,
{
    if n < 10 {
        String::from_str(digit_str(n))
    } else {
        let mut s = decimal(n / 10);
        s.append(digit_str(n % 10));
        s
    }
}

/// Normalizing `f` is defined: at most `u32::MAX` parameters, and a body whose
/// normalization is defined once the parameters are bound.
pub open spec fn fn_ok(f: HirFn, n: nat) -> bool {
    &&& f.params@.len() <= u32::MAX
    &&& expr_ok(f.body, params_locals(f.params@, f.params@.len()), n)
}

/// `out` is the normal form of function `f`: its name and type parameters spelled
/// out, its parameters renamed `_p0`, `_p1`, ... with their types, its body
/// normalized with the parameters bound to locals `0`, `1`, ..., and its other
/// parts kept.
pub open spec fn fn_norm(f: HirFn, strs: Seq<Seq<char>>, out: NormalizedHirFn) -> bool {
    &&& out.name@ == name_text(strs, f.name)
    &&& out.type_params@.len() == f.type_params@.len()
    &&& forall|i: int| 0 <= i < f.type_params@.len() ==> (#[trigger] out.type_params@[i])@ == name_text(strs, f.type_params@[i])
    &&& out.params@.len() == f.params@.len()
    &&& forall|i: int| 0 <= i < f.params@.len() ==> (#[trigger] out.params@[i]).0@ == param_name(i as nat)
        && ty_eq(out.params@[i].1, f.params@[i].1)
    &&& out.param_mutability@ == f.param_mutability@
    &&& match f.ret {
        Some(t) => out.ret matches Some(u) && ty_eq(u, t),
        None => out.ret is None,
    }
    &&& expr_norm(f.body, params_locals(f.params@, f.params@.len()), strs, out.body)
    &&& out.is_pub == f.is_pub
    &&& out.is_extern_backed == f.is_extern_backed
}

impl NormalizedHirFn {
    /// The normal form of `hir_fn`, names spelled out through `interner`.
    pub fn from_hir_fn(hir_fn: &HirFn, interner: &Interner) -> (r: NormalizedHirFn)
        requires
            fn_ok(*hir_fn, interner@.len()),
        ensures
            fn_norm(*hir_fn, interner@, r),
    {
        let mut normalizer = SemanticNormalizer::new(interner);
        normalizer.normalize_fn(hir_fn)
    }
}

/// `x` is `!!y` for some `y`.
pub open spec fn double_not(x: NormalizedExpr) -> bool {
    x matches NormalizedExpr::Unary { op: HirUnOp::Not, operand: inner }
        && (*inner matches NormalizedExpr::Unary { op: HirUnOp::Not, .. })
}

/// A normal form never holds `!!` at its top.
pub proof fn lemma_norm_no_double_not(e: HirExpr, st: Locals, strs: Seq<Seq<char>>, out: NormalizedExpr)
    requires
        expr_norm(e, st, strs, out),
    ensures
        !double_not(out),
    decreases e,
{
    match e {
        HirExpr::Unary { op, operand, .. } => {
            if !(out matches NormalizedExpr::Unary { op: o, operand: x } && o == op && expr_norm(*operand, st, strs, *x)
                && !(op is Not && (*x matches NormalizedExpr::Unary { op: HirUnOp::Not, .. }))) {
                let neg = NormalizedExpr::Unary { op: HirUnOp::Not, operand: Box::new(out) };
                lemma_norm_no_double_not(*operand, st, strs, neg);
            }
        },
        _ => {},
    }
}

/// Double negation vanishes: `!!e` has the normal form of `e`.
pub proof fn lemma_double_negation(e: HirExpr, st: Locals, strs: Seq<Seq<char>>, out: NormalizedExpr,
    id1: crate::types::ExprId, id2: crate::types::ExprId, sp1: crate::types::Span, sp2: crate::types::Span)
    requires
        expr_norm(e, st, strs, out),
    ensures
        expr_norm(
            HirExpr::Unary { id: id1, op: HirUnOp::Not, span: sp1,
                operand: Box::new(HirExpr::Unary { id: id2, op: HirUnOp::Not, operand: Box::new(e), span: sp2 }) },
            st, strs, out),
{
    lemma_norm_no_double_not(e, st, strs, out);
    let inner = HirExpr::Unary { id: id2, op: HirUnOp::Not, operand: Box::new(e), span: sp2 };
    match out {
        NormalizedExpr::Unary { op: HirUnOp::Not, operand: y } => {
            assert(out == NormalizedExpr::Unary { op: HirUnOp::Not, operand: Box::new(*y) });
            assert(expr_norm(inner, st, strs, *y));
        },
        _ => {
            let neg = NormalizedExpr::Unary { op: HirUnOp::Not, operand: Box::new(out) };
            assert(expr_norm(inner, st, strs, neg));
        },
    }
}


/// Operands of a non-commutative operator keep their order: the normal form of
/// `l op r` has the normal form of `l` on the left and that of `r` (normalized after
/// `l`) on the right, so `b / a` and `a / b` stay apart.
pub proof fn lemma_noncommutative_operands_keep_order(e: HirExpr, st: Locals, strs: Seq<Seq<char>>, out: NormalizedExpr)
    requires
        e is Binary,
        !e->Binary_op.spec_is_commutative(),
        expr_norm(e, st, strs, out),
    ensures
        out is Binary,
        out->Binary_op == e->Binary_op,
        expr_norm(*e->Binary_lhs, st, strs, *out->Binary_lhs),
        expr_norm(*e->Binary_rhs, expr_after(*e->Binary_lhs, st), strs, *out->Binary_rhs),
{
}

/// Operands of a commutative operator are put in order: they are the normal forms of
/// the source operands, kept in source order when the left one is not greater than
/// the right one, and swapped exactly when the source order would put the greater one
/// first.
pub proof fn lemma_commutative_operands_ordered(e: HirExpr, st: Locals, strs: Seq<Seq<char>>, out: NormalizedExpr)
    requires
        e is Binary,
        e->Binary_op.spec_is_commutative(),
        expr_norm(e, st, strs, out),
    ensures
        out is Binary,
        out->Binary_op == e->Binary_op,
        (expr_norm(*e->Binary_lhs, st, strs, *out->Binary_lhs)
            && expr_norm(*e->Binary_rhs, expr_after(*e->Binary_lhs, st), strs, *out->Binary_rhs)
            && !(ord_expr(*out->Binary_lhs, *out->Binary_rhs) is Greater))
        || (expr_norm(*e->Binary_lhs, st, strs, *out->Binary_rhs)
            && expr_norm(*e->Binary_rhs, expr_after(*e->Binary_lhs, st), strs, *out->Binary_lhs)
            && ord_expr(*out->Binary_rhs, *out->Binary_lhs) is Greater),
{
}

} // verus!

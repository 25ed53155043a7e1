use vstd::prelude::*;
use crate::node::{HirBinOp, HirExpr, HirStmt, HirUnOp};
use crate::symbol::Symbol;
use crate::types::{copy_type, ty_eq, HirType};

verus! {

/// A literal value known of an e-class.
#[derive(Clone, Debug, PartialEq, Eq, Hash, Structural)]
pub enum ConstValue {
    Int(i64),
    /// A float, held as its IEEE-754 bits.
    Float(u64),
    Bool(bool),
}

/// Limits of one run of the e-graph optimizer.
pub struct OptimizeConfig {
    pub iter_limit: usize,
    pub node_limit: usize,
    pub time_limit_ms: u64,
    pub memory_budget: usize,
}

impl Default for OptimizeConfig {
    fn default() -> (r: Self)
        ensures
            r.iter_limit == 10,
            r.node_limit == 50_000,
            r.time_limit_ms == 50,
            r.memory_budget == 100 * 1024 * 1024,
    {
        OptimizeConfig { iter_limit: 10, node_limit: 50_000, time_limit_ms: 50, memory_budget: 100 * 1024 * 1024 }
    }
}

/// The term that an expression becomes in the e-graph, node by node, with the type
/// that each node records for its e-class. Literals, variables, operators, calls,
/// `if` and `while` have nodes of their own; a block stands for the terms of its
/// `let` values and expression statements (`None` for its other statements), of which
/// the last is its value, and `0` when there is none; every other expression becomes
/// the number `0`, with no type.
pub enum ETerm {
    Num(i64, Option<HirType>),
    FNum(u64),
    BoolLit(bool),
    StrLit(String),
    Var(Symbol, Option<HirType>),
    Bin(HirBinOp, Box<ETerm>, Box<ETerm>, HirType),
    Un(HirUnOp, Box<ETerm>, Option<HirType>),
    Call(Symbol, Vec<ETerm>, Option<HirType>),
    If(Box<ETerm>, Box<ETerm>, Box<ETerm>),
    While(Box<ETerm>, Box<ETerm>),
    Block(Vec<Option<ETerm>>),
}

/// The type that type checking recorded for the expression numbered `id`, if any.
pub open spec fn recorded(types: Seq<HirType>, id: nat) -> Option<HirType> {
    if id < types.len() { Some(types[id as int]) } else { None }
}

/// Two optional types are structurally equal.
pub open spec fn opt_ty_eq(a: Option<HirType>, b: Option<HirType>) -> bool {
    match a {
        Some(x) => b matches Some(y) && ty_eq(x, y),
        None => b is None,
    }
}

/// `t` is the term of `e`, with the types of `types`: see `ETerm`. A binary node
/// records its recorded type, else `Int`; an `if` records `Int` and a `while` `Unit`.
pub open spec fn term_ok(e: HirExpr, types: Seq<HirType>, t: ETerm) -> bool
    decreases e, 0nat,
{
    match e {
        HirExpr::IntLit { value, .. } => t == ETerm::Num(value, Some(HirType::Int)),
        HirExpr::FloatLit { value, .. } => t == ETerm::FNum(value),
        HirExpr::BoolLit { value, .. } => t == ETerm::BoolLit(value),
        HirExpr::StrLit { value, .. } => t matches ETerm::StrLit(s) && s@ == value@,
        HirExpr::Ident { id, name, .. } => t matches ETerm::Var(n, ty) && n == name && opt_ty_eq(ty, recorded(types, id.0 as nat)),
        HirExpr::Binary { id, op, lhs, rhs, .. } => t matches ETerm::Bin(o, l, r, ty) && o == op
            && term_ok(*lhs, types, *l) && term_ok(*rhs, types, *r)
            && ty_eq(ty, match recorded(types, id.0 as nat) { Some(x) => x, None => HirType::Int }),
        HirExpr::Unary { id, op, operand, .. } => t matches ETerm::Un(o, x, ty) && o == op
            && term_ok(*operand, types, *x) && opt_ty_eq(ty, recorded(types, id.0 as nat)),
        HirExpr::Call { id, callee, args, .. } => t matches ETerm::Call(c, ts, ty) && c == callee
            && opt_ty_eq(ty, recorded(types, id.0 as nat)) && ts@.len() == args@.len()
            && forall|i: int| 0 <= i < args@.len() ==> term_ok(#[trigger] args@[i], types, ts@[i]),
        HirExpr::If { condition, then_branch, else_branch, .. } => t matches ETerm::If(c, a, b)
            && term_ok(*condition, types, *c) && term_ok(*then_branch, types, *a)
            && match else_branch {
                Some(x) => term_ok(*x, types, *b),
                None => *b == ETerm::Num(0, None),
            },
        HirExpr::While { condition, body, .. } => t matches ETerm::While(c, b)
            && term_ok(*condition, types, *c) && term_ok(*body, types, *b),
        HirExpr::Block { stmts, .. } => t matches ETerm::Block(ts) && ts@.len() == stmts@.len()
            && forall|i: int| 0 <= i < stmts@.len() ==> stmt_term_ok(#[trigger] stmts@[i], types, ts@[i]),
        _ => t == ETerm::Num(0, None),
    }
}

/// The term of a block's statement: that of a `let` value or of an expression
/// statement; no term for the other statements.
pub open spec fn stmt_term_ok(st: HirStmt, types: Seq<HirType>, o: Option<ETerm>) -> bool
    decreases st, 0nat,
{
    match st {
        HirStmt::Expr(x) => o matches Some(t) && term_ok(x, types, t),
        HirStmt::Let { value, .. } => o matches Some(t) && term_ok(value, types, t),
        _ => o is None,
    }
}

/// The type recorded for `id`, copied.
fn recorded_type(types: &[HirType], id: usize) -> (r: Option<HirType>)
    ensures
        opt_ty_eq(r, recorded(types@, id as nat)),
{
    if id < types.len() { Some(copy_type(&types[id])) } else { None }
}

/// The e-graph term of an expression; see `term_ok`.
pub fn hir_expr_to_term(expr: &HirExpr, types: &[HirType]) -> (t: ETerm)
    ensures
        term_ok(*expr, types@, t),
    decreases expr, 0nat,
{
    match expr {
        HirExpr::IntLit { value, .. } => ETerm::Num(*value, Some(HirType::Int)),
        HirExpr::FloatLit { value, .. } => ETerm::FNum(*value),
        HirExpr::BoolLit { value, .. } => ETerm::BoolLit(*value),
        HirExpr::StrLit { value, .. } => ETerm::StrLit(value.clone()),
        HirExpr::Ident { id, name, .. } => ETerm::Var(*name, recorded_type(types, id.as_usize())),
        HirExpr::Binary { id, op, lhs, rhs, .. } => {
            let l = hir_expr_to_term(lhs, types);
            let r = hir_expr_to_term(rhs, types);
            let ty = match recorded_type(types, id.as_usize()) {
                Some(x) => x,
                None => HirType::Int,
            };
            ETerm::Bin(*op, Box::new(l), Box::new(r), ty)
        },
        HirExpr::Unary { id, op, operand, .. } => {
            let x = hir_expr_to_term(operand, types);
            ETerm::Un(*op, Box::new(x), recorded_type(types, id.as_usize()))
        },
        HirExpr::Call { id, callee, args, .. } => {
            proof { assert(decreases_to!(*expr => (*expr)->Call_args)); }
            let mut ts: Vec<ETerm> = Vec::new();
            let mut i: usize = 0;
            while i < args.len()
                invariant
                    0 <= i <= args@.len(),
                    ts@.len() == i,
                    decreases_to!(*expr => *args),
                    forall|k: int| 0 <= k < i ==> term_ok(#[trigger] args@[k], types@, ts@[k]),
                decreases args@.len() - i,
            {
                proof { assert(decreases_to!(*args => args@[i as int])); }
                ts.push(hir_expr_to_term(&args[i], types));
                i = i + 1;
            }
            ETerm::Call(*callee, ts, recorded_type(types, id.as_usize()))
        },
        HirExpr::If { condition, then_branch, else_branch, .. } => {
            let c = hir_expr_to_term(condition, types);
            let a = hir_expr_to_term(then_branch, types);
            let b = match else_branch {
                Some(x) => hir_expr_to_term(x, types),
                None => ETerm::Num(0, None),
            };
            ETerm::If(Box::new(c), Box::new(a), Box::new(b))
        },
        HirExpr::While { condition, body, .. } => {
            let c = hir_expr_to_term(condition, types);
            let b = hir_expr_to_term(body, types);
            ETerm::While(Box::new(c), Box::new(b))
        },
        HirExpr::Block { stmts, .. } => {
            proof { assert(decreases_to!(*expr => (*expr)->Block_stmts)); }
            let mut ts: Vec<Option<ETerm>> = Vec::new();
            let mut i: usize = 0;
            while i < stmts.len()
                invariant
                    0 <= i <= stmts@.len(),
                    ts@.len() == i,
                    decreases_to!(*expr => *stmts),
                    forall|k: int| 0 <= k < i ==> stmt_term_ok(#[trigger] stmts@[k], types@, ts@[k]),
                decreases stmts@.len() - i,
            {
                proof { assert(decreases_to!(*stmts => stmts@[i as int])); }
                let o = match &stmts[i] {
                    HirStmt::Expr(x) => Some(hir_expr_to_term(x, types)),
                    HirStmt::Let { value, .. } => Some(hir_expr_to_term(value, types)),
                    _ => None,
                };
                ts.push(o);
                i = i + 1;
            }
            ETerm::Block(ts)
        },
        _ => ETerm::Num(0, None),
    }
}


/// The else branch is kept: the term of `if c {a} else {b}` has the term of `b` as
/// its third child (only an `if` without `else` gets the number `0` there).
pub proof fn lemma_if_else_branch_kept(e: HirExpr, types: Seq<HirType>, t: ETerm)
    requires
        e is If,
        e->If_else_branch is Some,
        term_ok(e, types, t),
    ensures
        t is If,
        term_ok(*e->If_else_branch->Some_0, types, *t->If_2),
        term_ok(*e->If_condition, types, *t->If_0),
        term_ok(*e->If_then_branch, types, *t->If_1),
{
}

} // verus!

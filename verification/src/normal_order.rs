use vstd::prelude::*;
use crate::node::{HirBinOp, HirUnOp};
use crate::normalize::{NormalizedExpr, NormalizedMatchArm, NormalizedPattern, NormalizedStmt};
use crate::types::HirType;

verus! {

/// The outcome of comparing two values.
#[derive(Clone, Copy, Debug, PartialEq, Eq, Structural)]
pub enum Order {
    Less,
    Equal,
    Greater,
}

/// Numeric order.
pub open spec fn ord_int(a: int, b: int) -> Order {
    if a < b {
        Order::Less
    } else if a == b {
        Order::Equal
    } else {
        Order::Greater
    }
}

/// `false` before `true`.
pub open spec fn ord_bool(a: bool, b: bool) -> Order {
    ord_int(if a { 1 } else { 0 }, if b { 1 } else { 0 })
}

/// Lexicographic combination: the first comparison decides unless it is `Equal`.
pub open spec fn ord_then(first: Order, rest: Order) -> Order {
    if first is Equal {
        rest
    } else {
        first
    }
}

/// Lexicographic order of two strings from position `i` on; a proper prefix comes
/// first. Over code points this is the order of the strings' UTF-8 bytes.
pub open spec fn ord_chars(a: Seq<char>, b: Seq<char>, i: nat) -> Order
    decreases a.len() - i,
{
    if i >= a.len() && i >= b.len() {
        Order::Equal
    } else if i >= a.len() {
        Order::Less
    } else if i >= b.len() {
        Order::Greater
    } else {
        ord_then(ord_int(a[i as int] as int, b[i as int] as int), ord_chars(a, b, i + 1))
    }
}

/// Declaration position of a binary operator.
pub open spec fn binop_rank(op: HirBinOp) -> int {
    match op {
        HirBinOp::Add => 0,
        HirBinOp::Sub => 1,
        HirBinOp::Mul => 2,
        HirBinOp::Div => 3,
        HirBinOp::Mod => 4,
        HirBinOp::Eq => 5,
        HirBinOp::Neq => 6,
        HirBinOp::Lt => 7,
        HirBinOp::Gt => 8,
        HirBinOp::Lte => 9,
        HirBinOp::Gte => 10,
        HirBinOp::And => 11,
        HirBinOp::Or => 12,
    }
}

/// Declaration position of a unary operator.
pub open spec fn unop_rank(op: HirUnOp) -> int {
    match op {
        HirUnOp::Neg => 0,
        HirUnOp::Not => 1,
    }
}

/// Declaration position of a type's variant.
pub open spec fn ty_rank(t: HirType) -> int {
    match t {
        HirType::Int => 0,
        HirType::Bool => 1,
        HirType::Float => 2,
        HirType::Str => 3,
        HirType::Unit => 4,
        HirType::Never => 5,
        HirType::Error => 6,
        HirType::Named(_) => 7,
        HirType::Generic(..) => 8,
        HirType::Tuple(_) => 9,
        HirType::RawPtr(_) => 10,
        HirType::Option(_) => 11,
        HirType::Result(..) => 12,
        HirType::Func(..) => 13,
        HirType::Opaque(_) => 14,
        HirType::Param(_) => 15,
        HirType::Infer(_) => 16,
    }
}

/// The order of types that their derived `Ord` gives: by variant in declaration order,
/// then field by field.
pub open spec fn ord_ty(a: HirType, b: HirType) -> Order
    decreases a, 0nat,
{
    if ty_rank(a) != ty_rank(b) {
        ord_int(ty_rank(a), ty_rank(b))
    } else {
        match a {
            HirType::Named(s) => match b {
                HirType::Named(t) => ord_int(s.0 as int, t.0 as int),
                _ => Order::Equal,
            },
            HirType::Generic(s, xs) => match b {
                HirType::Generic(t, ys) => ord_then(ord_int(s.0 as int, t.0 as int), ord_tys(xs, ys, 0)),
                _ => Order::Equal,
            },
            HirType::Tuple(xs) => match b {
                HirType::Tuple(ys) => ord_tys(xs, ys, 0),
                _ => Order::Equal,
            },
            HirType::RawPtr(x) => match b {
                HirType::RawPtr(y) => ord_ty(*x, *y),
                _ => Order::Equal,
            },
            HirType::Option(x) => match b {
                HirType::Option(y) => ord_ty(*x, *y),
                _ => Order::Equal,
            },
            HirType::Result(x, e) => match b {
                HirType::Result(y, f) => ord_then(ord_ty(*x, *y), ord_ty(*e, *f)),
                _ => Order::Equal,
            },
            HirType::Func(xs, r) => match b {
                HirType::Func(ys, q) => ord_then(ord_tys(xs, ys, 0), ord_ty(*r, *q)),
                _ => Order::Equal,
            },
            HirType::Opaque(s) => match b {
                HirType::Opaque(t) => ord_int(s.0 as int, t.0 as int),
                _ => Order::Equal,
            },
            HirType::Param(s) => match b {
                HirType::Param(t) => ord_int(s.0 as int, t.0 as int),
                _ => Order::Equal,
            },
            HirType::Infer(v) => match b {
                HirType::Infer(w) => ord_int(v.0 as int, w.0 as int),
                _ => Order::Equal,
            },
            _ => Order::Equal,
        }
    }
}

/// Lexicographic order of two lists of types from position `i` on.
pub open spec fn ord_tys(xs: Vec<HirType>, ys: Vec<HirType>, i: nat) -> Order
    decreases xs, xs@.len() - i,
{
    if i >= xs@.len() && i >= ys@.len() {
        Order::Equal
    } else if i >= xs@.len() {
        Order::Less
    } else if i >= ys@.len() {
        Order::Greater
    } else {
        ord_then(ord_ty(xs@[i as int], ys@[i as int]), ord_tys(xs, ys, i + 1))
    }
}

/// Declaration position of a pattern's variant.
pub open spec fn pat_rank(p: NormalizedPattern) -> int {
    match p {
        NormalizedPattern::Wild => 0,
        NormalizedPattern::BoolLit(_) => 1,
        NormalizedPattern::IntLit(_) => 2,
        NormalizedPattern::FloatLit(_) => 3,
        NormalizedPattern::StrLit(_) => 4,
        NormalizedPattern::Unit => 5,
        NormalizedPattern::Local(_) => 6,
        NormalizedPattern::Struct { .. } => 7,
        NormalizedPattern::EnumVariant { .. } => 8,
        NormalizedPattern::Tuple { .. } => 9,
        NormalizedPattern::OptionSome(_) => 10,
        NormalizedPattern::OptionNone => 11,
        NormalizedPattern::ResultOk(_) => 12,
        NormalizedPattern::ResultErr(_) => 13,
    }
}

/// The order of normalized patterns that their derived `Ord` gives.
pub open spec fn ord_pat(a: NormalizedPattern, b: NormalizedPattern) -> Order
    decreases a, 0nat,
{
    if pat_rank(a) != pat_rank(b) {
        ord_int(pat_rank(a), pat_rank(b))
    } else {
        match a {
            NormalizedPattern::BoolLit(x) => match b {
                NormalizedPattern::BoolLit(y) => ord_bool(x, y),
                _ => Order::Equal,
            },
            NormalizedPattern::IntLit(x) => match b {
                NormalizedPattern::IntLit(y) => ord_int(x as int, y as int),
                _ => Order::Equal,
            },
            NormalizedPattern::FloatLit(x) => match b {
                NormalizedPattern::FloatLit(y) => ord_int(x as int, y as int),
                _ => Order::Equal,
            },
            NormalizedPattern::StrLit(x) => match b {
                NormalizedPattern::StrLit(y) => ord_chars(x@, y@, 0),
                _ => Order::Equal,
            },
            NormalizedPattern::Local(x) => match b {
                NormalizedPattern::Local(y) => ord_int(x as int, y as int),
                _ => Order::Equal,
            },
            NormalizedPattern::Struct { name: n1, bindings: b1 } => match b {
                NormalizedPattern::Struct { name: n2, bindings: b2 } => ord_then(ord_chars(n1@, n2@, 0), ord_pbinds(b1, b2, 0)),
                _ => Order::Equal,
            },
            NormalizedPattern::EnumVariant { enum_name: e1, variant_name: v1, bindings: b1 } => match b {
                NormalizedPattern::EnumVariant { enum_name: e2, variant_name: v2, bindings: b2 } =>
                    ord_then(ord_chars(e1@, e2@, 0), ord_then(ord_chars(v1@, v2@, 0), ord_pbinds(b1, b2, 0))),
                _ => Order::Equal,
            },
            NormalizedPattern::Tuple { elements: x } => match b {
                NormalizedPattern::Tuple { elements: y } => ord_pats(x, y, 0),
                _ => Order::Equal,
            },
            NormalizedPattern::OptionSome(x) => match b {
                NormalizedPattern::OptionSome(y) => ord_pat(*x, *y),
                _ => Order::Equal,
            },
            NormalizedPattern::ResultOk(x) => match b {
                NormalizedPattern::ResultOk(y) => ord_pat(*x, *y),
                _ => Order::Equal,
            },
            NormalizedPattern::ResultErr(x) => match b {
                NormalizedPattern::ResultErr(y) => ord_pat(*x, *y),
                _ => Order::Equal,
            },
            _ => Order::Equal,
        }
    }
}

/// Lexicographic order of two lists of patterns from position `i` on.
pub open spec fn ord_pats(xs: Vec<NormalizedPattern>, ys: Vec<NormalizedPattern>, i: nat) -> Order
    decreases xs, xs@.len() - i,
{
    if i >= xs@.len() && i >= ys@.len() {
        Order::Equal
    } else if i >= xs@.len() {
        Order::Less
    } else if i >= ys@.len() {
        Order::Greater
    } else {
        ord_then(ord_pat(xs@[i as int], ys@[i as int]), ord_pats(xs, ys, i + 1))
    }
}

/// Lexicographic order of two lists of named sub-patterns from position `i` on.
pub open spec fn ord_pbinds(xs: Vec<(String, NormalizedPattern)>, ys: Vec<(String, NormalizedPattern)>, i: nat) -> Order
    decreases xs, xs@.len() - i,
{
    if i >= xs@.len() && i >= ys@.len() {
        Order::Equal
    } else if i >= xs@.len() {
        Order::Less
    } else if i >= ys@.len() {
        Order::Greater
    } else {
        ord_then(
            ord_then(ord_chars(xs@[i as int].0@, ys@[i as int].0@, 0), ord_pat(xs@[i as int].1, ys@[i as int].1)),
            ord_pbinds(xs, ys, i + 1),
        )
    }
}

/// Declaration position of an expression's variant.
pub open spec fn expr_rank(e: NormalizedExpr) -> int {
    match e {
        NormalizedExpr::IntLit(_) => 0,
        NormalizedExpr::FloatLit(_) => 1,
        NormalizedExpr::BoolLit(_) => 2,
        NormalizedExpr::StrLit(_) => 3,
        NormalizedExpr::UnitLit => 4,
        NormalizedExpr::Local(_) => 5,
        NormalizedExpr::Name(_) => 6,
        NormalizedExpr::Binary { .. } => 7,
        NormalizedExpr::Unary { .. } => 8,
        NormalizedExpr::Block { .. } => 9,
        NormalizedExpr::If { .. } => 10,
        NormalizedExpr::Call { .. } => 11,
        NormalizedExpr::MethodCall { .. } => 12,
        NormalizedExpr::Assert { .. } => 13,
        NormalizedExpr::Match { .. } => 14,
        NormalizedExpr::FieldAccess { .. } => 15,
        NormalizedExpr::StructLit { .. } => 16,
        NormalizedExpr::EnumVariant { .. } => 17,
        NormalizedExpr::ForIn { .. } => 18,
        NormalizedExpr::While { .. } => 19,
        NormalizedExpr::Return { .. } => 20,
        NormalizedExpr::As { .. } => 21,
        NormalizedExpr::SizeOf { .. } => 22,
        NormalizedExpr::TupleLit { .. } => 23,
        NormalizedExpr::AddrOf { .. } => 24,
        NormalizedExpr::Deref { .. } => 25,
        NormalizedExpr::Println { .. } => 26,
    }
}

/// `None` first, then by the string.
pub open spec fn ord_opt_str(a: Option<String>, b: Option<String>) -> Order {
    match a {
        None => if b is None { Order::Equal } else { Order::Less },
        Some(x) => match b {
            None => Order::Greater,
            Some(y) => ord_chars(x@, y@, 0),
        },
    }
}

/// The order of normalized expressions that their derived `Ord` gives: by variant in
/// declaration order, then field by field.
pub open spec fn ord_expr(a: NormalizedExpr, b: NormalizedExpr) -> Order
    decreases a, 0nat,
{
    if expr_rank(a) != expr_rank(b) {
        ord_int(expr_rank(a), expr_rank(b))
    } else {
        match a {
            NormalizedExpr::IntLit(x) => match b {
                NormalizedExpr::IntLit(y) => ord_int(x as int, y as int),
                _ => Order::Equal,
            },
            NormalizedExpr::FloatLit(x) => match b {
                NormalizedExpr::FloatLit(y) => ord_int(x as int, y as int),
                _ => Order::Equal,
            },
            NormalizedExpr::BoolLit(x) => match b {
                NormalizedExpr::BoolLit(y) => ord_bool(x, y),
                _ => Order::Equal,
            },
            NormalizedExpr::StrLit(x) => match b {
                NormalizedExpr::StrLit(y) => ord_chars(x@, y@, 0),
                _ => Order::Equal,
            },
            NormalizedExpr::Local(x) => match b {
                NormalizedExpr::Local(y) => ord_int(x as int, y as int),
                _ => Order::Equal,
            },
            NormalizedExpr::Name(x) => match b {
                NormalizedExpr::Name(y) => ord_chars(x@, y@, 0),
                _ => Order::Equal,
            },
            NormalizedExpr::Binary { op: o1, lhs: l1, rhs: r1 } => match b {
                NormalizedExpr::Binary { op: o2, lhs: l2, rhs: r2 } =>
                    ord_then(ord_int(binop_rank(o1), binop_rank(o2)), ord_then(ord_expr(*l1, *l2), ord_expr(*r1, *r2))),
                _ => Order::Equal,
            },
            NormalizedExpr::Unary { op: o1, operand: x } => match b {
                NormalizedExpr::Unary { op: o2, operand: y } => ord_then(ord_int(unop_rank(o1), unop_rank(o2)), ord_expr(*x, *y)),
                _ => Order::Equal,
            },
            NormalizedExpr::Block { stmts: x } => match b {
                NormalizedExpr::Block { stmts: y } => ord_stmts(x, y, 0),
                _ => Order::Equal,
            },
            NormalizedExpr::If { condition: c1, then_branch: t1, else_branch: e1 } => match b {
                NormalizedExpr::If { condition: c2, then_branch: t2, else_branch: e2 } =>
                    ord_then(ord_expr(*c1, *c2), ord_then(ord_expr(*t1, *t2), ord_opt_box(e1, e2))),
                _ => Order::Equal,
            },
            NormalizedExpr::Call { callee: c1, args: a1 } => match b {
                NormalizedExpr::Call { callee: c2, args: a2 } => ord_then(ord_chars(c1@, c2@, 0), ord_exprs(a1, a2, 0)),
                _ => Order::Equal,
            },
            NormalizedExpr::MethodCall { receiver: r1, method_name: m1, resolved_callee: c1, args: a1 } => match b {
                NormalizedExpr::MethodCall { receiver: r2, method_name: m2, resolved_callee: c2, args: a2 } =>
                    ord_then(ord_expr(*r1, *r2), ord_then(ord_chars(m1@, m2@, 0), ord_then(ord_opt_str(c1, c2), ord_exprs(a1, a2, 0)))),
                _ => Order::Equal,
            },
            NormalizedExpr::Assert { condition: c1, message: m1 } => match b {
                NormalizedExpr::Assert { condition: c2, message: m2 } => ord_then(ord_expr(*c1, *c2), ord_opt_box(m1, m2)),
                _ => Order::Equal,
            },
            NormalizedExpr::Match { scrutinee: s1, arms: a1 } => match b {
                NormalizedExpr::Match { scrutinee: s2, arms: a2 } => ord_then(ord_expr(*s1, *s2), ord_arms(a1, a2, 0)),
                _ => Order::Equal,
            },
            NormalizedExpr::FieldAccess { object: o1, field: f1 } => match b {
                NormalizedExpr::FieldAccess { object: o2, field: f2 } => ord_then(ord_expr(*o1, *o2), ord_chars(f1@, f2@, 0)),
                _ => Order::Equal,
            },
            NormalizedExpr::StructLit { struct_name: n1, fields: f1 } => match b {
                NormalizedExpr::StructLit { struct_name: n2, fields: f2 } => ord_then(ord_chars(n1@, n2@, 0), ord_fields(f1, f2, 0)),
                _ => Order::Equal,
            },
            NormalizedExpr::EnumVariant { enum_name: e1, variant_name: v1, args: a1 } => match b {
                NormalizedExpr::EnumVariant { enum_name: e2, variant_name: v2, args: a2 } =>
                    ord_then(ord_chars(e1@, e2@, 0), ord_then(ord_chars(v1@, v2@, 0), ord_exprs(a1, a2, 0))),
                _ => Order::Equal,
            },
            NormalizedExpr::ForIn { pattern: p1, iter: i1, body: b1 } => match b {
                NormalizedExpr::ForIn { pattern: p2, iter: i2, body: b2 } =>
                    ord_then(ord_pat(p1, p2), ord_then(ord_expr(*i1, *i2), ord_expr(*b1, *b2))),
                _ => Order::Equal,
            },
            NormalizedExpr::While { condition: c1, body: b1 } => match b {
                NormalizedExpr::While { condition: c2, body: b2 } => ord_then(ord_expr(*c1, *c2), ord_expr(*b1, *b2)),
                _ => Order::Equal,
            },
            NormalizedExpr::Return { value: v1 } => match b {
                NormalizedExpr::Return { value: v2 } => ord_opt_box(v1, v2),
                _ => Order::Equal,
            },
            NormalizedExpr::As { expr: x, target_type: t1 } => match b {
                NormalizedExpr::As { expr: y, target_type: t2 } => ord_then(ord_expr(*x, *y), ord_ty(t1, t2)),
                _ => Order::Equal,
            },
            NormalizedExpr::SizeOf { target_type: t1 } => match b {
                NormalizedExpr::SizeOf { target_type: t2 } => ord_ty(t1, t2),
                _ => Order::Equal,
            },
            NormalizedExpr::TupleLit { elements: x } => match b {
                NormalizedExpr::TupleLit { elements: y } => ord_exprs(x, y, 0),
                _ => Order::Equal,
            },
            NormalizedExpr::AddrOf { target: x } => match b {
                NormalizedExpr::AddrOf { target: y } => ord_chars(x@, y@, 0),
                _ => Order::Equal,
            },
            NormalizedExpr::Deref { expr: x } => match b {
                NormalizedExpr::Deref { expr: y } => ord_expr(*x, *y),
                _ => Order::Equal,
            },
            NormalizedExpr::Println { arg: x } => match b {
                NormalizedExpr::Println { arg: y } => ord_expr(*x, *y),
                _ => Order::Equal,
            },
            _ => Order::Equal,
        }
    }
}

/// `None` first, then by the expression.
pub open spec fn ord_opt_box(a: Option<Box<NormalizedExpr>>, b: Option<Box<NormalizedExpr>>) -> Order
    decreases a, 0nat,
{
    match a {
        None => if b is None { Order::Equal } else { Order::Less },
        Some(x) => match b {
            None => Order::Greater,
            Some(y) => ord_expr(*x, *y),
        },
    }
}

/// `None` first, then by the expression.
pub open spec fn ord_opt_expr(a: Option<NormalizedExpr>, b: Option<NormalizedExpr>) -> Order
    decreases a, 0nat,
{
    match a {
        None => if b is None { Order::Equal } else { Order::Less },
        Some(x) => match b {
            None => Order::Greater,
            Some(y) => ord_expr(x, y),
        },
    }
}

/// Lexicographic order of two lists of expressions from position `i` on.
pub open spec fn ord_exprs(xs: Vec<NormalizedExpr>, ys: Vec<NormalizedExpr>, i: nat) -> Order
    decreases xs, xs@.len() - i,
{
    if i >= xs@.len() && i >= ys@.len() {
        Order::Equal
    } else if i >= xs@.len() {
        Order::Less
    } else if i >= ys@.len() {
        Order::Greater
    } else {
        ord_then(ord_expr(xs@[i as int], ys@[i as int]), ord_exprs(xs, ys, i + 1))
    }
}

/// Lexicographic order of two lists of named fields from position `i` on.
pub open spec fn ord_fields(xs: Vec<(String, NormalizedExpr)>, ys: Vec<(String, NormalizedExpr)>, i: nat) -> Order
    decreases xs, xs@.len() - i,
{
    if i >= xs@.len() && i >= ys@.len() {
        Order::Equal
    } else if i >= xs@.len() {
        Order::Less
    } else if i >= ys@.len() {
        Order::Greater
    } else {
        ord_then(
            ord_then(ord_chars(xs@[i as int].0@, ys@[i as int].0@, 0), ord_expr(xs@[i as int].1, ys@[i as int].1)),
            ord_fields(xs, ys, i + 1),
        )
    }
}

/// Declaration position of a statement's variant.
pub open spec fn stmt_rank(s: NormalizedStmt) -> int {
    match s {
        NormalizedStmt::Let { .. } => 0,
        NormalizedStmt::Assign { .. } => 1,
        NormalizedStmt::AssignField { .. } => 2,
        NormalizedStmt::AssignDeref { .. } => 3,
        NormalizedStmt::Expr(_) => 4,
    }
}

/// The order of normalized statements that their derived `Ord` gives.
pub open spec fn ord_stmt(a: NormalizedStmt, b: NormalizedStmt) -> Order
    decreases a, 0nat,
{
    if stmt_rank(a) != stmt_rank(b) {
        ord_int(stmt_rank(a), stmt_rank(b))
    } else {
        match a {
            NormalizedStmt::Let { local_id: l1, mutable: m1, value: v1 } => match b {
                NormalizedStmt::Let { local_id: l2, mutable: m2, value: v2 } =>
                    ord_then(ord_int(l1 as int, l2 as int), ord_then(ord_bool(m1, m2), ord_expr(v1, v2))),
                _ => Order::Equal,
            },
            NormalizedStmt::Assign { local_id: l1, value: v1 } => match b {
                NormalizedStmt::Assign { local_id: l2, value: v2 } => ord_then(ord_int(l1 as int, l2 as int), ord_expr(v1, v2)),
                _ => Order::Equal,
            },
            NormalizedStmt::AssignField { object: o1, field: f1, value: v1 } => match b {
                NormalizedStmt::AssignField { object: o2, field: f2, value: v2 } =>
                    ord_then(ord_expr(o1, o2), ord_then(ord_chars(f1@, f2@, 0), ord_expr(v1, v2))),
                _ => Order::Equal,
            },
            NormalizedStmt::AssignDeref { target: t1, value: v1 } => match b {
                NormalizedStmt::AssignDeref { target: t2, value: v2 } => ord_then(ord_expr(t1, t2), ord_expr(v1, v2)),
                _ => Order::Equal,
            },
            NormalizedStmt::Expr(x) => match b {
                NormalizedStmt::Expr(y) => ord_expr(x, y),
                _ => Order::Equal,
            },
        }
    }
}

/// Lexicographic order of two lists of statements from position `i` on.
pub open spec fn ord_stmts(xs: Vec<NormalizedStmt>, ys: Vec<NormalizedStmt>, i: nat) -> Order
    decreases xs, xs@.len() - i,
{
    if i >= xs@.len() && i >= ys@.len() {
        Order::Equal
    } else if i >= xs@.len() {
        Order::Less
    } else if i >= ys@.len() {
        Order::Greater
    } else {
        ord_then(ord_stmt(xs@[i as int], ys@[i as int]), ord_stmts(xs, ys, i + 1))
    }
}

/// The order of normalized match arms that their derived `Ord` gives: by pattern,
/// guard, then body.
pub open spec fn ord_arm(a: NormalizedMatchArm, b: NormalizedMatchArm) -> Order
    decreases a, 0nat,
{
    ord_then(ord_pat(a.pattern, b.pattern), ord_then(ord_opt_expr(a.guard, b.guard), ord_expr(a.body, b.body)))
}

/// Lexicographic order of two lists of match arms from position `i` on.
pub open spec fn ord_arms(xs: Vec<NormalizedMatchArm>, ys: Vec<NormalizedMatchArm>, i: nat) -> Order
    decreases xs, xs@.len() - i,
{
    if i >= xs@.len() && i >= ys@.len() {
        Order::Equal
    } else if i >= xs@.len() {
        Order::Less
    } else if i >= ys@.len() {
        Order::Greater
    } else {
        ord_then(ord_arm(xs@[i as int], ys@[i as int]), ord_arms(xs, ys, i + 1))
    }
}

/// Numeric order of ranks and counters.
fn order_nat(a: u64, b: u64) -> (r: Order)
    ensures
        r == ord_int(a as int, b as int),
{
    if a < b {
        Order::Less
    } else if a == b {
        Order::Equal
    } else {
        Order::Greater
    }
}

/// Numeric order of signed integers.
fn order_i64(a: i64, b: i64) -> (r: Order)
    ensures
        r == ord_int(a as int, b as int),
{
    if a < b {
        Order::Less
    } else if a == b {
        Order::Equal
    } else {
        Order::Greater
    }
}

/// `false` before `true`.
fn order_bool(a: bool, b: bool) -> (r: Order)
    ensures
        r == ord_bool(a, b),
{
    order_nat(if a { 1 } else { 0 }, if b { 1 } else { 0 })
}

/// Lexicographic order of two strings.
pub fn order_str(a: &str, b: &str) -> (r: Order)
    ensures
        r == ord_chars(a@, b@, 0),
{
    let la = a.unicode_len();
    let lb = b.unicode_len();
    let mut i: usize = 0;
    while i < la && i < lb
        invariant
            la == a@.len(),
            lb == b@.len(),
            i <= la,
            i <= lb,
            ord_chars(a@, b@, 0) == ord_chars(a@, b@, i as nat),
        decreases la - i,
    {
        let x = a.get_char(i);
        let y = b.get_char(i);
        if x != y {
            if (x as u32) < (y as u32) {
                return Order::Less;
            } else {
                return Order::Greater;
            }
        }
        i = i + 1;
    }
    if la == lb {
        Order::Equal
    } else if i >= la {
        Order::Less
    } else {
        Order::Greater
    }
}

/// The declaration position of a binary operator.
fn binop_rank_of(op: HirBinOp) -> (r: u64)
    ensures
        r == binop_rank(op),
{
    match op {
        HirBinOp::Add => 0,
        HirBinOp::Sub => 1,
        HirBinOp::Mul => 2,
        HirBinOp::Div => 3,
        HirBinOp::Mod => 4,
        HirBinOp::Eq => 5,
        HirBinOp::Neq => 6,
        HirBinOp::Lt => 7,
        HirBinOp::Gt => 8,
        HirBinOp::Lte => 9,
        HirBinOp::Gte => 10,
        HirBinOp::And => 11,
        HirBinOp::Or => 12,
    }
}

/// The declaration position of a unary operator.
fn unop_rank_of(op: HirUnOp) -> (r: u64)
    ensures
        r == unop_rank(op),
{
    match op {
        HirUnOp::Neg => 0,
        HirUnOp::Not => 1,
    }
}

/// The declaration position of a type's variant.
fn ty_rank_of(t: &HirType) -> (r: u64)
    ensures
        r == ty_rank(*t),
{
    match t {
        HirType::Int => 0,
        HirType::Bool => 1,
        HirType::Float => 2,
        HirType::Str => 3,
        HirType::Unit => 4,
        HirType::Never => 5,
        HirType::Error => 6,
        HirType::Named(_) => 7,
        HirType::Generic(..) => 8,
        HirType::Tuple(_) => 9,
        HirType::RawPtr(_) => 10,
        HirType::Option(_) => 11,
        HirType::Result(..) => 12,
        HirType::Func(..) => 13,
        HirType::Opaque(_) => 14,
        HirType::Param(_) => 15,
        HirType::Infer(_) => 16,
    }
}

/// Compares two types as their derived `Ord` does.
pub fn order_type(a: &HirType, b: &HirType) -> (r: Order)
    ensures
        r == ord_ty(*a, *b),
    decreases a, 0nat,
{
    let ra = ty_rank_of(a);
    let rb = ty_rank_of(b);
    if ra != rb {
        return order_nat(ra, rb);
    }
    match a {
        HirType::Named(s) => match b {
            HirType::Named(t) => order_nat(s.0 as u64, t.0 as u64),
            _ => Order::Equal,
        },
        HirType::Generic(s, xs) => match b {
            HirType::Generic(t, ys) => {
                proof { assert(decreases_to!(*a => (*a)->Generic_1)); }
                let c = order_nat(s.0 as u64, t.0 as u64);
                if c != Order::Equal {
                    return c;
                }
                order_types(xs, ys)
            },
            _ => Order::Equal,
        },
        HirType::Tuple(xs) => match b {
            HirType::Tuple(ys) => {
                proof { assert(decreases_to!(*a => (*a)->Tuple_0)); }
                order_types(xs, ys)
            },
            _ => Order::Equal,
        },
        HirType::RawPtr(x) => match b {
            HirType::RawPtr(y) => order_type(x, y),
            _ => Order::Equal,
        },
        HirType::Option(x) => match b {
            HirType::Option(y) => order_type(x, y),
            _ => Order::Equal,
        },
        HirType::Result(x, e) => match b {
            HirType::Result(y, f) => {
                let c = order_type(x, y);
                if c != Order::Equal {
                    return c;
                }
                order_type(e, f)
            },
            _ => Order::Equal,
        },
        HirType::Func(xs, r) => match b {
            HirType::Func(ys, q) => {
                proof { assert(decreases_to!(*a => (*a)->Func_0)); }
                let c = order_types(xs, ys);
                if c != Order::Equal {
                    return c;
                }
                order_type(r, q)
            },
            _ => Order::Equal,
        },
        HirType::Opaque(s) => match b {
            HirType::Opaque(t) => order_nat(s.0 as u64, t.0 as u64),
            _ => Order::Equal,
        },
        HirType::Param(s) => match b {
            HirType::Param(t) => order_nat(s.0 as u64, t.0 as u64),
            _ => Order::Equal,
        },
        HirType::Infer(v) => match b {
            HirType::Infer(w) => order_nat(v.0 as u64, w.0 as u64),
            _ => Order::Equal,
        },
        _ => Order::Equal,
    }
}

/// Compares two lists of types lexicographically.
fn order_types(xs: &Vec<HirType>, ys: &Vec<HirType>) -> (r: Order)
    ensures
        r == ord_tys(*xs, *ys, 0),
    decreases xs, xs@.len(),
{
    let mut i: usize = 0;
    while i < xs.len() && i < ys.len()
        invariant
            i <= xs@.len(),
            i <= ys@.len(),
            ord_tys(*xs, *ys, 0) == ord_tys(*xs, *ys, i as nat),
        decreases xs@.len() - i,
    {
        proof { assert(decreases_to!(*xs => xs@[i as int])); }
        let c = order_type(&xs[i], &ys[i]);
        if c != Order::Equal {
            return c;
        }
        i = i + 1;
    }
    if xs.len() == ys.len() {
        Order::Equal
    } else if i >= xs.len() {
        Order::Less
    } else {
        Order::Greater
    }
}

/// The declaration position of a pattern's variant.
fn pat_rank_of(p: &NormalizedPattern) -> (r: u64)
    ensures
        r == pat_rank(*p),
{
    match p {
        NormalizedPattern::Wild => 0,
        NormalizedPattern::BoolLit(_) => 1,
        NormalizedPattern::IntLit(_) => 2,
        NormalizedPattern::FloatLit(_) => 3,
        NormalizedPattern::StrLit(_) => 4,
        NormalizedPattern::Unit => 5,
        NormalizedPattern::Local(_) => 6,
        NormalizedPattern::Struct { .. } => 7,
        NormalizedPattern::EnumVariant { .. } => 8,
        NormalizedPattern::Tuple { .. } => 9,
        NormalizedPattern::OptionSome(_) => 10,
        NormalizedPattern::OptionNone => 11,
        NormalizedPattern::ResultOk(_) => 12,
        NormalizedPattern::ResultErr(_) => 13,
    }
}

/// Compares two normalized patterns as their derived `Ord` does.
pub fn order_pattern(a: &NormalizedPattern, b: &NormalizedPattern) -> (r: Order)
    ensures
        r == ord_pat(*a, *b),
    decreases a, 0nat,
{
    let ra = pat_rank_of(a);
    let rb = pat_rank_of(b);
    if ra != rb {
        return order_nat(ra, rb);
    }
    match a {
        NormalizedPattern::BoolLit(x) => match b {
            NormalizedPattern::BoolLit(y) => order_bool(*x, *y),
            _ => Order::Equal,
        },
        NormalizedPattern::IntLit(x) => match b {
            NormalizedPattern::IntLit(y) => order_i64(*x, *y),
            _ => Order::Equal,
        },
        NormalizedPattern::FloatLit(x) => match b {
            NormalizedPattern::FloatLit(y) => order_nat(*x, *y),
            _ => Order::Equal,
        },
        NormalizedPattern::StrLit(x) => match b {
            NormalizedPattern::StrLit(y) => order_str(x.as_str(), y.as_str()),
            _ => Order::Equal,
        },
        NormalizedPattern::Local(x) => match b {
            NormalizedPattern::Local(y) => order_nat(*x as u64, *y as u64),
            _ => Order::Equal,
        },
        NormalizedPattern::Struct { name: n1, bindings: b1 } => match b {
            NormalizedPattern::Struct { name: n2, bindings: b2 } => {
                proof { assert(decreases_to!(*a => (*a)->Struct_bindings)); }
                let c = order_str(n1.as_str(), n2.as_str());
                if c != Order::Equal {
                    return c;
                }
                order_pbinds(b1, b2)
            },
            _ => Order::Equal,
        },
        NormalizedPattern::EnumVariant { enum_name: e1, variant_name: v1, bindings: b1 } => match b {
            NormalizedPattern::EnumVariant { enum_name: e2, variant_name: v2, bindings: b2 } => {
                proof { assert(decreases_to!(*a => (*a)->EnumVariant_bindings)); }
                let c = order_str(e1.as_str(), e2.as_str());
                if c != Order::Equal {
                    return c;
                }
                let c = order_str(v1.as_str(), v2.as_str());
                if c != Order::Equal {
                    return c;
                }
                order_pbinds(b1, b2)
            },
            _ => Order::Equal,
        },
        NormalizedPattern::Tuple { elements: x } => match b {
            NormalizedPattern::Tuple { elements: y } => {
                proof { assert(decreases_to!(*a => (*a)->Tuple_elements)); }
                order_patterns(x, y)
            },
            _ => Order::Equal,
        },
        NormalizedPattern::OptionSome(x) => match b {
            NormalizedPattern::OptionSome(y) => order_pattern(x, y),
            _ => Order::Equal,
        },
        NormalizedPattern::ResultOk(x) => match b {
            NormalizedPattern::ResultOk(y) => order_pattern(x, y),
            _ => Order::Equal,
        },
        NormalizedPattern::ResultErr(x) => match b {
            NormalizedPattern::ResultErr(y) => order_pattern(x, y),
            _ => Order::Equal,
        },
        _ => Order::Equal,
    }
}

/// Compares two lists of patterns lexicographically.
fn order_patterns(xs: &Vec<NormalizedPattern>, ys: &Vec<NormalizedPattern>) -> (r: Order)
    ensures
        r == ord_pats(*xs, *ys, 0),
    decreases xs, xs@.len(),
{
    let mut i: usize = 0;
    while i < xs.len() && i < ys.len()
        invariant
            i <= xs@.len(),
            i <= ys@.len(),
            ord_pats(*xs, *ys, 0) == ord_pats(*xs, *ys, i as nat),
        decreases xs@.len() - i,
    {
        proof { assert(decreases_to!(*xs => xs@[i as int])); }
        let c = order_pattern(&xs[i], &ys[i]);
        if c != Order::Equal {
            return c;
        }
        i = i + 1;
    }
    if xs.len() == ys.len() {
        Order::Equal
    } else if i >= xs.len() {
        Order::Less
    } else {
        Order::Greater
    }
}

/// Compares two lists of named sub-patterns lexicographically.
fn order_pbinds(xs: &Vec<(String, NormalizedPattern)>, ys: &Vec<(String, NormalizedPattern)>) -> (r: Order)
    ensures
        r == ord_pbinds(*xs, *ys, 0),
    decreases xs, xs@.len(),
{
    let mut i: usize = 0;
    while i < xs.len() && i < ys.len()
        invariant
            i <= xs@.len(),
            i <= ys@.len(),
            ord_pbinds(*xs, *ys, 0) == ord_pbinds(*xs, *ys, i as nat),
        decreases xs@.len() - i,
    {
        proof { assert(decreases_to!(*xs => xs@[i as int])); }
        let c = order_str(xs[i].0.as_str(), ys[i].0.as_str());
        if c != Order::Equal {
            return c;
        }
        let c = order_pattern(&xs[i].1, &ys[i].1);
        if c != Order::Equal {
            return c;
        }
        i = i + 1;
    }
    if xs.len() == ys.len() {
        Order::Equal
    } else if i >= xs.len() {
        Order::Less
    } else {
        Order::Greater
    }
}

/// `None` first, then by the string.
fn order_opt_str(a: &Option<String>, b: &Option<String>) -> (r: Order)
    ensures
        r == ord_opt_str(*a, *b),
{
    match a {
        None => if b.is_none() { Order::Equal } else { Order::Less },
        Some(x) => match b {
            None => Order::Greater,
            Some(y) => order_str(x.as_str(), y.as_str()),
        },
    }
}

/// The declaration position of an expression's variant.
fn expr_rank_of(e: &NormalizedExpr) -> (r: u64)
    ensures
        r == expr_rank(*e),
{
    match e {
        NormalizedExpr::IntLit(_) => 0,
        NormalizedExpr::FloatLit(_) => 1,
        NormalizedExpr::BoolLit(_) => 2,
        NormalizedExpr::StrLit(_) => 3,
        NormalizedExpr::UnitLit => 4,
        NormalizedExpr::Local(_) => 5,
        NormalizedExpr::Name(_) => 6,
        NormalizedExpr::Binary { .. } => 7,
        NormalizedExpr::Unary { .. } => 8,
        NormalizedExpr::Block { .. } => 9,
        NormalizedExpr::If { .. } => 10,
        NormalizedExpr::Call { .. } => 11,
        NormalizedExpr::MethodCall { .. } => 12,
        NormalizedExpr::Assert { .. } => 13,
        NormalizedExpr::Match { .. } => 14,
        NormalizedExpr::FieldAccess { .. } => 15,
        NormalizedExpr::StructLit { .. } => 16,
        NormalizedExpr::EnumVariant { .. } => 17,
        NormalizedExpr::ForIn { .. } => 18,
        NormalizedExpr::While { .. } => 19,
        NormalizedExpr::Return { .. } => 20,
        NormalizedExpr::As { .. } => 21,
        NormalizedExpr::SizeOf { .. } => 22,
        NormalizedExpr::TupleLit { .. } => 23,
        NormalizedExpr::AddrOf { .. } => 24,
        NormalizedExpr::Deref { .. } => 25,
        NormalizedExpr::Println { .. } => 26,
    }
}

/// Compares two normalized expressions as their derived `Ord` does.
pub fn order_expr(a: &NormalizedExpr, b: &NormalizedExpr) -> (r: Order)
    ensures
        r == ord_expr(*a, *b),
    decreases a, 0nat,
{
    let ra = expr_rank_of(a);
    let rb = expr_rank_of(b);
    if ra != rb {
        return order_nat(ra, rb);
    }
    match a {
        NormalizedExpr::IntLit(x) => match b {
            NormalizedExpr::IntLit(y) => order_i64(*x, *y),
            _ => Order::Equal,
        },
        NormalizedExpr::FloatLit(x) => match b {
            NormalizedExpr::FloatLit(y) => order_nat(*x, *y),
            _ => Order::Equal,
        },
        NormalizedExpr::BoolLit(x) => match b {
            NormalizedExpr::BoolLit(y) => order_bool(*x, *y),
            _ => Order::Equal,
        },
        NormalizedExpr::StrLit(x) => match b {
            NormalizedExpr::StrLit(y) => order_str(x.as_str(), y.as_str()),
            _ => Order::Equal,
        },
        NormalizedExpr::Local(x) => match b {
            NormalizedExpr::Local(y) => order_nat(*x as u64, *y as u64),
            _ => Order::Equal,
        },
        NormalizedExpr::Name(x) => match b {
            NormalizedExpr::Name(y) => order_str(x.as_str(), y.as_str()),
            _ => Order::Equal,
        },
        NormalizedExpr::Binary { op: o1, lhs: l1, rhs: r1 } => match b {
            NormalizedExpr::Binary { op: o2, lhs: l2, rhs: r2 } => {
                let c = order_nat(binop_rank_of(*o1), binop_rank_of(*o2));
                if c != Order::Equal {
                    return c;
                }
                let c = order_expr(l1, l2);
                if c != Order::Equal {
                    return c;
                }
                order_expr(r1, r2)
            },
            _ => Order::Equal,
        },
        NormalizedExpr::Unary { op: o1, operand: x } => match b {
            NormalizedExpr::Unary { op: o2, operand: y } => {
                let c = order_nat(unop_rank_of(*o1), unop_rank_of(*o2));
                if c != Order::Equal {
                    return c;
                }
                order_expr(x, y)
            },
            _ => Order::Equal,
        },
        NormalizedExpr::Block { stmts: x } => match b {
            NormalizedExpr::Block { stmts: y } => {
                proof { assert(decreases_to!(*a => (*a)->Block_stmts)); }
                order_stmts(x, y)
            },
            _ => Order::Equal,
        },
        NormalizedExpr::If { condition: c1, then_branch: t1, else_branch: e1 } => match b {
            NormalizedExpr::If { condition: c2, then_branch: t2, else_branch: e2 } => {
                let c = order_expr(c1, c2);
                if c != Order::Equal {
                    return c;
                }
                let c = order_expr(t1, t2);
                if c != Order::Equal {
                    return c;
                }
                order_opt_box(e1, e2)
            },
            _ => Order::Equal,
        },
        NormalizedExpr::Call { callee: c1, args: a1 } => match b {
            NormalizedExpr::Call { callee: c2, args: a2 } => {
                proof { assert(decreases_to!(*a => (*a)->Call_args)); }
                let c = order_str(c1.as_str(), c2.as_str());
                if c != Order::Equal {
                    return c;
                }
                order_exprs(a1, a2)
            },
            _ => Order::Equal,
        },
        NormalizedExpr::MethodCall { receiver: r1, method_name: m1, resolved_callee: c1, args: a1 } => match b {
            NormalizedExpr::MethodCall { receiver: r2, method_name: m2, resolved_callee: c2, args: a2 } => {
                proof { assert(decreases_to!(*a => (*a)->MethodCall_args)); }
                let c = order_expr(r1, r2);
                if c != Order::Equal {
                    return c;
                }
                let c = order_str(m1.as_str(), m2.as_str());
                if c != Order::Equal {
                    return c;
                }
                let c = order_opt_str(c1, c2);
                if c != Order::Equal {
                    return c;
                }
                order_exprs(a1, a2)
            },
            _ => Order::Equal,
        },
        NormalizedExpr::Assert { condition: c1, message: m1 } => match b {
            NormalizedExpr::Assert { condition: c2, message: m2 } => {
                let c = order_expr(c1, c2);
                if c != Order::Equal {
                    return c;
                }
                order_opt_box(m1, m2)
            },
            _ => Order::Equal,
        },
        NormalizedExpr::Match { scrutinee: s1, arms: a1 } => match b {
            NormalizedExpr::Match { scrutinee: s2, arms: a2 } => {
                proof { assert(decreases_to!(*a => (*a)->Match_arms)); }
                let c = order_expr(s1, s2);
                if c != Order::Equal {
                    return c;
                }
                order_arms(a1, a2)
            },
            _ => Order::Equal,
        },
        NormalizedExpr::FieldAccess { object: o1, field: f1 } => match b {
            NormalizedExpr::FieldAccess { object: o2, field: f2 } => {
                let c = order_expr(o1, o2);
                if c != Order::Equal {
                    return c;
                }
                order_str(f1.as_str(), f2.as_str())
            },
            _ => Order::Equal,
        },
        NormalizedExpr::StructLit { struct_name: n1, fields: f1 } => match b {
            NormalizedExpr::StructLit { struct_name: n2, fields: f2 } => {
                proof { assert(decreases_to!(*a => (*a)->StructLit_fields)); }
                let c = order_str(n1.as_str(), n2.as_str());
                if c != Order::Equal {
                    return c;
                }
                order_fields(f1, f2)
            },
            _ => Order::Equal,
        },
        NormalizedExpr::EnumVariant { enum_name: e1, variant_name: v1, args: a1 } => match b {
            NormalizedExpr::EnumVariant { enum_name: e2, variant_name: v2, args: a2 } => {
                proof { assert(decreases_to!(*a => (*a)->EnumVariant_args)); }
                let c = order_str(e1.as_str(), e2.as_str());
                if c != Order::Equal {
                    return c;
                }
                let c = order_str(v1.as_str(), v2.as_str());
                if c != Order::Equal {
                    return c;
                }
                order_exprs(a1, a2)
            },
            _ => Order::Equal,
        },
        NormalizedExpr::ForIn { pattern: p1, iter: i1, body: b1 } => match b {
            NormalizedExpr::ForIn { pattern: p2, iter: i2, body: b2 } => {
                let c = order_pattern(p1, p2);
                if c != Order::Equal {
                    return c;
                }
                let c = order_expr(i1, i2);
                if c != Order::Equal {
                    return c;
                }
                order_expr(b1, b2)
            },
            _ => Order::Equal,
        },
        NormalizedExpr::While { condition: c1, body: b1 } => match b {
            NormalizedExpr::While { condition: c2, body: b2 } => {
                let c = order_expr(c1, c2);
                if c != Order::Equal {
                    return c;
                }
                order_expr(b1, b2)
            },
            _ => Order::Equal,
        },
        NormalizedExpr::Return { value: v1 } => match b {
            NormalizedExpr::Return { value: v2 } => order_opt_box(v1, v2),
            _ => Order::Equal,
        },
        NormalizedExpr::As { expr: x, target_type: t1 } => match b {
            NormalizedExpr::As { expr: y, target_type: t2 } => {
                let c = order_expr(x, y);
                if c != Order::Equal {
                    return c;
                }
                order_type(t1, t2)
            },
            _ => Order::Equal,
        },
        NormalizedExpr::SizeOf { target_type: t1 } => match b {
            NormalizedExpr::SizeOf { target_type: t2 } => order_type(t1, t2),
            _ => Order::Equal,
        },
        NormalizedExpr::TupleLit { elements: x } => match b {
            NormalizedExpr::TupleLit { elements: y } => {
                proof { assert(decreases_to!(*a => (*a)->TupleLit_elements)); }
                order_exprs(x, y)
            },
            _ => Order::Equal,
        },
        NormalizedExpr::AddrOf { target: x } => match b {
            NormalizedExpr::AddrOf { target: y } => order_str(x.as_str(), y.as_str()),
            _ => Order::Equal,
        },
        NormalizedExpr::Deref { expr: x } => match b {
            NormalizedExpr::Deref { expr: y } => order_expr(x, y),
            _ => Order::Equal,
        },
        NormalizedExpr::Println { arg: x } => match b {
            NormalizedExpr::Println { arg: y } => order_expr(x, y),
            _ => Order::Equal,
        },
        _ => Order::Equal,
    }
}

/// `None` first, then by the expression.
fn order_opt_box(a: &Option<Box<NormalizedExpr>>, b: &Option<Box<NormalizedExpr>>) -> (r: Order)
    ensures
        r == ord_opt_box(*a, *b),
    decreases a, 0nat,
{
    match a {
        None => if b.is_none() { Order::Equal } else { Order::Less },
        Some(x) => match b {
            None => Order::Greater,
            Some(y) => order_expr(x, y),
        },
    }
}

/// `None` first, then by the expression.
fn order_opt_expr(a: &Option<NormalizedExpr>, b: &Option<NormalizedExpr>) -> (r: Order)
    ensures
        r == ord_opt_expr(*a, *b),
    decreases a, 0nat,
{
    match a {
        None => if b.is_none() { Order::Equal } else { Order::Less },
        Some(x) => match b {
            None => Order::Greater,
            Some(y) => order_expr(x, y),
        },
    }
}

/// The declaration position of a statement's variant.
fn stmt_rank_of(s: &NormalizedStmt) -> (r: u64)
    ensures
        r == stmt_rank(*s),
{
    match s {
        NormalizedStmt::Let { .. } => 0,
        NormalizedStmt::Assign { .. } => 1,
        NormalizedStmt::AssignField { .. } => 2,
        NormalizedStmt::AssignDeref { .. } => 3,
        NormalizedStmt::Expr(_) => 4,
    }
}

/// Compares two normalized statements as their derived `Ord` does.
#[verifier::spinoff_prover]
#[verifier::rlimit(40)]
pub fn order_stmt(a: &NormalizedStmt, b: &NormalizedStmt) -> (r: Order)
    ensures
        r == ord_stmt(*a, *b),
    decreases a, 0nat,
{
    let ra = stmt_rank_of(a);
    let rb = stmt_rank_of(b);
    if ra != rb {
        return order_nat(ra, rb);
    }
    match a {
        NormalizedStmt::Let { local_id: l1, mutable: m1, value: v1 } => match b {
            NormalizedStmt::Let { local_id: l2, mutable: m2, value: v2 } => {
                let c = order_nat(*l1 as u64, *l2 as u64);
                if c != Order::Equal {
                    return c;
                }
                let c = order_bool(*m1, *m2);
                if c != Order::Equal {
                    return c;
                }
                order_expr(v1, v2)
            },
            _ => Order::Equal,
        },
        NormalizedStmt::Assign { local_id: l1, value: v1 } => match b {
            NormalizedStmt::Assign { local_id: l2, value: v2 } => {
                let c = order_nat(*l1 as u64, *l2 as u64);
                if c != Order::Equal {
                    return c;
                }
                order_expr(v1, v2)
            },
            _ => Order::Equal,
        },
        NormalizedStmt::AssignField { object: o1, field: f1, value: v1 } => match b {
            NormalizedStmt::AssignField { object: o2, field: f2, value: v2 } => {
                let c = order_expr(o1, o2);
                if c != Order::Equal {
                    return c;
                }
                let c = order_str(f1.as_str(), f2.as_str());
                if c != Order::Equal {
                    return c;
                }
                order_expr(v1, v2)
            },
            _ => Order::Equal,
        },
        NormalizedStmt::AssignDeref { target: t1, value: v1 } => match b {
            NormalizedStmt::AssignDeref { target: t2, value: v2 } => {
                let c = order_expr(t1, t2);
                if c != Order::Equal {
                    return c;
                }
                order_expr(v1, v2)
            },
            _ => Order::Equal,
        },
        NormalizedStmt::Expr(x) => match b {
            NormalizedStmt::Expr(y) => order_expr(x, y),
            _ => Order::Equal,
        },
    }
}

/// Compares two normalized match arms as their derived `Ord` does.
fn order_arm(a: &NormalizedMatchArm, b: &NormalizedMatchArm) -> (r: Order)
    ensures
        r == ord_arm(*a, *b),
    decreases a, 0nat,
{
    let c = order_pattern(&a.pattern, &b.pattern);
    if c != Order::Equal {
        return c;
    }
    let c = order_opt_expr(&a.guard, &b.guard);
    if c != Order::Equal {
        return c;
    }
    order_expr(&a.body, &b.body)
}

/// Compares two lists of expressions lexicographically.
fn order_exprs(xs: &Vec<NormalizedExpr>, ys: &Vec<NormalizedExpr>) -> (r: Order)
    ensures
        r == ord_exprs(*xs, *ys, 0),
    decreases xs, xs@.len(),
{
    let mut i: usize = 0;
    while i < xs.len() && i < ys.len()
        invariant
            i <= xs@.len(),
            i <= ys@.len(),
            ord_exprs(*xs, *ys, 0) == ord_exprs(*xs, *ys, i as nat),
        decreases xs@.len() - i,
    {
        proof { assert(decreases_to!(*xs => xs@[i as int])); }
        let c = order_expr(&xs[i], &ys[i]);
        if c != Order::Equal {
            return c;
        }
        i = i + 1;
    }
    if xs.len() == ys.len() {
        Order::Equal
    } else if i >= xs.len() {
        Order::Less
    } else {
        Order::Greater
    }
}

/// Compares two lists of statements lexicographically.
#[verifier::spinoff_prover]
#[verifier::rlimit(40)]
fn order_stmts(xs: &Vec<NormalizedStmt>, ys: &Vec<NormalizedStmt>) -> (r: Order)
    ensures
        r == ord_stmts(*xs, *ys, 0),
    decreases xs, xs@.len(),
{
    let mut i: usize = 0;
    while i < xs.len() && i < ys.len()
        invariant
            i <= xs@.len(),
            i <= ys@.len(),
            ord_stmts(*xs, *ys, 0) == ord_stmts(*xs, *ys, i as nat),
        decreases xs@.len() - i,
    {
        proof { assert(decreases_to!(*xs => xs@[i as int])); }
        let c = order_stmt(&xs[i], &ys[i]);
        if c != Order::Equal {
            return c;
        }
        i = i + 1;
    }
    if xs.len() == ys.len() {
        Order::Equal
    } else if i >= xs.len() {
        Order::Less
    } else {
        Order::Greater
    }
}

/// Compares two lists of match arms lexicographically.
fn order_arms(xs: &Vec<NormalizedMatchArm>, ys: &Vec<NormalizedMatchArm>) -> (r: Order)
    ensures
        r == ord_arms(*xs, *ys, 0),
    decreases xs, xs@.len(),
{
    let mut i: usize = 0;
    while i < xs.len() && i < ys.len()
        invariant
            i <= xs@.len(),
            i <= ys@.len(),
            ord_arms(*xs, *ys, 0) == ord_arms(*xs, *ys, i as nat),
        decreases xs@.len() - i,
    {
        proof { assert(decreases_to!(*xs => xs@[i as int])); }
        let c = order_arm(&xs[i], &ys[i]);
        if c != Order::Equal {
            return c;
        }
        i = i + 1;
    }
    if xs.len() == ys.len() {
        Order::Equal
    } else if i >= xs.len() {
        Order::Less
    } else {
        Order::Greater
    }
}

/// Compares two lists of named fields lexicographically.
fn order_fields(xs: &Vec<(String, NormalizedExpr)>, ys: &Vec<(String, NormalizedExpr)>) -> (r: Order)
    ensures
        r == ord_fields(*xs, *ys, 0),
    decreases xs, xs@.len(),
{
    let mut i: usize = 0;
    while i < xs.len() && i < ys.len()
        invariant
            i <= xs@.len(),
            i <= ys@.len(),
            ord_fields(*xs, *ys, 0) == ord_fields(*xs, *ys, i as nat),
        decreases xs@.len() - i,
    {
        proof { assert(decreases_to!(*xs => xs@[i as int])); }
        let c = order_str(xs[i].0.as_str(), ys[i].0.as_str());
        if c != Order::Equal {
            return c;
        }
        let c = order_expr(&xs[i].1, &ys[i].1);
        if c != Order::Equal {
            return c;
        }
        i = i + 1;
    }
    if xs.len() == ys.len() {
        Order::Equal
    } else if i >= xs.len() {
        Order::Less
    } else {
        Order::Greater
    }
}

} // verus!

use vstd::prelude::*;
use crate::symbol::Symbol;
use crate::types::{ExprId, HirPattern, HirType, Span};

verus! {

/// Binary operators.
#[derive(Clone, Copy, Debug, PartialEq, Eq, PartialOrd, Ord, Hash, Structural)]
pub enum HirBinOp {
    Add,
    Sub,
    Mul,
    Div,
    Mod,
    Eq,
    Neq,
    Lt,
    Gt,
    Lte,
    Gte,
    And,
    Or,
}

/// Unary operators.
#[derive(Clone, Copy, Debug, PartialEq, Eq, PartialOrd, Ord, Hash, Structural)]
pub enum HirUnOp {
    Neg,
    Not,
}

impl HirBinOp {
    /// The operands of the operator may be swapped without changing its result.
    pub open spec fn spec_is_commutative(self) -> bool {
        self is Add || self is Mul || self is Eq || self is Neq || self is And || self is Or
    }

    /// The operands of the operator may be swapped without changing its result.
    pub fn is_commutative(&self) -> (r: bool)
        ensures
            r == self.spec_is_commutative(),
    {
        match self {
            HirBinOp::Add | HirBinOp::Mul | HirBinOp::Eq | HirBinOp::Neq | HirBinOp::And | HirBinOp::Or => true,
            _ => false,
        }
    }
}

/// Statements of a block.
#[derive(Debug, PartialEq)]
pub enum HirStmt {
    Let { name: Symbol, mutable: bool, value: HirExpr, span: Span },
    LetPat { pattern: HirPattern, mutable: bool, value: HirExpr, ty: Option<HirType>, span: Span },
    AssignDeref { target: Box<HirExpr>, value: HirExpr, span: Span },
    AssignField { object: Box<HirExpr>, field: Symbol, value: HirExpr, span: Span },
    Assign { target: Symbol, value: HirExpr, span: Span },
    Expr(HirExpr),
}

/// Expressions of the high-level IR; each carries its id and source span.
#[derive(Debug, PartialEq)]
pub enum HirExpr {
    IntLit { id: ExprId, value: i64, span: Span },
    /// A float literal, held as its IEEE-754 bits.
    FloatLit { id: ExprId, value: u64, span: Span },
    BoolLit { id: ExprId, value: bool, span: Span },
    StrLit { id: ExprId, value: String, span: Span },
    Ident { id: ExprId, name: Symbol, span: Span },
    UnitLit { id: ExprId, span: Span },
    Binary { id: ExprId, op: HirBinOp, lhs: Box<HirExpr>, rhs: Box<HirExpr>, span: Span },
    Unary { id: ExprId, op: HirUnOp, operand: Box<HirExpr>, span: Span },
    Block { id: ExprId, stmts: Vec<HirStmt>, span: Span },
    If { id: ExprId, condition: Box<HirExpr>, then_branch: Box<HirExpr>, else_branch: Option<Box<HirExpr>>, span: Span },
    Println { id: ExprId, arg: Box<HirExpr>, span: Span },
    MethodCall { id: ExprId, receiver: Box<HirExpr>, method_name: Symbol, resolved_callee: Option<Symbol>, args: Vec<HirExpr>, span: Span },
    Call { id: ExprId, callee: Symbol, args: Vec<HirExpr>, span: Span },
    Assert { id: ExprId, condition: Box<HirExpr>, message: Option<Box<HirExpr>>, span: Span },
    As { id: ExprId, expr: Box<HirExpr>, target_type: HirType, span: Span },
    Match { id: ExprId, scrutinee: Box<HirExpr>, arms: Vec<MatchArm>, span: Span },
    FieldAccess { id: ExprId, object: Box<HirExpr>, field: Symbol, span: Span },
    StructLit { id: ExprId, struct_name: Symbol, fields: Vec<(Symbol, HirExpr)>, span: Span },
    EnumVariant { id: ExprId, enum_name: Symbol, variant_name: Symbol, args: Vec<HirExpr>, span: Span },
    ForIn { id: ExprId, pattern: HirPattern, iter: Box<HirExpr>, body: Box<HirExpr>, span: Span },
    While { id: ExprId, condition: Box<HirExpr>, body: Box<HirExpr>, span: Span },
    SizeOf { id: ExprId, target_type: HirType, span: Span },
    TupleLit { id: ExprId, elements: Vec<HirExpr>, span: Span },
    AddrOf { id: ExprId, target: Symbol, span: Span },
    Deref { id: ExprId, expr: Box<HirExpr>, span: Span },
    Return { id: ExprId, value: Option<Box<HirExpr>>, span: Span },
}

/// One arm of a `match`: pattern, optional guard, body.
#[derive(Debug, PartialEq)]
pub struct MatchArm {
    pub pattern: HirPattern,
    pub guard: Option<HirExpr>,
    pub body: HirExpr,
}

impl HirExpr {
    /// The id of an expression node.
    pub open spec fn spec_id(self) -> ExprId {
        match self {
            HirExpr::IntLit { id, .. } | HirExpr::FloatLit { id, .. } | HirExpr::BoolLit { id, .. }
            | HirExpr::StrLit { id, .. } | HirExpr::Ident { id, .. } | HirExpr::UnitLit { id, .. }
            | HirExpr::Binary { id, .. } | HirExpr::Unary { id, .. } | HirExpr::Block { id, .. }
            | HirExpr::If { id, .. } | HirExpr::Println { id, .. } | HirExpr::MethodCall { id, .. }
            | HirExpr::Call { id, .. } | HirExpr::Assert { id, .. } | HirExpr::As { id, .. }
            | HirExpr::Match { id, .. } | HirExpr::FieldAccess { id, .. } | HirExpr::StructLit { id, .. }
            | HirExpr::EnumVariant { id, .. } | HirExpr::ForIn { id, .. } | HirExpr::While { id, .. }
            | HirExpr::SizeOf { id, .. } | HirExpr::TupleLit { id, .. } | HirExpr::AddrOf { id, .. }
            | HirExpr::Deref { id, .. } | HirExpr::Return { id, .. } => id,
        }
    }

    /// The source span of an expression node.
    pub open spec fn spec_span(self) -> Span {
        match self {
            HirExpr::IntLit { span, .. } | HirExpr::FloatLit { span, .. } | HirExpr::BoolLit { span, .. }
            | HirExpr::StrLit { span, .. } | HirExpr::Ident { span, .. } | HirExpr::UnitLit { span, .. }
            | HirExpr::Binary { span, .. } | HirExpr::Unary { span, .. } | HirExpr::Block { span, .. }
            | HirExpr::If { span, .. } | HirExpr::Println { span, .. } | HirExpr::MethodCall { span, .. }
            | HirExpr::Call { span, .. } | HirExpr::Assert { span, .. } | HirExpr::As { span, .. }
            | HirExpr::Match { span, .. } | HirExpr::FieldAccess { span, .. } | HirExpr::StructLit { span, .. }
            | HirExpr::EnumVariant { span, .. } | HirExpr::ForIn { span, .. } | HirExpr::While { span, .. }
            | HirExpr::SizeOf { span, .. } | HirExpr::TupleLit { span, .. } | HirExpr::AddrOf { span, .. }
            | HirExpr::Deref { span, .. } | HirExpr::Return { span, .. } => span,
        }
    }

    /// The id of this node.
    pub fn get_id(&self) -> (r: ExprId)
        ensures
            r == self.spec_id(),
    {
        match self {
            HirExpr::IntLit { id, .. } | HirExpr::FloatLit { id, .. } | HirExpr::BoolLit { id, .. }
            | HirExpr::StrLit { id, .. } | HirExpr::Ident { id, .. } | HirExpr::UnitLit { id, .. }
            | HirExpr::Binary { id, .. } | HirExpr::Unary { id, .. } | HirExpr::Block { id, .. }
            | HirExpr::If { id, .. } | HirExpr::Println { id, .. } | HirExpr::MethodCall { id, .. }
            | HirExpr::Call { id, .. } | HirExpr::Assert { id, .. } | HirExpr::As { id, .. }
            | HirExpr::Match { id, .. } | HirExpr::FieldAccess { id, .. } | HirExpr::StructLit { id, .. }
            | HirExpr::EnumVariant { id, .. } | HirExpr::ForIn { id, .. } | HirExpr::While { id, .. }
            | HirExpr::SizeOf { id, .. } | HirExpr::TupleLit { id, .. } | HirExpr::AddrOf { id, .. }
            | HirExpr::Deref { id, .. } | HirExpr::Return { id, .. } => *id,
        }
    }

    /// The source span of this node.
    pub fn get_span(&self) -> (r: Span)
        ensures
            r == self.spec_span(),
    {
        match self {
            HirExpr::IntLit { span, .. } | HirExpr::FloatLit { span, .. } | HirExpr::BoolLit { span, .. }
            | HirExpr::StrLit { span, .. } | HirExpr::Ident { span, .. } | HirExpr::UnitLit { span, .. }
            | HirExpr::Binary { span, .. } | HirExpr::Unary { span, .. } | HirExpr::Block { span, .. }
            | HirExpr::If { span, .. } | HirExpr::Println { span, .. } | HirExpr::MethodCall { span, .. }
            | HirExpr::Call { span, .. } | HirExpr::Assert { span, .. } | HirExpr::As { span, .. }
            | HirExpr::Match { span, .. } | HirExpr::FieldAccess { span, .. } | HirExpr::StructLit { span, .. }
            | HirExpr::EnumVariant { span, .. } | HirExpr::ForIn { span, .. } | HirExpr::While { span, .. }
            | HirExpr::SizeOf { span, .. } | HirExpr::TupleLit { span, .. } | HirExpr::AddrOf { span, .. }
            | HirExpr::Deref { span, .. } | HirExpr::Return { span, .. } => *span,
        }
    }
}

/// A function definition.
#[derive(Debug, PartialEq)]
pub struct HirFn {
    pub doc: Option<String>,
    pub name: Symbol,
    pub type_params: Vec<Symbol>,
    pub params: Vec<(Symbol, HirType)>,
    pub param_mutability: Vec<bool>,
    pub ret: Option<HirType>,
    pub body: HirExpr,
    pub span: Span,
    pub is_pub: bool,
    pub is_macro_generated: bool,
    pub is_extern_backed: bool,
}

} // verus!

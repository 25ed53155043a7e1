use glyim::debug_text::{expr_debug_bytes, type_debug_bytes};
use glyim::node::{HirBinOp, HirExpr, HirStmt, HirUnOp, MatchArm};
use glyim::symbol::Symbol;
use glyim::types::{ExprId, HirPattern, HirType, Span, TypeVar};

fn sp(a: usize, b: usize) -> Span {
    Span::new(a, b)
}

fn types() -> Vec<HirType> {
    vec![
        HirType::Int,
        HirType::Never,
        HirType::Named(Symbol(12)),
        HirType::Generic(Symbol(3), vec![HirType::Int, HirType::Bool]),
        HirType::Generic(Symbol(3), vec![]),
        HirType::Tuple(vec![HirType::Str, HirType::Unit, HirType::Float]),
        HirType::RawPtr(Box::new(HirType::Option(Box::new(HirType::Error)))),
        HirType::Result(Box::new(HirType::Int), Box::new(HirType::Named(Symbol(0)))),
        HirType::Func(vec![HirType::Param(Symbol(1234567))], Box::new(HirType::Opaque(Symbol(9)))),
        HirType::Infer(TypeVar(40)),
    ]
}

#[test]
fn type_debug_bytes_is_the_debug_text() {
    for t in types() {
        assert_eq!(type_debug_bytes(&t), format!("{:?}", t).into_bytes());
    }
}

#[test]
fn expr_debug_bytes_is_the_debug_text() {
    let lit = |v: i64| HirExpr::IntLit { id: ExprId(1), value: v, span: sp(0, 1) };
    let exprs = vec![
        lit(42),
        lit(-7),
        lit(i64::MIN),
        HirExpr::FloatLit { id: ExprId(2), value: 4614253070214989087, span: sp(3, 4) },
        HirExpr::BoolLit { id: ExprId(3), value: false, span: sp(0, 0) },
        HirExpr::StrLit { id: ExprId(4), value: "a \"q\" 'x' \\ \n\t é \u{301} \u{7f}".to_string(), span: sp(0, 9) },
        HirExpr::UnitLit { id: ExprId(5), span: sp(1, 1) },
        HirExpr::Binary { id: ExprId(6), op: HirBinOp::Lte, lhs: Box::new(lit(1)), rhs: Box::new(lit(2)), span: sp(0, 5) },
        HirExpr::Unary { id: ExprId(7), op: HirUnOp::Not, operand: Box::new(lit(0)), span: sp(0, 2) },
        HirExpr::Block {
            id: ExprId(8),
            stmts: vec![
                HirStmt::Let { name: Symbol(1), mutable: true, value: lit(3), span: sp(0, 1) },
                HirStmt::LetPat {
                    pattern: HirPattern::Tuple { elements: vec![HirPattern::Var(Symbol(2)), HirPattern::Wild], span: sp(1, 2) },
                    mutable: false,
                    value: lit(4),
                    ty: Some(HirType::Tuple(vec![HirType::Int, HirType::Int])),
                    span: sp(2, 3),
                },
                HirStmt::Assign { target: Symbol(1), value: lit(5), span: sp(3, 4) },
                HirStmt::AssignField { object: Box::new(lit(6)), field: Symbol(8), value: lit(7), span: sp(4, 5) },
                HirStmt::AssignDeref { target: Box::new(lit(6)), value: lit(7), span: sp(4, 5) },
                HirStmt::Expr(lit(9)),
            ],
            span: sp(0, 20),
        },
        HirExpr::If {
            id: ExprId(9),
            condition: Box::new(HirExpr::Ident { id: ExprId(10), name: Symbol(4), span: sp(0, 1) }),
            then_branch: Box::new(lit(1)),
            else_branch: None,
            span: sp(0, 8),
        },
        HirExpr::MethodCall {
            id: ExprId(11),
            receiver: Box::new(lit(1)),
            method_name: Symbol(5),
            resolved_callee: Some(Symbol(6)),
            args: vec![lit(2), lit(3)],
            span: sp(0, 4),
        },
        HirExpr::Match {
            id: ExprId(12),
            scrutinee: Box::new(lit(1)),
            arms: vec![
                MatchArm {
                    pattern: HirPattern::EnumVariant {
                        enum_name: Symbol(1),
                        variant_name: Symbol(2),
                        bindings: vec![(Symbol(3), HirPattern::StrLit("s".to_string()))],
                        span: sp(0, 1),
                    },
                    guard: Some(lit(0)),
                    body: lit(1),
                },
                MatchArm {
                    pattern: HirPattern::OptionSome(Box::new(HirPattern::ResultErr(Box::new(HirPattern::IntLit(-3))))),
                    guard: None,
                    body: HirExpr::Return { id: ExprId(13), value: Some(Box::new(lit(2))), span: sp(0, 0) },
                },
                MatchArm {
                    pattern: HirPattern::Struct { name: Symbol(1), bindings: vec![], span: sp(0, 1) },
                    guard: None,
                    body: HirExpr::Return { id: ExprId(14), value: None, span: sp(0, 0) },
                },
            ],
            span: sp(0, 30),
        },
        HirExpr::StructLit { id: ExprId(15), struct_name: Symbol(1), fields: vec![(Symbol(2), lit(1))], span: sp(0, 1) },
        HirExpr::ForIn {
            id: ExprId(16),
            pattern: HirPattern::BoolLit(true),
            iter: Box::new(HirExpr::TupleLit { id: ExprId(17), elements: vec![], span: sp(0, 0) }),
            body: Box::new(HirExpr::As {
                id: ExprId(18),
                expr: Box::new(HirExpr::SizeOf { id: ExprId(19), target_type: HirType::Named(Symbol(3)), span: sp(0, 0) }),
                target_type: HirType::Int,
                span: sp(0, 0),
            }),
            span: sp(0, 9),
        },
        HirExpr::Assert { id: ExprId(20), condition: Box::new(lit(1)), message: Some(Box::new(lit(2))), span: sp(0, 1) },
        HirExpr::AddrOf { id: ExprId(21), target: Symbol(3), span: sp(0, 1) },
        HirExpr::Deref { id: ExprId(22), expr: Box::new(lit(1)), span: sp(0, 1) },
        HirExpr::While { id: ExprId(23), condition: Box::new(lit(1)), body: Box::new(lit(2)), span: sp(0, 1) },
        HirExpr::Println { id: ExprId(24), arg: Box::new(lit(1)), span: sp(0, 1) },
        HirExpr::FieldAccess { id: ExprId(25), object: Box::new(lit(1)), field: Symbol(7), span: sp(0, 1) },
        HirExpr::EnumVariant { id: ExprId(26), enum_name: Symbol(1), variant_name: Symbol(2), args: vec![lit(1)], span: sp(0, 1) },
        HirExpr::Call { id: ExprId(27), callee: Symbol(1), args: vec![], span: sp(0, 1) },
    ];
    for e in exprs {
        assert_eq!(String::from_utf8(expr_debug_bytes(&e)).unwrap(), format!("{:?}", e));
    }
}

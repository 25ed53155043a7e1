use glyim::node::{HirExpr, HirStmt, MatchArm};
use glyim::passes::no_type_params::{assert_no_type_params, has_unresolved_param, no_type_params};
use glyim::symbol::Interner;
use glyim::types::{ExprId, HirPattern, HirType, Span};

fn sp() -> Span {
    Span::new(0, 0)
}

fn unit() -> HirExpr {
    HirExpr::UnitLit { id: ExprId::new(0), span: sp() }
}

#[test]
fn single_uppercase_names_are_unresolved() {
    let mut interner = Interner::new();
    let t = interner.intern("T");
    let tt = interner.intern("Tx");
    let lower = interner.intern("t");
    let vec_sym = interner.intern("Vec");
    assert!(has_unresolved_param(&HirType::Named(t), &interner));
    assert!(!has_unresolved_param(&HirType::Named(tt), &interner));
    assert!(!has_unresolved_param(&HirType::Named(lower), &interner));
    assert!(has_unresolved_param(&HirType::Generic(vec_sym, vec![HirType::Named(t)]), &interner));
    assert!(has_unresolved_param(&HirType::Option(Box::new(HirType::RawPtr(Box::new(HirType::Named(t))))), &interner));
    assert!(has_unresolved_param(&HirType::Result(Box::new(HirType::Int), Box::new(HirType::Named(t))), &interner));
    assert!(has_unresolved_param(&HirType::Tuple(vec![HirType::Int, HirType::Named(t)]), &interner));
    assert!(has_unresolved_param(&HirType::Func(vec![HirType::Named(t)], Box::new(HirType::Int)), &interner));
    assert!(has_unresolved_param(&HirType::Func(vec![], Box::new(HirType::Named(t))), &interner));
    assert!(!has_unresolved_param(&HirType::Func(vec![HirType::Int], Box::new(HirType::Int)), &interner));
    assert!(!has_unresolved_param(&HirType::Param(t), &interner));
}

#[test]
fn as_and_sizeof_targets_are_checked() {
    let mut interner = Interner::new();
    let t = interner.intern("T");
    let cast = HirExpr::As { id: ExprId::new(0), expr: Box::new(unit()), target_type: HirType::Named(t), span: sp() };
    assert!(!no_type_params(&cast, &interner));
    let size = HirExpr::SizeOf { id: ExprId::new(0), target_type: HirType::Int, span: sp() };
    assert!(no_type_params(&size, &interner));

    let nested = HirExpr::Block {
        id: ExprId::new(0),
        stmts: vec![HirStmt::Let {
            name: t,
            mutable: false,
            value: HirExpr::SizeOf { id: ExprId::new(1), target_type: HirType::Named(t), span: sp() },
            span: sp(),
        }],
        span: sp(),
    };
    assert!(!no_type_params(&nested, &interner));

    let in_guard = HirExpr::Match {
        id: ExprId::new(0),
        scrutinee: Box::new(unit()),
        arms: vec![MatchArm {
            pattern: HirPattern::Wild,
            guard: Some(HirExpr::SizeOf { id: ExprId::new(2), target_type: HirType::Named(t), span: sp() }),
            body: unit(),
        }],
        span: sp(),
    };
    assert!(!no_type_params(&in_guard, &interner));
}

#[test]
fn field_access_and_cast_operands_are_searched() {
    let mut interner = Interner::new();
    let t = interner.intern("T");
    let f = interner.intern("f");
    let hidden = HirExpr::FieldAccess {
        id: ExprId::new(0),
        object: Box::new(HirExpr::SizeOf { id: ExprId::new(1), target_type: HirType::Named(t), span: sp() }),
        field: f,
        span: sp(),
    };
    assert!(!no_type_params(&hidden, &interner));
    let cast = HirExpr::As {
        id: ExprId::new(2),
        expr: Box::new(HirExpr::SizeOf { id: ExprId::new(3), target_type: HirType::Named(t), span: sp() }),
        target_type: HirType::Int,
        span: sp(),
    };
    assert!(!no_type_params(&cast, &interner));
    let typed_let = HirExpr::Block {
        id: ExprId::new(4),
        stmts: vec![HirStmt::LetPat {
            pattern: HirPattern::Wild,
            mutable: false,
            value: unit(),
            ty: Some(HirType::Named(t)),
            span: sp(),
        }],
        span: sp(),
    };
    assert!(!no_type_params(&typed_let, &interner));
    assert_no_type_params(&unit(), &interner);
}

use glyim::egraph::{hir_expr_to_term, ETerm};
use glyim::node::{HirBinOp, HirExpr, HirStmt};
use glyim::symbol::Symbol;
use glyim::types::{ExprId, HirType, Span};

fn sp() -> Span {
    Span::new(0, 0)
}

#[test]
fn binary_records_its_type_or_int() {
    let e = HirExpr::Binary {
        id: ExprId::new(2),
        op: HirBinOp::Add,
        lhs: Box::new(HirExpr::IntLit { id: ExprId::new(0), value: 1, span: sp() }),
        rhs: Box::new(HirExpr::Ident { id: ExprId::new(1), name: Symbol(7), span: sp() }),
        span: sp(),
    };
    let types = vec![HirType::Int, HirType::Bool, HirType::Float];
    match hir_expr_to_term(&e, &types) {
        ETerm::Bin(HirBinOp::Add, l, r, ty) => {
            assert!(matches!(*l, ETerm::Num(1, Some(HirType::Int))));
            assert!(matches!(*r, ETerm::Var(Symbol(7), Some(HirType::Bool))));
            assert_eq!(ty, HirType::Float);
        }
        _ => panic!("expected a binary term"),
    }
    match hir_expr_to_term(&e, &[]) {
        ETerm::Bin(_, _, r, ty) => {
            assert!(matches!(*r, ETerm::Var(Symbol(7), None)));
            assert_eq!(ty, HirType::Int);
        }
        _ => panic!("expected a binary term"),
    }
}

#[test]
fn unsupported_expressions_become_zero_and_blocks_keep_let_and_expr_statements() {
    let block = HirExpr::Block {
        id: ExprId::new(0),
        stmts: vec![
            HirStmt::Let { name: Symbol(1), mutable: false, value: HirExpr::BoolLit { id: ExprId::new(1), value: true, span: sp() }, span: sp() },
            HirStmt::Assign { target: Symbol(1), value: HirExpr::UnitLit { id: ExprId::new(2), span: sp() }, span: sp() },
            HirStmt::Expr(HirExpr::UnitLit { id: ExprId::new(3), span: sp() }),
        ],
        span: sp(),
    };
    match hir_expr_to_term(&block, &[]) {
        ETerm::Block(items) => {
            assert_eq!(items.len(), 3);
            assert!(matches!(items[0], Some(ETerm::BoolLit(true))));
            assert!(items[1].is_none());
            assert!(matches!(items[2], Some(ETerm::Num(0, None))));
        }
        _ => panic!("expected a block term"),
    }
    let cond = HirExpr::If {
        id: ExprId::new(0),
        condition: Box::new(HirExpr::BoolLit { id: ExprId::new(1), value: false, span: sp() }),
        then_branch: Box::new(HirExpr::IntLit { id: ExprId::new(2), value: 5, span: sp() }),
        else_branch: None,
        span: sp(),
    };
    match hir_expr_to_term(&cond, &[]) {
        ETerm::If(_, t, e) => {
            assert!(matches!(*t, ETerm::Num(5, Some(HirType::Int))));
            assert!(matches!(*e, ETerm::Num(0, None)));
        }
        _ => panic!("expected an if term"),
    }
}

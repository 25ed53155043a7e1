use glyim::effects::{EffectAnalyzer, EffectSet};
use glyim::item::{Hir, HirItem};
use glyim::node::{HirExpr, HirFn, HirStmt};
use glyim::symbol::{Interner, Symbol};
use glyim::types::{ExprId, Span};

fn sp() -> Span {
    Span::new(0, 0)
}

fn call(callee: Symbol) -> HirExpr {
    HirExpr::Call { id: ExprId::new(0), callee, args: vec![], span: sp() }
}

fn func(name: Symbol, body: HirExpr) -> HirItem {
    HirItem::Fn(HirFn {
        doc: None,
        name,
        type_params: vec![],
        params: vec![],
        param_mutability: vec![],
        ret: None,
        body,
        span: sp(),
        is_pub: false,
        is_macro_generated: false,
        is_extern_backed: false,
    })
}

#[test]
fn pure_and_impure_sets() {
    let p = EffectSet::pure();
    assert!(p.is_pure && !p.may_read && !p.may_write && !p.may_allocate && !p.may_panic && !p.may_diverge);
    let i = EffectSet::impure();
    assert!(!i.is_pure && !i.may_read && !i.may_write && !i.may_allocate && !i.may_panic && !i.may_diverge);
    assert_eq!(EffectSet::default(), p);
}

#[test]
fn builtins_are_seeded_and_effects_flow_through_calls() {
    let mut interner = Interner::new();
    let println = interner.intern("println");
    let alloc = interner.intern("__glyim_alloc");
    let abort = interner.intern("abort");
    let log = interner.intern("log");
    let pure_fn = interner.intern("square");
    let spin = interner.intern("spin");
    let hir = Hir {
        items: vec![
            func(log, HirExpr::Block { id: ExprId::new(0), stmts: vec![HirStmt::Expr(call(println))], span: sp() }),
            func(println, HirExpr::UnitLit { id: ExprId::new(0), span: sp() }),
            func(alloc, HirExpr::UnitLit { id: ExprId::new(0), span: sp() }),
            func(abort, HirExpr::UnitLit { id: ExprId::new(0), span: sp() }),
            func(pure_fn, HirExpr::IntLit { id: ExprId::new(0), value: 4, span: sp() }),
            func(
                spin,
                HirExpr::While {
                    id: ExprId::new(0),
                    condition: Box::new(HirExpr::BoolLit { id: ExprId::new(0), value: true, span: sp() }),
                    body: Box::new(call(alloc)),
                    span: sp(),
                },
            ),
        ],
    };
    let mut analyzer = EffectAnalyzer::new();
    analyzer.analyze(&hir, &interner);

    let pe = analyzer.get_effect(println).expect("seeded");
    assert!(pe.may_write && !pe.is_pure);
    let ae = analyzer.get_effect(abort).expect("seeded");
    assert!(ae.may_panic && ae.may_diverge && !ae.is_pure);
    let le = analyzer.get_effect(log).expect("analysed");
    assert!(le.may_write && !le.is_pure);
    assert!(analyzer.is_pure(pure_fn));
    let se = analyzer.get_effect(spin).expect("analysed");
    assert!(se.may_diverge && se.may_allocate && !se.is_pure);
    assert!(!analyzer.is_pure(interner.intern("missing")));
}

#[test]
fn a_call_to_a_function_analysed_later_counts_as_pure() {
    let mut interner = Interner::new();
    let a = interner.intern("a");
    let b = interner.intern("b");
    let print = interner.intern("print");
    let hir = Hir {
        items: vec![func(a, call(b)), func(b, call(print)), func(print, HirExpr::UnitLit { id: ExprId::new(0), span: sp() })],
    };
    let mut analyzer = EffectAnalyzer::new();
    analyzer.analyze(&hir, &interner);
    // `a` is analysed in the first pass, before `b` has an effect, and is kept.
    assert!(analyzer.is_pure(a));
    assert!(!analyzer.is_pure(b));
}

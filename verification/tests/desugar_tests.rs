use glyim::desugar_method_calls;
use glyim::item::{Hir, HirImplDef, HirItem, StructDef};
use glyim::node::{HirExpr, HirFn, HirStmt};
use glyim::symbol::{Interner, Symbol};
use glyim::types::{ExprId, HirType, Span};

fn sp() -> Span {
    Span::new(0, 0)
}

fn ident(id: u32, name: Symbol) -> HirExpr {
    HirExpr::Ident { id: ExprId::new(id), name, span: sp() }
}

fn int_lit(id: u32, value: i64) -> HirExpr {
    HirExpr::IntLit { id: ExprId::new(id), value, span: sp() }
}

fn method_call(id: u32, receiver: HirExpr, method: Symbol, args: Vec<HirExpr>) -> HirExpr {
    HirExpr::MethodCall {
        id: ExprId::new(id),
        receiver: Box::new(receiver),
        method_name: method,
        resolved_callee: None,
        args,
        span: Span::new(3, 9),
    }
}

fn func(name: Symbol, params: Vec<(Symbol, HirType)>, body: HirExpr) -> HirFn {
    let n = params.len();
    HirFn {
        doc: None,
        name,
        type_params: vec![],
        params,
        param_mutability: vec![false; n],
        ret: None,
        body,
        span: sp(),
        is_pub: false,
        is_macro_generated: false,
        is_extern_backed: false,
    }
}

fn callee_name(e: &HirExpr, interner: &Interner) -> String {
    match e {
        HirExpr::Call { callee, .. } => interner.resolve(*callee).to_string(),
        other => panic!("not a call: {:?}", other),
    }
}

#[test]
fn method_call_on_recorded_type_becomes_type_call() {
    let mut interner = Interner::new();
    let point = interner.intern("Point");
    let len = interner.intern("len");
    let p = interner.intern("p");
    let main = interner.intern("main");
    let body = method_call(2, ident(1, p), len, vec![int_lit(3, 7)]);
    let mut hir = Hir { items: vec![HirItem::Fn(func(main, vec![], body))] };
    let types = vec![HirType::Error, HirType::Named(point), HirType::Int, HirType::Int];
    desugar_method_calls(&mut hir, &types, &mut interner);
    match &hir.items[0] {
        HirItem::Fn(f) => {
            assert_eq!(callee_name(&f.body, &interner), "Point_len");
            match &f.body {
                HirExpr::Call { id, args, span, .. } => {
                    assert_eq!(*id, ExprId::new(2));
                    assert_eq!(*span, Span::new(3, 9));
                    assert_eq!(args.len(), 2);
                    assert_eq!(args[0], ident(1, p));
                    assert_eq!(args[1], int_lit(3, 7));
                }
                _ => unreachable!(),
            }
        }
        _ => panic!("item kind changed"),
    }
}

#[test]
fn unknown_or_int_receiver_uses_first_parameter_type() {
    let mut interner = Interner::new();
    let counter = interner.intern("Counter");
    let bump = interner.intern("bump");
    let x = interner.intern("x");
    let this = interner.intern("self");
    let f = interner.intern("f");
    let body = method_call(2, ident(1, x), bump, vec![]);
    let params = vec![(this, HirType::Generic(counter, vec![HirType::Int]))];
    let mut hir = Hir { items: vec![HirItem::Fn(func(f, params, body))] };
    // The receiver's type is recorded as Int.
    let types = vec![HirType::Error, HirType::Int];
    desugar_method_calls(&mut hir, &types, &mut interner);
    match &hir.items[0] {
        HirItem::Fn(g) => assert_eq!(callee_name(&g.body, &interner), "Counter_bump"),
        _ => panic!(),
    }
    // No recorded type at all: the same fallback.
    let body = method_call(2, ident(40, x), bump, vec![]);
    let params = vec![(this, HirType::Named(counter))];
    let mut hir = Hir { items: vec![HirItem::Fn(func(f, params, body))] };
    desugar_method_calls(&mut hir, &[], &mut interner);
    match &hir.items[0] {
        HirItem::Fn(g) => assert_eq!(callee_name(&g.body, &interner), "Counter_bump"),
        _ => panic!(),
    }
}

#[test]
fn no_type_name_gives_unknown() {
    let mut interner = Interner::new();
    let go = interner.intern("go");
    let x = interner.intern("x");
    let main = interner.intern("main");
    let body = method_call(2, ident(1, x), go, vec![]);
    let mut hir = Hir { items: vec![HirItem::Fn(func(main, vec![], body))] };
    desugar_method_calls(&mut hir, &[HirType::Error, HirType::Error], &mut interner);
    match &hir.items[0] {
        HirItem::Fn(g) => assert_eq!(callee_name(&g.body, &interner), "unknown_go"),
        _ => panic!(),
    }
    // A receiver recorded with a type that has no name (Bool) also gives `unknown`.
    let body = method_call(2, ident(1, x), go, vec![]);
    let mut hir = Hir { items: vec![HirItem::Fn(func(main, vec![], body))] };
    desugar_method_calls(&mut hir, &[HirType::Error, HirType::Bool], &mut interner);
    match &hir.items[0] {
        HirItem::Fn(g) => assert_eq!(callee_name(&g.body, &interner), "unknown_go"),
        _ => panic!(),
    }
}

#[test]
fn nested_calls_in_statements_and_receivers() {
    let mut interner = Interner::new();
    let vec_name = interner.intern("Vec");
    let push = interner.intern("push");
    let first = interner.intern("first");
    let v = interner.intern("v");
    let y = interner.intern("y");
    let main = interner.intern("main");
    // let y = v.first().push(1);
    let inner = method_call(2, ident(1, v), first, vec![]);
    let outer = method_call(3, inner, push, vec![int_lit(4, 1)]);
    let body = HirExpr::Block {
        id: ExprId::new(5),
        stmts: vec![HirStmt::Let { name: y, mutable: false, value: outer, span: sp() }],
        span: sp(),
    };
    let mut hir = Hir { items: vec![HirItem::Fn(func(main, vec![], body))] };
    let types = vec![HirType::Error, HirType::Named(vec_name), HirType::Named(vec_name)];
    desugar_method_calls(&mut hir, &types, &mut interner);
    let f = match &hir.items[0] {
        HirItem::Fn(f) => f,
        _ => panic!(),
    };
    let value = match &f.body {
        HirExpr::Block { stmts, .. } => match &stmts[0] {
            HirStmt::Let { value, .. } => value,
            _ => panic!(),
        },
        _ => panic!(),
    };
    assert_eq!(callee_name(value, &interner), "Vec_push");
    match value {
        HirExpr::Call { args, .. } => {
            assert_eq!(args.len(), 2);
            assert_eq!(callee_name(&args[0], &interner), "Vec_first");
            match &args[0] {
                HirExpr::Call { args: inner_args, .. } => assert_eq!(inner_args[0], ident(1, v)),
                _ => unreachable!(),
            }
        }
        _ => unreachable!(),
    }
}

#[test]
fn impl_methods_are_desugared_and_other_items_kept() {
    let mut interner = Interner::new();
    let shape = interner.intern("Shape");
    let area = interner.intern("area");
    let this = interner.intern("self");
    let s = interner.intern("s");
    let size = interner.intern("size");
    let body = method_call(2, ident(1, s), area, vec![]);
    let method = func(size, vec![(this, HirType::Named(shape))], body);
    let imp = HirImplDef {
        doc: None,
        target_name: shape,
        type_params: vec![],
        methods: vec![method],
        span: sp(),
        is_pub: true,
    };
    let st = StructDef {
        doc: None,
        name: shape,
        type_params: vec![],
        fields: vec![],
        span: sp(),
        is_pub: false,
    };
    let mut hir = Hir { items: vec![HirItem::Struct(st.clone()), HirItem::Impl(imp)] };
    desugar_method_calls(&mut hir, &[HirType::Error, HirType::Error], &mut interner);
    assert_eq!(hir.items.len(), 2);
    assert_eq!(hir.items[0], HirItem::Struct(st));
    match &hir.items[1] {
        HirItem::Impl(d) => {
            assert_eq!(d.target_name, shape);
            assert!(d.is_pub);
            assert_eq!(d.methods.len(), 1);
            assert_eq!(callee_name(&d.methods[0].body, &interner), "Shape_area");
            assert_eq!(d.methods[0].name, size);
        }
        _ => panic!(),
    }
}

#[test]
fn expressions_without_method_calls_are_unchanged() {
    let mut interner = Interner::new();
    let main = interner.intern("main");
    let body = HirExpr::Binary {
        id: ExprId::new(3),
        op: glyim::node::HirBinOp::Add,
        lhs: Box::new(int_lit(1, 1)),
        rhs: Box::new(int_lit(2, 2)),
        span: sp(),
    };
    let expected = HirExpr::Binary {
        id: ExprId::new(3),
        op: glyim::node::HirBinOp::Add,
        lhs: Box::new(int_lit(1, 1)),
        rhs: Box::new(int_lit(2, 2)),
        span: sp(),
    };
    let before = interner.len();
    let mut hir = Hir { items: vec![HirItem::Fn(func(main, vec![], body))] };
    desugar_method_calls(&mut hir, &[], &mut interner);
    match &hir.items[0] {
        HirItem::Fn(f) => assert_eq!(f.body, expected),
        _ => panic!(),
    }
    assert_eq!(interner.len(), before);
}

use glyim::item::{Hir, HirItem, StructDef, StructField};
use glyim::node::{HirExpr, HirFn, HirStmt};
use glyim::remap_symbols::{
    collect_all_symbols, collect_symbols_from_type, remap_symbols_in_hir, remap_type, SymbolMap, SymbolSet,
};
use glyim::symbol::Interner;
use glyim::types::{ExprId, HirType, Span};

fn sp() -> Span {
    Span::new(0, 0)
}

#[test]
fn remap_type_maps_named_generic_and_opaque() {
    let mut i = Interner::new();
    let a = i.intern("A");
    let b = i.intern("B");
    let t = i.intern("T");
    let mut m = SymbolMap::new();
    m.insert(a, b);
    let ty = HirType::Generic(a, vec![HirType::Named(a), HirType::Opaque(a), HirType::Param(a), HirType::Named(t)]);
    assert_eq!(
        remap_type(&ty, &m),
        HirType::Generic(b, vec![HirType::Named(b), HirType::Opaque(b), HirType::Param(a), HirType::Named(t)])
    );
}

#[test]
fn remap_with_empty_map_is_identity() {
    let mut i = Interner::new();
    let a = i.intern("A");
    let m = SymbolMap::new();
    let ty = HirType::Func(vec![HirType::Named(a)], Box::new(HirType::Option(Box::new(HirType::Named(a)))));
    assert_eq!(remap_type(&ty, &m), ty);
}

#[test]
fn remap_symbols_in_hir_renames_names_and_types() {
    let mut i = Interner::new();
    let f = i.intern("f");
    let g = i.intern("g");
    let x = i.intern("x");
    let y = i.intern("y");
    let s = i.intern("S");
    let s2 = i.intern("S2");
    let body = HirExpr::Block {
        id: ExprId::new(0),
        stmts: vec![
            HirStmt::Let { name: x, mutable: false, value: HirExpr::IntLit { id: ExprId::new(1), value: 3, span: sp() }, span: sp() },
            HirStmt::Expr(HirExpr::Call {
                id: ExprId::new(2),
                callee: f,
                args: vec![HirExpr::Ident { id: ExprId::new(3), name: x, span: sp() }],
                span: sp(),
            }),
            HirStmt::Expr(HirExpr::SizeOf { id: ExprId::new(4), target_type: HirType::Named(s), span: sp() }),
        ],
        span: sp(),
    };
    let mut hir = Hir {
        items: vec![
            HirItem::Fn(HirFn {
                doc: None,
                name: f,
                type_params: vec![],
                params: vec![(x, HirType::Named(s))],
                param_mutability: vec![false],
                ret: None,
                body,
                span: sp(),
                is_pub: true,
                is_macro_generated: false,
                is_extern_backed: false,
            }),
            HirItem::Struct(StructDef {
                doc: None,
                name: s,
                type_params: vec![],
                fields: vec![StructField { name: x, ty: HirType::Int, doc: None }],
                span: sp(),
                is_pub: false,
            }),
        ],
    };
    let mut m = SymbolMap::new();
    m.insert(f, g);
    m.insert(x, y);
    m.insert(s, s2);
    remap_symbols_in_hir(&mut hir, &m);
    match &hir.items[0] {
        HirItem::Fn(func) => {
            assert_eq!(func.name, g);
            assert_eq!(func.params[0], (y, HirType::Named(s2)), "parameter types are remapped");
            match &func.body {
                HirExpr::Block { stmts, .. } => {
                    assert!(matches!(&stmts[0], HirStmt::Let { name, .. } if *name == y));
                    match &stmts[1] {
                        HirStmt::Expr(HirExpr::Call { callee, args, .. }) => {
                            assert_eq!(*callee, g);
                            assert!(matches!(&args[0], HirExpr::Ident { name, .. } if *name == y));
                        }
                        other => panic!("unexpected {:?}", other),
                    }
                    assert!(matches!(&stmts[2], HirStmt::Expr(HirExpr::SizeOf { target_type: HirType::Named(t), .. }) if *t == s2));
                }
                other => panic!("unexpected {:?}", other),
            }
        }
        other => panic!("unexpected {:?}", other),
    }
    match &hir.items[1] {
        HirItem::Struct(sd) => {
            assert_eq!(sd.name, s2);
            assert_eq!(sd.fields[0].name, y);
        }
        other => panic!("unexpected {:?}", other),
    }
}

#[test]
fn collect_symbols_walks_items_and_types() {
    let mut i = Interner::new();
    let f = i.intern("f");
    let x = i.intern("x");
    let t = i.intern("T");
    let v = i.intern("Vec");
    let hir = Hir {
        items: vec![HirItem::Fn(HirFn {
            doc: None,
            name: f,
            type_params: vec![t],
            params: vec![(x, HirType::Generic(v, vec![HirType::Param(t)]))],
            param_mutability: vec![false],
            ret: None,
            body: HirExpr::Ident { id: ExprId::new(0), name: x, span: sp() },
            span: sp(),
            is_pub: false,
            is_macro_generated: false,
            is_extern_backed: false,
        })],
    };
    let mut set = SymbolSet::new();
    collect_all_symbols(&hir, &mut set);
    assert_eq!(set.len(), 4);
    for sym in [f, x, t, v] {
        assert!(set.contains(&sym));
    }
    let mut only_type = SymbolSet::new();
    collect_symbols_from_type(&HirType::Result(Box::new(HirType::Named(v)), Box::new(HirType::Param(t))), &mut only_type);
    assert_eq!(only_type.len(), 1);
    assert!(only_type.contains(&v));
    assert!(!only_type.insert(v));
}

#[test]
fn remapping_maps_every_collected_symbol() {
    let mut i = Interner::new();
    let f = i.intern("f");
    let x = i.intern("x");
    let t = i.intern("T");
    let s = i.intern("S");
    let u = i.intern("U");
    let hir_items = || vec![
        HirItem::Fn(HirFn {
            doc: None,
            name: f,
            type_params: vec![t],
            params: vec![(x, HirType::Named(s))],
            param_mutability: vec![false],
            ret: Some(HirType::Named(t)),
            body: HirExpr::Ident { id: ExprId::new(0), name: x, span: sp() },
            span: sp(),
            is_pub: false,
            is_macro_generated: false,
            is_extern_backed: false,
        }),
        HirItem::Struct(StructDef {
            doc: None,
            name: s,
            type_params: vec![t],
            fields: vec![StructField { name: x, ty: HirType::Named(t), doc: None }],
            span: sp(),
            is_pub: false,
        }),
    ];
    let mut hir = Hir { items: hir_items() };
    let mut m = SymbolMap::new();
    m.insert(s, u);
    m.insert(t, s);
    remap_symbols_in_hir(&mut hir, &m);
    let mut after = SymbolSet::new();
    collect_all_symbols(&hir, &mut after);
    assert_eq!(after.len(), 4);
    for sym in [f, x, s, u] {
        assert!(after.contains(&sym));
    }
    assert!(!after.contains(&t));
    match &hir.items[1] {
        HirItem::Struct(sd) => {
            assert_eq!(sd.name, u);
            assert_eq!(sd.type_params, vec![s]);
            assert_eq!(sd.fields[0].ty, HirType::Named(s));
        }
        other => panic!("unexpected {:?}", other),
    }
}

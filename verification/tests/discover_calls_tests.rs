use glyim::item::{Hir, HirItem, StructDef};
use glyim::monomorphize::call_args::CallTypeArgs;
use glyim::monomorphize::discover::{discover_calls_in_body, discover_forin_specializations};
use glyim::monomorphize::index::MonoIndex;
use glyim::monomorphize::mangle_table::MangleTable;
use glyim::monomorphize::work::ItemKind;
use glyim::node::{HirExpr, HirFn, HirStmt};
use glyim::symbol::{Interner, Symbol};
use glyim::types::{ExprId, HirPattern, HirType, Span, TypeSubst};

fn sp() -> Span {
    Span::new(0, 0)
}

fn function(name: Symbol, type_params: Vec<Symbol>, params: Vec<(Symbol, HirType)>, ret: Option<HirType>) -> HirFn {
    let n = params.len();
    HirFn {
        doc: None,
        name,
        type_params,
        params,
        param_mutability: vec![false; n],
        ret,
        body: HirExpr::IntLit { id: ExprId::new(0), value: 0, span: sp() },
        span: sp(),
        is_pub: false,
        is_macro_generated: false,
        is_extern_backed: false,
    }
}

fn generic_struct(name: Symbol, t: Symbol) -> HirItem {
    HirItem::Struct(StructDef { doc: None, name, type_params: vec![t], fields: vec![], span: sp(), is_pub: false })
}

/// `Vec<T>`, `Iter<T>`, `Vec_iter<T>(v: Vec<T>) -> Iter<T>` and `Iter_next<T>(it: Iter<T>) -> T`.
fn iter_program(interner: &mut Interner) -> Hir {
    let vec_sym = interner.intern("Vec");
    let iter_sym = interner.intern("Iter");
    let t = interner.intern("T");
    let v = interner.intern("v");
    let vec_iter = interner.intern("Vec_iter");
    let iter_next = interner.intern("Iter_next");
    Hir {
        items: vec![
            generic_struct(vec_sym, t),
            generic_struct(iter_sym, t),
            HirItem::Fn(function(
                vec_iter,
                vec![t],
                vec![(v, HirType::Generic(vec_sym, vec![HirType::Named(t)]))],
                Some(HirType::Generic(iter_sym, vec![HirType::Named(t)])),
            )),
            HirItem::Fn(function(
                iter_next,
                vec![t],
                vec![(v, HirType::Generic(iter_sym, vec![HirType::Named(t)]))],
                Some(HirType::Named(t)),
            )),
        ],
    }
}

#[test]
fn forin_discovers_iter_and_next() {
    let mut interner = Interner::new();
    let hir = iter_program(&mut interner);
    let index = MonoIndex::build(&hir);
    let vec_sym = interner.intern("Vec");
    let mut table = MangleTable::new();
    let types = vec![HirType::Error, HirType::Generic(vec_sym, vec![HirType::Int])];
    let items = discover_forin_specializations(ExprId::new(1), &types, &TypeSubst::new(), &index, &mut table, &mut interner);
    assert_eq!(items.len(), 2);
    assert_eq!(interner.resolve(items[0].def_id), "Vec_iter");
    assert_eq!(items[0].kind, ItemKind::FnSpecialize);
    assert_eq!(items[0].type_args, vec![HirType::Int]);
    assert_eq!(interner.resolve(items[1].def_id), "Iter_next");
    assert_eq!(items[1].kind, ItemKind::FnSpecialize);
    assert_eq!(items[1].type_args, vec![HirType::Int]);
}

#[test]
fn forin_through_raw_pointer_and_substitution() {
    let mut interner = Interner::new();
    let hir = iter_program(&mut interner);
    let index = MonoIndex::build(&hir);
    let vec_sym = interner.intern("Vec");
    let u = interner.intern("U");
    let mut table = MangleTable::new();
    let types = vec![HirType::RawPtr(Box::new(HirType::Generic(vec_sym, vec![HirType::Named(u)])))];
    let mut sub = TypeSubst::new();
    sub.insert(u, HirType::Bool);
    let items = discover_forin_specializations(ExprId::new(0), &types, &sub, &index, &mut table, &mut interner);
    assert_eq!(items.len(), 2);
    assert_eq!(items[0].type_args, vec![HirType::Bool]);
    assert_eq!(items[1].type_args, vec![HirType::Bool]);
}

#[test]
fn forin_without_iter_function_or_with_unresolved_args_finds_nothing() {
    let mut interner = Interner::new();
    let hir = iter_program(&mut interner);
    let index = MonoIndex::build(&hir);
    let iter_sym = interner.intern("Iter");
    let vec_sym = interner.intern("Vec");
    let t = interner.intern("T");
    let mut table = MangleTable::new();
    // `Iter_iter` does not exist, but the name is interned on the way.
    let types = vec![HirType::Generic(iter_sym, vec![HirType::Int])];
    let items = discover_forin_specializations(ExprId::new(0), &types, &TypeSubst::new(), &index, &mut table, &mut interner);
    assert!(items.is_empty());
    assert!(interner.lookup("Iter_iter").is_some());
    // An argument that is still a type parameter.
    let types = vec![HirType::Generic(vec_sym, vec![HirType::Named(t)])];
    let items = discover_forin_specializations(ExprId::new(0), &types, &TypeSubst::new(), &index, &mut table, &mut interner);
    assert!(items.is_empty());
    // No recorded type, or one that is not generic.
    let items = discover_forin_specializations(ExprId::new(5), &types, &TypeSubst::new(), &index, &mut table, &mut interner);
    assert!(items.is_empty());
    let types = vec![HirType::Int];
    let items = discover_forin_specializations(ExprId::new(0), &types, &TypeSubst::new(), &index, &mut table, &mut interner);
    assert!(items.is_empty());
}

#[test]
fn calls_in_body_outer_call_before_arguments() {
    let mut interner = Interner::new();
    let t = interner.intern("T");
    let x = interner.intern("x");
    let id_fn = interner.intern("id");
    let wrap = interner.intern("wrap");
    let plain = interner.intern("plain");
    let y = interner.intern("y");
    let hir = Hir {
        items: vec![
            HirItem::Fn(function(id_fn, vec![t], vec![(x, HirType::Named(t))], Some(HirType::Named(t)))),
            HirItem::Fn(function(wrap, vec![t], vec![(x, HirType::Named(t))], Some(HirType::Named(t)))),
            HirItem::Fn(function(plain, vec![], vec![], Some(HirType::Int))),
        ],
    };
    let index = MonoIndex::build(&hir);
    let mut table = MangleTable::new();
    // let y = wrap(id(1), plain());
    let inner = HirExpr::Call {
        id: ExprId::new(2),
        callee: id_fn,
        args: vec![HirExpr::IntLit { id: ExprId::new(1), value: 1, span: sp() }],
        span: sp(),
    };
    let other = HirExpr::Call { id: ExprId::new(3), callee: plain, args: vec![], span: sp() };
    let outer = HirExpr::Call { id: ExprId::new(4), callee: wrap, args: vec![inner, other], span: sp() };
    let body = HirExpr::Block {
        id: ExprId::new(5),
        stmts: vec![HirStmt::Let { name: y, mutable: false, value: outer, span: sp() }],
        span: sp(),
    };
    let mut cta = CallTypeArgs::new();
    cta.insert(ExprId::new(2), vec![HirType::Int]);
    cta.insert(ExprId::new(4), vec![HirType::Bool]);
    let types = vec![HirType::Int, HirType::Int, HirType::Int, HirType::Int, HirType::Int, HirType::Int];
    let items = discover_calls_in_body(&body, &index, &mut interner, &mut table, &types, &cta, &TypeSubst::new());
    assert_eq!(items.len(), 2);
    assert_eq!(items[0].def_id, wrap);
    assert_eq!(items[0].type_args, vec![HirType::Bool]);
    assert_eq!(items[1].def_id, id_fn);
    assert_eq!(items[1].type_args, vec![HirType::Int]);
    assert!(items.iter().all(|w| w.kind == ItemKind::FnSpecialize));
}

#[test]
fn calls_in_body_infers_from_generic_return_type_and_substitutes() {
    let mut interner = Interner::new();
    let t = interner.intern("T");
    let u = interner.intern("U");
    let box_sym = interner.intern("Box");
    let make = interner.intern("Box_new__i64");
    let base = interner.intern("Box_new");
    let x = interner.intern("x");
    let hir = Hir {
        items: vec![HirItem::Fn(function(
            base,
            vec![t],
            vec![(x, HirType::Named(t))],
            Some(HirType::Generic(box_sym, vec![HirType::Named(t)])),
        ))],
    };
    let index = MonoIndex::build(&hir);
    let mut table = MangleTable::new();
    // A pre-mangled callee with no recorded type arguments; its recorded type is `Box<U>`.
    let call = HirExpr::Call { id: ExprId::new(0), callee: make, args: vec![], span: sp() };
    let types = vec![HirType::Generic(box_sym, vec![HirType::Named(u)])];
    let mut sub = TypeSubst::new();
    sub.insert(u, HirType::Str);
    let items = discover_calls_in_body(&call, &index, &mut interner, &mut table, &types, &CallTypeArgs::new(), &sub);
    assert_eq!(items.len(), 1);
    assert_eq!(items[0].def_id, base);
    assert_eq!(items[0].type_args, vec![HirType::Str]);
    // Without the substitution the argument is unresolved: nothing.
    let call = HirExpr::Call { id: ExprId::new(0), callee: make, args: vec![], span: sp() };
    let items = discover_calls_in_body(&call, &index, &mut interner, &mut table, &types, &CallTypeArgs::new(), &TypeSubst::new());
    assert!(items.is_empty());
}

#[test]
fn calls_in_body_struct_literal_sizeof_and_for_loop() {
    let mut interner = Interner::new();
    let hir = iter_program(&mut interner);
    let index = MonoIndex::build(&hir);
    let vec_sym = interner.intern("Vec");
    let iter_sym = interner.intern("Iter");
    let item = interner.intern("item");
    let mut table = MangleTable::new();
    let vec_int = || HirType::Generic(vec_sym, vec![HirType::Int]);
    // for item in <expr 1> { sizeof(Iter<Bool>) }, and a struct literal of type Vec<Int>.
    let lit = HirExpr::StructLit { id: ExprId::new(3), struct_name: vec_sym, fields: vec![], span: sp() };
    let size = HirExpr::SizeOf { id: ExprId::new(4), target_type: HirType::Generic(iter_sym, vec![HirType::Bool]), span: sp() };
    let for_loop = HirExpr::ForIn {
        id: ExprId::new(2),
        pattern: HirPattern::Var(item),
        iter: Box::new(HirExpr::Ident { id: ExprId::new(1), name: item, span: sp() }),
        body: Box::new(size),
        span: sp(),
    };
    let body = HirExpr::Block {
        id: ExprId::new(5),
        stmts: vec![HirStmt::Expr(lit), HirStmt::Expr(for_loop)],
        span: sp(),
    };
    let types = vec![HirType::Error, vec_int(), HirType::Unit, vec_int(), HirType::Int, HirType::Unit];
    let items = discover_calls_in_body(&body, &index, &mut interner, &mut table, &types, &CallTypeArgs::new(), &TypeSubst::new());
    let summary: Vec<(String, ItemKind)> =
        items.iter().map(|w| (interner.resolve(w.def_id).to_string(), w.kind)).collect();
    assert_eq!(
        summary,
        vec![
            ("Vec".to_string(), ItemKind::StructSpecialize),
            ("Vec_iter".to_string(), ItemKind::FnSpecialize),
            ("Iter_next".to_string(), ItemKind::FnSpecialize),
            ("Vec".to_string(), ItemKind::StructSpecialize),
            ("Iter".to_string(), ItemKind::StructSpecialize),
        ]
    );
    assert_eq!(items[4].type_args, vec![HirType::Bool]);
}

#[test]
fn calls_in_body_leaves_and_non_generic_calls_find_nothing() {
    let mut interner = Interner::new();
    let f = interner.intern("f");
    let hir = Hir { items: vec![HirItem::Fn(function(f, vec![], vec![], None))] };
    let index = MonoIndex::build(&hir);
    let mut table = MangleTable::new();
    let call = HirExpr::Call { id: ExprId::new(0), callee: f, args: vec![], span: sp() };
    let mut cta = CallTypeArgs::new();
    cta.insert(ExprId::new(0), vec![HirType::Int]);
    let items = discover_calls_in_body(&call, &index, &mut interner, &mut table, &[HirType::Int], &cta, &TypeSubst::new());
    assert!(items.is_empty());
    let leaf = HirExpr::BoolLit { id: ExprId::new(0), value: true, span: sp() };
    let items = discover_calls_in_body(&leaf, &index, &mut interner, &mut table, &[], &cta, &TypeSubst::new());
    assert!(items.is_empty());
}

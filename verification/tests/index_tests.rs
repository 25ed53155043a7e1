use glyim::item::{EnumDef, Hir, HirImplDef, HirItem, StructDef, StructField};
use glyim::monomorphize::index::MonoIndex;
use glyim::node::{HirExpr, HirFn};
use glyim::symbol::{Interner, Symbol};
use glyim::types::{ExprId, HirType, Span};

fn make_hir_with_struct(interner: &mut Interner, name: &str, type_param_names: &[&str]) -> Hir {
    let name_sym = interner.intern(name);
    let type_params: Vec<Symbol> = type_param_names.iter().map(|t| interner.intern(t)).collect();
    Hir {
        items: vec![HirItem::Struct(StructDef {
            doc: None,
            name: name_sym,
            type_params,
            fields: vec![StructField { name: interner.intern("data"), ty: HirType::Int, doc: None }],
            span: Span::new(0, 0),
            is_pub: false,
        })],
    }
}

fn simple_fn(name: Symbol, type_params: Vec<Symbol>, param: Symbol, id: u32) -> HirFn {
    HirFn {
        doc: None,
        name,
        type_params,
        params: vec![(param, HirType::Int)],
        param_mutability: vec![false],
        ret: None,
        body: HirExpr::IntLit { id: ExprId::new(id), value: 0, span: Span::new(0, 0) },
        span: Span::new(0, 0),
        is_pub: false,
        is_macro_generated: false,
        is_extern_backed: false,
    }
}

#[test]
fn index_finds_struct() {
    let mut interner = Interner::new();
    let hir = make_hir_with_struct(&mut interner, "Pair", &["T"]);
    let pair_sym = interner.intern("Pair");

    let index = MonoIndex::build(&hir);

    assert!(index.find_struct(pair_sym).is_some());
    assert!(index.is_generic_struct(pair_sym));

    let missing = interner.intern("Missing");
    assert!(index.find_struct(missing).is_none());
    assert!(!index.is_generic_struct(missing));
}

#[test]
fn index_finds_non_generic_struct() {
    let mut interner = Interner::new();
    let hir = make_hir_with_struct(&mut interner, "Point", &[]);
    let point_sym = interner.intern("Point");

    let index = MonoIndex::build(&hir);

    assert!(index.find_struct(point_sym).is_some());
    assert!(!index.is_generic_struct(point_sym));
}

#[test]
fn index_finds_fn_and_impl_method() {
    let mut interner = Interner::new();
    let id_sym = interner.intern("id");
    let push_sym = interner.intern("Vec_push");
    let vec_sym = interner.intern("Vec");
    let t = interner.intern("T");
    let x = interner.intern("x");
    let self_sym = interner.intern("self");

    let hir = Hir {
        items: vec![
            HirItem::Fn(simple_fn(id_sym, vec![t], x, 0)),
            HirItem::Impl(HirImplDef {
                doc: None,
                target_name: vec_sym,
                type_params: vec![t],
                methods: vec![simple_fn(push_sym, vec![], self_sym, 1)],
                span: Span::new(0, 0),
                is_pub: false,
            }),
        ],
    };

    let index = MonoIndex::build(&hir);

    assert!(index.find_fn(id_sym).is_some());
    assert!(index.is_generic_fn(id_sym));

    assert!(index.find_fn(push_sym).is_some(), "Should find impl method by mangled name");

    let fn_name_set: Vec<Symbol> = index.fn_names();
    assert!(fn_name_set.contains(&id_sym));
    assert!(!fn_name_set.contains(&push_sym), "impl methods not in fn_names");

    let impl_name_set: Vec<Symbol> = index.impl_method_names();
    assert!(impl_name_set.contains(&push_sym));
}

#[test]
fn index_finds_enum() {
    let mut interner = Interner::new();
    let opt_sym = interner.intern("Option");
    let t = interner.intern("T");

    let hir = Hir {
        items: vec![HirItem::Enum(EnumDef {
            doc: None,
            name: opt_sym,
            type_params: vec![t],
            variants: vec![],
            span: Span::new(0, 0),
            is_pub: false,
        })],
    };

    let index = MonoIndex::build(&hir);

    assert!(index.find_enum(opt_sym).is_some());
    assert!(index.is_generic_enum(opt_sym));
}

#[test]
fn index_empty_hir() {
    let hir = Hir { items: vec![] };
    let index = MonoIndex::build(&hir);

    let mut interner = Interner::new();
    let foo = interner.intern("foo");
    assert!(index.find_fn(foo).is_none());
    assert!(index.find_struct(foo).is_none());
    assert!(index.find_enum(foo).is_none());
    assert!(!index.is_generic_fn(foo));
}

#[test]
fn index_later_definition_wins_and_methods_of_generic_targets_need_specialization() {
    let mut interner = Interner::new();
    let s = interner.intern("S");
    let t = interner.intern("T");
    let m = interner.intern("S_get");
    let late = interner.intern("Late");
    let late_m = interner.intern("Late_get");
    let p = interner.intern("p");
    let first = StructDef { doc: None, name: s, type_params: vec![], fields: vec![], span: Span::new(0, 0), is_pub: false };
    let second = StructDef { doc: None, name: s, type_params: vec![t], fields: vec![], span: Span::new(1, 2), is_pub: true };
    let hir = Hir {
        items: vec![
            HirItem::Struct(first),
            HirItem::Struct(second),
            HirItem::Impl(HirImplDef {
                doc: None,
                target_name: s,
                type_params: vec![],
                methods: vec![simple_fn(m, vec![], p, 0)],
                span: Span::new(0, 0),
                is_pub: false,
            }),
            HirItem::Impl(HirImplDef {
                doc: None,
                target_name: late,
                type_params: vec![],
                methods: vec![simple_fn(late_m, vec![], p, 1)],
                span: Span::new(0, 0),
                is_pub: false,
            }),
            HirItem::Struct(StructDef { doc: None, name: late, type_params: vec![t], fields: vec![], span: Span::new(0, 0), is_pub: false }),
        ],
    };
    let index = MonoIndex::build(&hir);
    assert_eq!(index.find_struct(s).unwrap().span, Span::new(1, 2));
    assert!(index.is_generic_fn(m));
    assert!(index.is_generic_fn(late_m), "the generic struct counts though it is declared after its impl");
    assert_eq!(index.find_impl(s).unwrap().methods.len(), 1);
    assert_eq!(index.struct_names().len(), 2);
    assert_eq!(index.enum_names().len(), 0);
}

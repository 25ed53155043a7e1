use glyim::index::{HirIndex, IndexError};
use glyim::item::{EnumDef, ExternBlock, ExternFn, Hir, HirImplDef, HirItem, HirVariant, StructDef, StructField};
use glyim::node::{HirExpr, HirFn};
use glyim::symbol::{Interner, Symbol};
use glyim::types::{ExprId, HirType, Span};

fn sp() -> Span {
    Span::new(0, 0)
}

fn f(name: Symbol, type_params: Vec<Symbol>) -> HirFn {
    HirFn {
        doc: None,
        name,
        type_params,
        params: vec![],
        param_mutability: vec![],
        ret: None,
        body: HirExpr::UnitLit { id: ExprId::new(0), span: sp() },
        span: sp(),
        is_pub: false,
        is_macro_generated: false,
        is_extern_backed: false,
    }
}

fn s(name: Symbol, fields: Vec<(Symbol, HirType)>) -> StructDef {
    StructDef {
        doc: None,
        name,
        type_params: vec![],
        fields: fields.into_iter().map(|(name, ty)| StructField { name, ty, doc: None }).collect(),
        span: sp(),
        is_pub: true,
    }
}

fn e(name: Symbol, variants: Vec<Symbol>) -> EnumDef {
    EnumDef {
        doc: None,
        name,
        type_params: vec![],
        variants: variants
            .into_iter()
            .enumerate()
            .map(|(i, name)| HirVariant { name, fields: vec![], tag: i as u32, doc: None })
            .collect(),
        span: sp(),
        is_pub: true,
    }
}

fn imp(target: Symbol, methods: Vec<HirFn>) -> HirImplDef {
    HirImplDef { doc: None, target_name: target, type_params: vec![], methods, span: sp(), is_pub: false }
}

#[test]
fn index_finds_declarations() {
    let mut interner = Interner::new();
    let point = interner.intern("Point");
    let x = interner.intern("x");
    let y = interner.intern("y");
    let color = interner.intern("Color");
    let red = interner.intern("Red");
    let green = interner.intern("Green");
    let main = interner.intern("main");
    let t = interner.intern("T");
    let len = interner.intern("Point_len");
    let puts = interner.intern("puts");
    let hir = Hir {
        items: vec![
            HirItem::Struct(s(point, vec![(x, HirType::Int), (y, HirType::Float)])),
            HirItem::Enum(e(color, vec![red, green])),
            HirItem::Fn(f(main, vec![t])),
            HirItem::Impl(imp(point, vec![f(len, vec![])])),
            HirItem::Extern(ExternBlock {
                doc: None,
                functions: vec![ExternFn { name: puts, params: vec![HirType::Str], ret: HirType::Int }],
                span: sp(),
            }),
        ],
    };
    let index = HirIndex::build(&hir).expect("no duplicates");

    let si = index.find_struct(point).expect("struct");
    assert_eq!(si.name, point);
    assert_eq!(si.fields, vec![(x, HirType::Int), (y, HirType::Float)]);
    assert_eq!(si.field_map.iter().find(|(n, _)| *n == y).map(|(_, i)| *i), Some(1));

    let ei = index.find_enum(color).expect("enum");
    assert_eq!(ei.variants.len(), 2);
    assert_eq!(ei.variant_map.iter().find(|(n, _)| *n == green).map(|(_, i)| *i), Some(1));

    let fi = index.find_fn(main).expect("fn");
    assert!(fi.is_generic);
    assert_eq!(fi.type_params, vec![t]);

    let mi = index.lookup_method(point, len).expect("method");
    assert_eq!(mi.name, len);
    assert!(!mi.is_generic);
    assert!(index.find_fn(len).is_some(), "methods are functions too");

    assert!(index.lookup_method(color, len).is_none());
    assert!(index.lookup_method(point, main).is_none());
    assert!(index.find_fn(puts).is_none(), "extern functions are not indexed as functions");
    assert!(index.find_struct(color).is_none());
}

#[test]
fn duplicate_struct_is_an_error() {
    let mut interner = Interner::new();
    let p = interner.intern("P");
    let hir = Hir { items: vec![HirItem::Struct(s(p, vec![])), HirItem::Struct(s(p, vec![]))] };
    assert!(matches!(HirIndex::build(&hir), Err(IndexError::DuplicateStruct { name }) if name == p));
}

#[test]
fn duplicate_enum_is_an_error() {
    let mut interner = Interner::new();
    let c = interner.intern("C");
    let hir = Hir { items: vec![HirItem::Enum(e(c, vec![])), HirItem::Enum(e(c, vec![]))] };
    assert!(matches!(HirIndex::build(&hir), Err(IndexError::DuplicateEnum { name }) if name == c));
}

#[test]
fn duplicate_fn_is_an_error_also_between_a_method_and_a_function() {
    let mut interner = Interner::new();
    let g = interner.intern("g");
    let p = interner.intern("P");
    let hir = Hir { items: vec![HirItem::Fn(f(g, vec![])), HirItem::Fn(f(g, vec![]))] };
    assert!(matches!(HirIndex::build(&hir), Err(IndexError::DuplicateFn { name }) if name == g));
    let hir = Hir { items: vec![HirItem::Fn(f(g, vec![])), HirItem::Impl(imp(p, vec![f(g, vec![])]))] };
    assert!(matches!(HirIndex::build(&hir), Err(IndexError::DuplicateFn { name }) if name == g));
}

#[test]
fn duplicate_method_is_an_error() {
    let mut interner = Interner::new();
    let m = interner.intern("m");
    let p = interner.intern("P");
    let hir = Hir { items: vec![HirItem::Impl(imp(p, vec![f(m, vec![]), f(m, vec![])]))] };
    assert!(matches!(
        HirIndex::build(&hir),
        Err(IndexError::DuplicateMethod { target, method }) if target == p && method == m
    ));
}

#[test]
fn a_struct_and_an_enum_may_share_a_name() {
    let mut interner = Interner::new();
    let n = interner.intern("N");
    let hir = Hir { items: vec![HirItem::Struct(s(n, vec![])), HirItem::Enum(e(n, vec![]))] };
    let index = HirIndex::build(&hir).expect("different kinds");
    assert!(index.find_struct(n).is_some());
    assert!(index.find_enum(n).is_some());
}

use glyim::item::{EnumDef, Hir, HirItem, HirVariant, StructDef, StructField};
use glyim::monomorphize::index::MonoIndex;
use glyim::monomorphize::mangle_table::MangleTable;
use glyim::monomorphize::specialize::{build_fn_subst, specialize_enum, specialize_struct};
use glyim::node::{HirExpr, HirFn};
use glyim::symbol::Interner;
use glyim::types::{ExprId, HirType, Span};

fn sp() -> Span {
    Span::new(0, 0)
}

#[test]
fn specializing_a_struct_mangles_and_substitutes() {
    let mut interner = Interner::new();
    let pair = interner.intern("Pair");
    let t = interner.intern("T");
    let u = interner.intern("U");
    let a = interner.intern("a");
    let b = interner.intern("b");
    let generic = StructDef {
        doc: None,
        name: pair,
        type_params: vec![t, u],
        fields: vec![
            StructField { name: a, ty: HirType::Named(t), doc: None },
            StructField { name: b, ty: HirType::Tuple(vec![HirType::Named(u), HirType::Int]), doc: None },
        ],
        span: sp(),
        is_pub: true,
    };
    let hir = Hir { items: vec![HirItem::Struct(generic.clone())] };
    let index = MonoIndex::build(&hir);
    let mut table = MangleTable::new();
    let concrete = specialize_struct(&generic, &vec![HirType::Bool, HirType::Str], &index, &mut table, &mut interner);
    assert_eq!(interner.resolve(concrete.name), "Pair__bool_str");
    assert!(concrete.type_params.is_empty());
    assert_eq!(concrete.fields[0].ty, HirType::Bool);
    assert_eq!(concrete.fields[1].ty, HirType::Tuple(vec![HirType::Str, HirType::Int]));
    assert_eq!(concrete.fields[1].name, b);
    assert!(concrete.is_pub);
}

#[test]
fn specializing_an_enum_makes_nested_generics_concrete() {
    let mut interner = Interner::new();
    let opt = interner.intern("Maybe");
    let vec_sym = interner.intern("Vec");
    let t = interner.intern("T");
    let some = interner.intern("Some");
    let none = interner.intern("None");
    let x = interner.intern("x");
    let generic = EnumDef {
        doc: None,
        name: opt,
        type_params: vec![t],
        variants: vec![
            HirVariant {
                name: some,
                fields: vec![StructField { name: x, ty: HirType::Generic(vec_sym, vec![HirType::Named(t)]), doc: None }],
                tag: 0,
                doc: None,
            },
            HirVariant { name: none, fields: vec![], tag: 1, doc: None },
        ],
        span: sp(),
        is_pub: false,
    };
    let vec_def = StructDef { doc: None, name: vec_sym, type_params: vec![t], fields: vec![], span: sp(), is_pub: false };
    let hir = Hir { items: vec![HirItem::Enum(generic.clone()), HirItem::Struct(vec_def)] };
    let index = MonoIndex::build(&hir);
    let mut table = MangleTable::new();
    let concrete = specialize_enum(&generic, &vec![HirType::Int], &index, &mut table, &mut interner);
    assert_eq!(interner.resolve(concrete.name), "Maybe__i64");
    assert!(concrete.type_params.is_empty());
    assert_eq!(concrete.variants.len(), 2);
    match &concrete.variants[0].fields[0].ty {
        HirType::Named(s) => assert_eq!(interner.resolve(*s), "Vec__i64"),
        other => panic!("expected a named type, got {:?}", other),
    }
    assert_eq!(concrete.variants[1].tag, 1);
}

#[test]
fn method_substitution_binds_the_receiver_struct_parameters() {
    let mut interner = Interner::new();
    let vec_sym = interner.intern("Vec");
    let t = interner.intern("T");
    let push = interner.intern("Vec_push");
    let this = interner.intern("self");
    let vec_def = StructDef { doc: None, name: vec_sym, type_params: vec![t], fields: vec![], span: sp(), is_pub: false };
    let method = HirFn {
        doc: None,
        name: push,
        type_params: vec![],
        params: vec![(this, HirType::RawPtr(Box::new(HirType::Generic(vec_sym, vec![HirType::Named(t)]))))],
        param_mutability: vec![true],
        ret: None,
        body: HirExpr::UnitLit { id: ExprId::new(0), span: sp() },
        span: sp(),
        is_pub: false,
        is_macro_generated: false,
        is_extern_backed: false,
    };
    let hir = Hir { items: vec![HirItem::Struct(vec_def)] };
    let index = MonoIndex::build(&hir);
    let sub = build_fn_subst(&method, &vec![HirType::Float], &index, &interner);
    assert_eq!(sub.len(), 1);
    assert_eq!(sub.get(&t), Some(&HirType::Float));
}

use glyim::item::{EnumDef, Hir, HirItem, StructDef, StructField};
use glyim::monomorphize::concretize::{
    build_subst, concretize_type, has_unresolved_type_param, substitute_and_concretize,
    substitute_and_concretize_slice,
};
use glyim::monomorphize::index::MonoIndex;
use glyim::monomorphize::mangle_table::MangleTable;
use glyim::symbol::Interner;
use glyim::types::{HirType, Span, TypeSubst};

/// A program with a `Vec<T>` struct and an `Option<T>` enum.
fn build_test_hir(interner: &mut Interner) -> Hir {
    let vec_sym = interner.intern("Vec");
    let opt_sym = interner.intern("Option");
    let t_sym = interner.intern("T");
    Hir {
        items: vec![
            HirItem::Struct(StructDef {
                doc: None,
                name: vec_sym,
                type_params: vec![t_sym],
                fields: vec![StructField { name: interner.intern("data"), ty: HirType::Int, doc: None }],
                span: Span::new(0, 0),
                is_pub: false,
            }),
            HirItem::Enum(EnumDef {
                doc: None,
                name: opt_sym,
                type_params: vec![t_sym],
                variants: vec![],
                span: Span::new(0, 0),
                is_pub: false,
            }),
        ],
    }
}

#[test]
fn concretize_primitive_passthrough() {
    let mut interner = Interner::new();
    let hir = build_test_hir(&mut interner);
    let index = MonoIndex::build(&hir);
    let mut mangle_table = MangleTable::new();

    assert_eq!(concretize_type(HirType::Int, &index, &mut mangle_table, &mut interner), HirType::Int);
    assert_eq!(concretize_type(HirType::Bool, &index, &mut mangle_table, &mut interner), HirType::Bool);
    assert_eq!(concretize_type(HirType::Float, &index, &mut mangle_table, &mut interner), HirType::Float);
    assert_eq!(concretize_type(HirType::Str, &index, &mut mangle_table, &mut interner), HirType::Str);
    assert_eq!(concretize_type(HirType::Unit, &index, &mut mangle_table, &mut interner), HirType::Unit);
}

#[test]
fn concretize_generic_vec_int() {
    let mut interner = Interner::new();
    let vec_sym = interner.intern("Vec");
    let hir = build_test_hir(&mut interner);
    let index = MonoIndex::build(&hir);
    let mut mangle_table = MangleTable::new();

    let input = HirType::Generic(vec_sym, vec![HirType::Int]);
    let result = concretize_type(input, &index, &mut mangle_table, &mut interner);

    match &result {
        HirType::Named(sym) => {
            let name = interner.resolve(*sym);
            assert!(name.starts_with("Vec"), "Expected Vec prefix, got {}", name);
            assert!(name.contains("i64"), "Expected i64 in name, got {}", name);
        }
        other => panic!("Expected Named, got {:?}", other),
    }
}

#[test]
fn concretize_raw_ptr_generic() {
    let mut interner = Interner::new();
    let vec_sym = interner.intern("Vec");
    let hir = build_test_hir(&mut interner);
    let index = MonoIndex::build(&hir);
    let mut mangle_table = MangleTable::new();

    let input = HirType::RawPtr(Box::new(HirType::Generic(vec_sym, vec![HirType::Int])));
    let result = concretize_type(input, &index, &mut mangle_table, &mut interner);

    match &result {
        HirType::RawPtr(inner) => match inner.as_ref() {
            HirType::Named(sym) => {
                let name = interner.resolve(*sym);
                assert!(name.starts_with("Vec"), "Expected Vec prefix inside RawPtr, got {}", name);
            }
            other => panic!("Expected Named inside RawPtr, got {:?}", other),
        },
        other => panic!("Expected RawPtr, got {:?}", other),
    }
}

#[test]
fn concretize_option_int() {
    let mut interner = Interner::new();
    let hir = build_test_hir(&mut interner);
    let index = MonoIndex::build(&hir);
    let mut mangle_table = MangleTable::new();

    let input = HirType::Option(Box::new(HirType::Int));
    let result = concretize_type(input, &index, &mut mangle_table, &mut interner);

    match &result {
        HirType::Named(sym) => {
            let name = interner.resolve(*sym);
            assert!(name.starts_with("Option"), "Expected Option prefix, got {}", name);
        }
        other => panic!("Expected Named, got {:?}", other),
    }
}

#[test]
fn concretize_nested_generic() {
    let mut interner = Interner::new();
    let vec_sym = interner.intern("Vec");
    let hir = build_test_hir(&mut interner);
    let index = MonoIndex::build(&hir);
    let mut mangle_table = MangleTable::new();

    let inner = HirType::Option(Box::new(HirType::Int));
    let input = HirType::Generic(vec_sym, vec![inner]);
    let result = concretize_type(input, &index, &mut mangle_table, &mut interner);

    match &result {
        HirType::Named(sym) => {
            let name = interner.resolve(*sym);
            assert!(name.starts_with("Vec__"), "Expected Vec__ prefix, got {}", name);
        }
        other => panic!("Expected Named, got {:?}", other),
    }
}

#[test]
fn concretize_unknown_generic_stays_generic() {
    let mut interner = Interner::new();
    let unknown_sym = interner.intern("Unknown");
    let hir = build_test_hir(&mut interner);
    let index = MonoIndex::build(&hir);
    let mut mangle_table = MangleTable::new();

    let input = HirType::Generic(unknown_sym, vec![HirType::Int]);
    let result = concretize_type(input, &index, &mut mangle_table, &mut interner);

    assert!(
        matches!(result, HirType::Generic(sym, _) if sym == unknown_sym),
        "Unknown generic should stay as Generic, got {:?}",
        result
    );
}

#[test]
fn has_unresolved_detects_type_param() {
    let mut interner = Interner::new();
    let t = interner.intern("T");
    let k = interner.intern("K");
    let vec_sym = interner.intern("Vec");

    assert!(has_unresolved_type_param(&HirType::Named(t), &interner));
    assert!(has_unresolved_type_param(&HirType::Named(k), &interner));
    assert!(!has_unresolved_type_param(&HirType::Int, &interner));
    assert!(!has_unresolved_type_param(&HirType::Named(vec_sym), &interner));
}

#[test]
fn has_unresolved_nested() {
    let mut interner = Interner::new();
    let t = interner.intern("T");
    let vec_sym = interner.intern("Vec");

    assert!(has_unresolved_type_param(&HirType::Generic(vec_sym, vec![HirType::Named(t)]), &interner));
    assert!(!has_unresolved_type_param(&HirType::Generic(vec_sym, vec![HirType::Int]), &interner));
}

#[test]
fn has_unresolved_raw_ptr() {
    let mut interner = Interner::new();
    let t = interner.intern("T");

    assert!(has_unresolved_type_param(&HirType::RawPtr(Box::new(HirType::Named(t))), &interner));
    assert!(!has_unresolved_type_param(&HirType::RawPtr(Box::new(HirType::Int)), &interner));
}

#[test]
fn build_subst_basic() {
    let mut interner = Interner::new();
    let t = interner.intern("T");
    let u = interner.intern("U");

    let sub = build_subst(&[t, u], &[HirType::Int, HirType::Bool]);

    assert_eq!(sub.get(&t), Some(&HirType::Int));
    assert_eq!(sub.get(&u), Some(&HirType::Bool));
}

#[test]
fn build_subst_uneven() {
    let mut interner = Interner::new();
    let t = interner.intern("T");
    let u = interner.intern("U");

    let sub = build_subst(&[t, u], &[HirType::Int]);
    assert_eq!(sub.get(&t), Some(&HirType::Int));
    assert_eq!(sub.get(&u), None);

    let sub2 = build_subst(&[t], &[HirType::Int, HirType::Bool]);
    assert_eq!(sub2.len(), 1);
}

#[test]
fn substitute_and_concretize_combines() {
    let mut interner = Interner::new();
    let vec_sym = interner.intern("Vec");
    let t_sym = interner.intern("T");
    let hir = build_test_hir(&mut interner);
    let index = MonoIndex::build(&hir);
    let mut mangle_table = MangleTable::new();

    let ty = HirType::Generic(vec_sym, vec![HirType::Named(t_sym)]);
    let sub = TypeSubst::from_pairs(vec![(t_sym, HirType::Int)]);

    let result = substitute_and_concretize(&ty, &sub, &index, &mut mangle_table, &mut interner);

    match &result {
        HirType::Named(sym) => {
            let name = interner.resolve(*sym);
            assert!(name.contains("Vec"), "Expected Vec in name, got {}", name);
            assert!(name.contains("i64"), "Expected i64 in name, got {}", name);
        }
        other => panic!("Expected Named, got {:?}", other),
    }
}

#[test]
fn concretize_exact_names_and_unknown_result() {
    let mut interner = Interner::new();
    let vec_sym = interner.intern("Vec");
    let hir = build_test_hir(&mut interner);
    let index = MonoIndex::build(&hir);
    let mut table = MangleTable::new();

    let nested = HirType::Generic(vec_sym, vec![HirType::Option(Box::new(HirType::Int))]);
    let r = concretize_type(nested, &index, &mut table, &mut interner);
    match r {
        HirType::Named(sym) => assert_eq!(interner.resolve(sym), "Vec__Option__i64"),
        other => panic!("Expected Named, got {:?}", other),
    }
    let res = HirType::Result(Box::new(HirType::Int), Box::new(HirType::Str));
    let r = concretize_type(res, &index, &mut table, &mut interner);
    assert_eq!(r, HirType::Result(Box::new(HirType::Int), Box::new(HirType::Str)));
    assert!(interner.lookup("Result").is_some(), "the name Result is interned on the way");
    assert_eq!(table.len(), 2);
}

#[test]
fn substitute_and_concretize_slice_keeps_order() {
    let mut interner = Interner::new();
    let vec_sym = interner.intern("Vec");
    let t_sym = interner.intern("T");
    let hir = build_test_hir(&mut interner);
    let index = MonoIndex::build(&hir);
    let mut table = MangleTable::new();
    let sub = TypeSubst::from_pairs(vec![(t_sym, HirType::Bool)]);
    let types = vec![HirType::Param(t_sym), HirType::Generic(vec_sym, vec![HirType::Param(t_sym)]), HirType::Unit];
    let out = substitute_and_concretize_slice(&types, &sub, &index, &mut table, &mut interner);
    assert_eq!(out.len(), 3);
    assert_eq!(out[0], HirType::Bool);
    match &out[1] {
        HirType::Named(sym) => assert_eq!(interner.resolve(*sym), "Vec__bool"),
        other => panic!("Expected Named, got {:?}", other),
    }
    assert_eq!(out[2], HirType::Unit);
}

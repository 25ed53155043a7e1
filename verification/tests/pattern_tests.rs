use glyim::item::{Hir, HirItem, StructDef, StructField};
use glyim::monomorphize::index::MonoIndex;
use glyim::monomorphize::mangle_table::MangleTable;
use glyim::monomorphize::pattern::substitute_pattern;
use glyim::symbol::Interner;
use glyim::types::{HirPattern, HirType, Span};

fn empty_hir() -> Hir {
    Hir { items: vec![] }
}

#[test]
fn substitute_pattern_option_some_converts_to_enum_variant() {
    let mut interner = Interner::new();
    let x_sym = interner.intern("x");
    let pattern = HirPattern::OptionSome(Box::new(HirPattern::Var(x_sym)));
    let scrutinee_ty = HirType::Option(Box::new(HirType::Int));
    let hir = empty_hir();
    let index = MonoIndex::build(&hir);
    let mut table = MangleTable::new();
    let result = substitute_pattern(&pattern, &scrutinee_ty, &index, &mut table, &mut interner);
    match result {
        HirPattern::EnumVariant { enum_name, variant_name, .. } => {
            let name = interner.resolve(enum_name);
            assert!(name.contains("Option"));
            assert_eq!(interner.resolve(variant_name), "Some");
        }
        other => panic!("Expected EnumVariant, got {:?}", other),
    }
}

#[test]
fn option_some_names_mangled_enum_and_binds_field_zero() {
    let mut interner = Interner::new();
    let x_sym = interner.intern("x");
    let pattern = HirPattern::OptionSome(Box::new(HirPattern::Var(x_sym)));
    let scrutinee_ty = HirType::Option(Box::new(HirType::Int));
    let hir = empty_hir();
    let index = MonoIndex::build(&hir);
    let mut table = MangleTable::new();
    let result = substitute_pattern(&pattern, &scrutinee_ty, &index, &mut table, &mut interner);
    match result {
        HirPattern::EnumVariant { enum_name, bindings, span, .. } => {
            assert_eq!(interner.resolve(enum_name), "Option__i64");
            assert_eq!(bindings.len(), 1);
            assert_eq!(interner.resolve(bindings[0].0), "0");
            assert_eq!(bindings[0].1, HirPattern::Var(x_sym));
            assert_eq!(span, Span::new(0, 0));
        }
        other => panic!("Expected EnumVariant, got {:?}", other),
    }
}

#[test]
fn option_none_without_payload_type_stays() {
    let mut interner = Interner::new();
    let hir = empty_hir();
    let index = MonoIndex::build(&hir);
    let mut table = MangleTable::new();
    let result = substitute_pattern(&HirPattern::OptionNone, &HirType::Int, &index, &mut table, &mut interner);
    assert_eq!(result, HirPattern::OptionNone);
}

#[test]
fn result_err_over_generic_uses_second_argument() {
    let mut interner = Interner::new();
    let res_sym = interner.intern("Res");
    let e_sym = interner.intern("e");
    let pattern = HirPattern::ResultErr(Box::new(HirPattern::Var(e_sym)));
    let scrutinee_ty = HirType::Generic(res_sym, vec![HirType::Int, HirType::Bool]);
    let hir = empty_hir();
    let index = MonoIndex::build(&hir);
    let mut table = MangleTable::new();
    let result = substitute_pattern(&pattern, &scrutinee_ty, &index, &mut table, &mut interner);
    match result {
        HirPattern::EnumVariant { enum_name, variant_name, bindings, .. } => {
            assert_eq!(interner.resolve(enum_name), "Result__i64_bool");
            assert_eq!(interner.resolve(variant_name), "Err");
            assert_eq!(bindings[0].1, HirPattern::Var(e_sym));
        }
        other => panic!("Expected EnumVariant, got {:?}", other),
    }
}

#[test]
fn struct_pattern_renamed_for_generic_struct() {
    let mut interner = Interner::new();
    let pair = interner.intern("Pair");
    let t_sym = interner.intern("T");
    let a_sym = interner.intern("a");
    let hir = Hir {
        items: vec![HirItem::Struct(StructDef {
            doc: None,
            name: pair,
            type_params: vec![t_sym],
            fields: vec![StructField { name: a_sym, ty: HirType::Named(t_sym), doc: None }],
            span: Span::new(0, 0),
            is_pub: false,
        })],
    };
    let index = MonoIndex::build(&hir);
    let mut table = MangleTable::new();
    let pattern = HirPattern::Struct { name: pair, bindings: vec![(a_sym, HirPattern::Wild)], span: Span::new(3, 9) };
    let ty = HirType::Generic(pair, vec![HirType::Int]);
    let result = substitute_pattern(&pattern, &ty, &index, &mut table, &mut interner);
    match result {
        HirPattern::Struct { name, bindings, span } => {
            assert_eq!(interner.resolve(name), "Pair__i64");
            assert_eq!(bindings, vec![(a_sym, HirPattern::Wild)]);
            assert_eq!(span, Span::new(3, 9));
        }
        other => panic!("Expected Struct, got {:?}", other),
    }
}

#[test]
fn tuple_elements_use_the_whole_scrutinee_type() {
    let mut interner = Interner::new();
    let named = interner.intern("Point");
    let hir = empty_hir();
    let index = MonoIndex::build(&hir);
    let mut table = MangleTable::new();
    let pattern = HirPattern::Tuple {
        elements: vec![HirPattern::OptionNone, HirPattern::IntLit(4)],
        span: Span::new(1, 2),
    };
    let result = substitute_pattern(&pattern, &HirType::Named(named), &index, &mut table, &mut interner);
    assert_eq!(
        result,
        HirPattern::Tuple { elements: vec![HirPattern::OptionNone, HirPattern::IntLit(4)], span: Span::new(1, 2) }
    );
}

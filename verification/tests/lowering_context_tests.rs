use glyim::decl_table::{DeclTable, StructInfo};
use glyim::lower::context::{is_known_struct, LoweringContext};
use glyim::lower::item::replace_named_with_param;
use glyim::symbol::Interner;
use glyim::types::{ExprId, HirType};

#[test]
fn fresh_ids_count_up_from_zero() {
    let mut interner = Interner::new();
    let mut ctx = LoweringContext::new(&mut interner);
    assert_eq!(ctx.fresh_id(), ExprId::new(0));
    assert_eq!(ctx.fresh_id(), ExprId::new(1));
    assert_eq!(ctx.fresh_id(), ExprId::new(2));
}

#[test]
fn type_param_scopes_nest() {
    let mut interner = Interner::new();
    let t = interner.intern("T");
    let u = interner.intern("U");
    let mut ctx = LoweringContext::new(&mut interner);
    assert!(!ctx.is_type_param(t));
    ctx.push_type_params(&[t]);
    assert!(ctx.is_type_param(t));
    ctx.push_type_params(&[u]);
    // Only the innermost scope counts.
    assert!(ctx.is_type_param(u));
    assert!(!ctx.is_type_param(t));
    ctx.pop_type_params();
    assert!(ctx.is_type_param(t));
    ctx.pop_type_params();
    ctx.pop_type_params();
    assert!(!ctx.is_type_param(t));
}

#[test]
fn intern_and_resolve_go_through_the_interner() {
    let mut interner = Interner::new();
    let a = {
        let mut ctx = LoweringContext::new(&mut interner);
        let a = ctx.intern("alpha");
        assert_eq!(ctx.intern("alpha"), a);
        assert_eq!(ctx.resolve(a), "alpha");
        a
    };
    assert_eq!(interner.resolve(a), "alpha");
}

#[test]
fn known_structs_from_names_or_declarations() {
    let mut interner = Interner::new();
    let point = interner.intern("Point");
    let line = interner.intern("Line");
    let other = interner.intern("Other");
    let table = DeclTable {
        structs: vec![(line, StructInfo { fields: vec![], field_map: vec![], type_params: vec![], is_pub: true })],
        enums: vec![],
        functions: vec![],
        impl_methods: vec![],
    };
    assert!(table.has_struct(line));
    assert!(!table.has_struct(point));
    let mut ctx = LoweringContext::with_decl_table(&mut interner, &table);
    ctx.struct_names.insert(point);
    assert!(is_known_struct(&ctx, point));
    assert!(is_known_struct(&ctx, line));
    assert!(!is_known_struct(&ctx, other));
    let mut interner2 = Interner::new();
    let ctx2 = LoweringContext::new(&mut interner2);
    assert!(!is_known_struct(&ctx2, line));
}

#[test]
fn named_type_parameters_become_params() {
    let mut interner = Interner::new();
    let t = interner.intern("T");
    let vec_sym = interner.intern("Vec");
    let other = interner.intern("Other");
    let params = [t];
    assert_eq!(replace_named_with_param(HirType::Named(t), &params), HirType::Param(t));
    assert_eq!(replace_named_with_param(HirType::Named(other), &params), HirType::Named(other));
    assert_eq!(
        replace_named_with_param(HirType::Generic(vec_sym, vec![HirType::Named(t), HirType::Int]), &params),
        HirType::Generic(vec_sym, vec![HirType::Param(t), HirType::Int])
    );
    assert_eq!(
        replace_named_with_param(HirType::RawPtr(Box::new(HirType::Named(t))), &params),
        HirType::RawPtr(Box::new(HirType::Param(t)))
    );
    assert_eq!(
        replace_named_with_param(
            HirType::Func(vec![HirType::Tuple(vec![HirType::Named(t)])], Box::new(HirType::Named(t))),
            &params
        ),
        HirType::Func(vec![HirType::Tuple(vec![HirType::Param(t)])], Box::new(HirType::Param(t)))
    );
    // Option and Result are left alone, and so is everything without parameters.
    assert_eq!(
        replace_named_with_param(HirType::Option(Box::new(HirType::Named(t))), &params),
        HirType::Option(Box::new(HirType::Named(t)))
    );
    assert_eq!(replace_named_with_param(HirType::Named(t), &[]), HirType::Named(t));
}

use glyim::symbol::Interner;
use glyim::types::{substitute_type_safe, HirType, SubstitutionError, TypeSubst, TypeVar};

#[test]
fn test_type_has_infer_detection() {
    assert!(HirType::Infer(TypeVar::from_raw_unchecked(0)).has_infer());
    assert!(!HirType::Int.has_infer());
    assert!(!HirType::Named(Interner::new().intern("Foo")).has_infer());
}

#[test]
fn test_has_param_detection() {
    let mut interner = Interner::new();
    let t = interner.intern("T");
    assert!(HirType::Param(t).has_param());
    assert!(!HirType::Int.has_param());
    assert!(!HirType::Named(interner.intern("Vec")).has_param());
}

#[test]
fn test_has_infer_nested() {
    let nested = HirType::Generic(
        Interner::new().intern("Vec"),
        vec![HirType::Infer(TypeVar::from_raw_unchecked(0))],
    );
    assert!(nested.has_infer());
}

#[test]
fn test_substitute_type_safe_basic() {
    let mut interner = Interner::new();
    let t = interner.intern("T");
    let sub = TypeSubst::from_pairs(vec![(t, HirType::Int)]);

    let result = substitute_type_safe(&HirType::Param(t), &sub);
    assert_eq!(result, Ok(HirType::Int));
}

#[test]
fn test_substitute_type_depth_limit() {
    let mut interner = Interner::new();
    let t = interner.intern("T");
    let mut ty = HirType::Param(t);
    for _ in 0..300 {
        ty = HirType::RawPtr(Box::new(ty));
    }
    let sub = TypeSubst::from_pairs(vec![(t, HirType::Int)]);
    let result = substitute_type_safe(&ty, &sub);
    assert!(matches!(result, Err(SubstitutionError::DepthExceeded)));
}

#[test]
fn test_typevar_from_raw_unchecked() {
    let tv = TypeVar::from_raw_unchecked(42);
    assert_eq!(tv.raw_index(), 42);
}

#[test]
fn test_hir_type_is_send_sync() {
    fn assert_bounds<T: Send + Sync>() {}
    assert_bounds::<HirType>();
    assert_bounds::<TypeVar>();
}

#[test]
fn substitute_depth_at_limit_is_accepted() {
    let mut interner = Interner::new();
    let t = interner.intern("T");
    let mut ty = HirType::Param(t);
    for _ in 0..256 {
        ty = HirType::RawPtr(Box::new(ty));
    }
    let sub = TypeSubst::from_pairs(vec![(t, HirType::Bool)]);
    let mut expected = HirType::Bool;
    for _ in 0..256 {
        expected = HirType::RawPtr(Box::new(expected));
    }
    assert_eq!(substitute_type_safe(&ty, &sub), Ok(expected));
    let deeper = HirType::RawPtr(Box::new(ty));
    assert_eq!(substitute_type_safe(&deeper, &sub), Err(SubstitutionError::DepthExceeded));
}

#[test]
fn substitution_replaces_named_and_param() {
    let mut interner = Interner::new();
    let t = interner.intern("T");
    let u = interner.intern("U");
    let sub = TypeSubst::from_pairs(vec![(t, HirType::Int), (t, HirType::Str)]);
    assert_eq!(sub.len(), 1);
    let ty = HirType::Tuple(vec![HirType::Named(t), HirType::Param(t), HirType::Param(u)]);
    assert_eq!(
        glyim::types::substitute_type(&ty, &sub),
        HirType::Tuple(vec![HirType::Str, HirType::Str, HirType::Param(u)])
    );
}

#[test]
fn interner_returns_existing_symbol() {
    let mut interner = Interner::new();
    let a = interner.intern("a");
    let b = interner.intern("b");
    assert_eq!(interner.intern("a"), a);
    assert_ne!(a, b);
    assert_eq!(interner.len(), 2);
    assert_eq!(interner.resolve(b), "b");
    assert_eq!(interner.lookup("c"), None);
    assert_eq!(interner.try_resolve(glyim::symbol::Symbol(7)), None);
}

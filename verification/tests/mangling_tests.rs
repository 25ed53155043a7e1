use glyim::monomorphize::mangling::{mangle_type_name, type_to_short_string};
use glyim::symbol::Interner;
use glyim::types::HirType;

#[test]
fn mangle_simple_type() {
    let mut interner = Interner::new();
    let vec_sym = interner.intern("Vec");
    let mangled = mangle_type_name(&mut interner, vec_sym, &vec![HirType::Int]);
    assert_eq!(interner.resolve(mangled), "Vec__i64");
}

#[test]
fn mangle_multiple_type_args() {
    let mut interner = Interner::new();
    let hashmap_sym = interner.intern("HashMap");
    let mangled = mangle_type_name(&mut interner, hashmap_sym, &vec![HirType::Str, HirType::Int]);
    assert_eq!(interner.resolve(mangled), "HashMap__str_i64");
}

#[test]
fn short_forms_of_composite_types() {
    let mut interner = Interner::new();
    let vec_sym = interner.intern("Vec");
    let ty = HirType::Tuple(vec![
        HirType::RawPtr(Box::new(HirType::Bool)),
        HirType::Option(Box::new(HirType::Float)),
        HirType::Generic(vec_sym, vec![HirType::Unit]),
    ]);
    assert_eq!(type_to_short_string(&ty, &interner), "tup_ptr_bool_opt_f64_Vec_unit");
    let res = HirType::Result(Box::new(HirType::Int), Box::new(HirType::Str));
    assert_eq!(type_to_short_string(&res, &interner), "res_i64_str");
}

#[test]
fn mangling_reuses_an_interned_name() {
    let mut interner = Interner::new();
    let vec_sym = interner.intern("Vec");
    let first = mangle_type_name(&mut interner, vec_sym, &vec![HirType::Int]);
    let second = mangle_type_name(&mut interner, vec_sym, &vec![HirType::Int]);
    assert_eq!(first, second);
    assert_eq!(interner.len(), 2);
}

use glyim::monomorphize::mangle_table::MangleTable;
use glyim::monomorphize::mangling::{mangle_type_name, type_to_short_string};
use glyim::symbol::Interner;
use glyim::types::HirType;

#[test]
fn mangle_table_is_deterministic() {
    let mut interner = Interner::new();
    let vec_sym = interner.intern("Vec");
    let args = vec![HirType::Int];
    let mut table = MangleTable::new();

    let s1 = table.mangle(vec_sym, &args, &mut interner);
    let s2 = table.mangle(vec_sym, &args, &mut interner);
    assert_eq!(s1, s2, "same (base, args) must produce identical mangled symbol");
}

#[test]
fn mangle_table_different_args_different_names() {
    let mut interner = Interner::new();
    let vec_sym = interner.intern("Vec");
    let mut table = MangleTable::new();

    let s_i64 = table.mangle(vec_sym, &vec![HirType::Int], &mut interner);
    let s_bool = table.mangle(vec_sym, &vec![HirType::Bool], &mut interner);
    assert_ne!(s_i64, s_bool, "different type args must produce distinct names");
}

#[test]
fn mangle_fn_no_args_returns_original() {
    let mut interner = Interner::new();
    let foo = interner.intern("foo");
    let mut table = MangleTable::new();

    let result = table.mangle_fn(foo, &vec![], &mut interner);
    assert_eq!(result, foo, "Non-generic fn should keep original name");
}

#[test]
fn mangle_fn_with_args_mangles() {
    let mut interner = Interner::new();
    let id = interner.intern("id");
    let mut table = MangleTable::new();

    let result = table.mangle_fn(id, &vec![HirType::Int], &mut interner);
    assert_eq!(interner.resolve(result), "id__i64");
}

#[test]
fn mangle_fn_deterministic() {
    let mut interner = Interner::new();
    let id = interner.intern("id");
    let mut table = MangleTable::new();

    let s1 = table.mangle_fn(id, &vec![HirType::Int], &mut interner);
    let s2 = table.mangle_fn(id, &vec![HirType::Int], &mut interner);
    assert_eq!(s1, s2);
}

#[test]
fn mangle_table_handles_multiple_args() {
    let mut interner = Interner::new();
    let hashmap_sym = interner.intern("HashMap");
    let mut table = MangleTable::new();

    let s1 = table.mangle(hashmap_sym, &vec![HirType::Str, HirType::Int], &mut interner);
    let s2 = table.mangle(hashmap_sym, &vec![HirType::Str, HirType::Int], &mut interner);
    assert_eq!(s1, s2);

    let name = interner.resolve(s1);
    assert!(name.starts_with("HashMap__"), "expected HashMap__ prefix, got {}", name);
    assert!(name.contains("str") && name.contains("i64"), "expected str and i64, got {}", name);
}

#[test]
fn mangle_table_mangle_table_is_deterministic() {
    let mut interner = Interner::new();
    let vec_sym = interner.intern("Vec");
    let args = vec![HirType::Int];
    let mut table = MangleTable::new();

    let s1 = table.mangle(vec_sym, &args, &mut interner);
    let s2 = table.mangle(vec_sym, &args, &mut interner);
    assert_eq!(s1, s2, "same (base, args) must produce identical mangled symbol");
}

#[test]
fn mangle_table_mangle_table_different_args_different_names() {
    let mut interner = Interner::new();
    let vec_sym = interner.intern("Vec");
    let mut table = MangleTable::new();

    let s_i64 = table.mangle(vec_sym, &vec![HirType::Int], &mut interner);
    let s_bool = table.mangle(vec_sym, &vec![HirType::Bool], &mut interner);
    assert_ne!(s_i64, s_bool, "different type args must produce distinct names");
}

#[test]
fn mangle_table_mangle_table_handles_multiple_args() {
    let mut interner = Interner::new();
    let hashmap_sym = interner.intern("HashMap");
    let mut table = MangleTable::new();

    let s1 = table.mangle(hashmap_sym, &vec![HirType::Str, HirType::Int], &mut interner);
    let s2 = table.mangle(hashmap_sym, &vec![HirType::Str, HirType::Int], &mut interner);
    assert_eq!(s1, s2);

    let name = interner.resolve(s1);
    assert!(name.starts_with("HashMap__"), "expected HashMap__ prefix, got {}", name);
    assert!(name.contains("str") && name.contains("i64"), "expected str and i64 in name, got {}", name);
}

#[test]
fn mangled_names_spell_every_type_form() {
    let mut interner = Interner::new();
    let pair = interner.intern("Pair");
    let vec_sym = interner.intern("Vec");
    let args = vec![
        HirType::Generic(vec_sym, vec![HirType::Bool, HirType::Float]),
        HirType::Tuple(vec![HirType::Unit, HirType::Never]),
        HirType::RawPtr(Box::new(HirType::Option(Box::new(HirType::Str)))),
        HirType::Result(Box::new(HirType::Int), Box::new(HirType::Named(vec_sym))),
    ];
    let sym = mangle_type_name(&mut interner, pair, &args);
    assert_eq!(
        interner.resolve(sym),
        "Pair__Vec_bool_f64_tup_unit_never_ptr_opt_str_res_i64_Vec"
    );
    assert_eq!(type_to_short_string(&HirType::Error, &interner), "tyDiscriminant(6)");
    let mut table = MangleTable::new();
    assert!(table.is_empty());
    table.mangle(pair, &args, &mut interner);
    table.mangle(pair, &args, &mut interner);
    assert_eq!(table.len(), 1);
}

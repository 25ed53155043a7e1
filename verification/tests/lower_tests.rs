use glyim::lower::canonicalize_type_name;
use glyim::types::HirType;

#[test]
fn integer_names_are_int() {
    for name in ["i8", "i16", "i32", "i64", "Int", "u8", "u16", "u32", "u64", "usize"] {
        assert_eq!(canonicalize_type_name(name), Some(HirType::Int), "{}", name);
    }
}

#[test]
fn float_and_bool_names() {
    for name in ["f32", "f64", "Float"] {
        assert_eq!(canonicalize_type_name(name), Some(HirType::Float));
    }
    assert_eq!(canonicalize_type_name("bool"), Some(HirType::Bool));
    assert_eq!(canonicalize_type_name("Bool"), Some(HirType::Bool));
}

#[test]
fn other_names_are_not_canonical() {
    for name in ["", "str", "i128", "Vec", "int", "isize"] {
        assert_eq!(canonicalize_type_name(name), None, "{}", name);
    }
}

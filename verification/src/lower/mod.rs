pub mod context;
pub mod desugar;
pub mod item;

use vstd::prelude::*;
use crate::symbol::str_equal;
use crate::types::HirType;

verus! {

/// The canonical type that a well-known type name stands for: every integer type is
/// `Int`, every float type `Float`, and `bool` or `Bool` is `Bool`.
pub open spec fn canonical_type(name: Seq<char>) -> Option<HirType> {
    if name == "i8"@ || name == "i16"@ || name == "i32"@ || name == "i64"@ || name == "Int"@
        || name == "u8"@ || name == "u16"@ || name == "u32"@ || name == "u64"@ || name == "usize"@ {
        Some(HirType::Int)
    } else if name == "f32"@ || name == "f64"@ || name == "Float"@ {
        Some(HirType::Float)
    } else if name == "bool"@ || name == "Bool"@ {
        Some(HirType::Bool)
    } else {
        None
    }
}

/// Maps a well-known type name to its canonical type; see `canonical_type`.
pub fn canonicalize_type_name(name: &str) -> (r: Option<HirType>)
    ensures
        r == canonical_type(name@),
{
    if str_equal(name, "i8") || str_equal(name, "i16") || str_equal(name, "i32") || str_equal(name, "i64")
        || str_equal(name, "Int") || str_equal(name, "u8") || str_equal(name, "u16") || str_equal(name, "u32")
        || str_equal(name, "u64") || str_equal(name, "usize") {
        Some(HirType::Int)
    } else if str_equal(name, "f32") || str_equal(name, "f64") || str_equal(name, "Float") {
        Some(HirType::Float)
    } else if str_equal(name, "bool") || str_equal(name, "Bool") {
        Some(HirType::Bool)
    } else {
        None
    }
}

} // verus!

use vstd::prelude::*;
use crate::item::Hir;
use crate::types::HirType;

verus! {

/// The outcome of monomorphization: the concrete program and the type of each of its
/// expressions, by id.
pub struct MonoResult {
    pub hir: Hir,
    pub expr_types: Vec<HirType>,
}

} // verus!

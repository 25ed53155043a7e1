use vstd::prelude::*;
use crate::item::{HirVariant, StructField};
use crate::node::HirFn;
use crate::symbol::Symbol;
use crate::types::HirType;

verus! {

/// What the declaration table records of a struct.
pub struct StructInfo {
    pub fields: Vec<StructField>,
    /// Each field's position, by name.
    pub field_map: Vec<(Symbol, usize)>,
    pub type_params: Vec<Symbol>,
    pub is_pub: bool,
}

/// What the declaration table records of an enum.
pub struct EnumInfo {
    pub variants: Vec<HirVariant>,
    /// Each variant's position, by name.
    pub variant_map: Vec<(Symbol, usize)>,
    pub type_params: Vec<Symbol>,
    pub is_pub: bool,
}

/// What the declaration table records of a function's signature.
pub struct FnSigInfo {
    pub type_params: Vec<Symbol>,
    pub params: Vec<(Symbol, HirType, bool)>,
    pub ret: Option<HirType>,
    pub is_pub: bool,
}

/// The top-level declarations of a program, by name, known before bodies are lowered.
pub struct DeclTable {
    pub structs: Vec<(Symbol, StructInfo)>,
    pub enums: Vec<(Symbol, EnumInfo)>,
    pub functions: Vec<(Symbol, FnSigInfo)>,
    pub impl_methods: Vec<(Symbol, Vec<HirFn>)>,
}

impl DeclTable {
    /// A struct named `name` is declared.
    pub open spec fn declares_struct(&self, name: Symbol) -> bool {
        exists|i: int| 0 <= i < self.structs@.len() && #[trigger] self.structs@[i].0 == name
    }

    /// Whether a struct named `name` is declared.
    pub fn has_struct(&self, name: Symbol) -> (r: bool)
        ensures
            r == self.declares_struct(name),
    {
        let mut i: usize = 0;
        while i < self.structs.len()
            invariant
                0 <= i <= self.structs@.len(),
                forall|j: int| 0 <= j < i ==> self.structs@[j].0 != name,
            decreases self.structs@.len() - i,
        {
            if self.structs[i].0 == name {
                return true;
            }
            i = i + 1;
        }
        false
    }
}

} // verus!

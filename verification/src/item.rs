use vstd::prelude::*;
use crate::node::HirFn;
use crate::symbol::Symbol;
use crate::types::{HirType, Span};

verus! {

/// A function signature: parameter types and return type.
#[derive(Clone, Debug, PartialEq)]
pub struct FnSig {
    pub params: Vec<HirType>,
    pub ret: HirType,
}

/// A field of a struct or of an enum variant.
#[derive(Clone, Debug, PartialEq)]
pub struct StructField {
    pub name: Symbol,
    pub ty: HirType,
    pub doc: Option<String>,
}

/// A struct definition.
#[derive(Clone, Debug, PartialEq)]
pub struct StructDef {
    pub doc: Option<String>,
    pub name: Symbol,
    pub type_params: Vec<Symbol>,
    pub fields: Vec<StructField>,
    pub span: Span,
    pub is_pub: bool,
}

/// A variant of an enum.
#[derive(Clone, Debug, PartialEq)]
pub struct HirVariant {
    pub name: Symbol,
    pub fields: Vec<StructField>,
    pub tag: u32,
    pub doc: Option<String>,
}

/// An enum definition.
#[derive(Clone, Debug, PartialEq)]
pub struct EnumDef {
    pub doc: Option<String>,
    pub name: Symbol,
    pub type_params: Vec<Symbol>,
    pub variants: Vec<HirVariant>,
    pub span: Span,
    pub is_pub: bool,
}

/// An `impl` block: methods attached to a type.
#[derive(Debug, PartialEq)]
pub struct HirImplDef {
    pub doc: Option<String>,
    pub target_name: Symbol,
    pub type_params: Vec<Symbol>,
    pub methods: Vec<HirFn>,
    pub span: Span,
    pub is_pub: bool,
}

/// A function declared in an `extern` block.
#[derive(Clone, Debug, PartialEq)]
pub struct ExternFn {
    pub name: Symbol,
    pub params: Vec<HirType>,
    pub ret: HirType,
}

/// An `extern` block.
#[derive(Clone, Debug, PartialEq)]
pub struct ExternBlock {
    pub doc: Option<String>,
    pub functions: Vec<ExternFn>,
    pub span: Span,
}

/// A top-level item.
#[derive(Debug, PartialEq)]
pub enum HirItem {
    Fn(HirFn),
    Struct(StructDef),
    Enum(EnumDef),
    Impl(HirImplDef),
    Extern(ExternBlock),
}

/// A whole program: its items in source order.
#[derive(Debug, PartialEq)]
pub struct Hir {
    pub items: Vec<HirItem>,
}

} // verus!

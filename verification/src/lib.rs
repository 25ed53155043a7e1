pub mod assoc;
pub mod dependency_names;
pub mod effects;
pub mod egraph;
pub mod fmt;
pub mod certificate;
pub mod debug_text;
pub mod decl_table;
pub mod index;
pub mod item;
pub mod lower;
pub mod monomorphize;
pub mod node;
pub mod normal_order;
pub mod normalize;
pub mod passes;
pub mod remap_symbols;
pub mod semantic_hash;
pub mod symbol;
pub mod types;

pub use lower::desugar::desugar_method_calls;

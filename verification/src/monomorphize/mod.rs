pub mod call_args;
pub mod concretize;
pub mod context;
pub mod discover;
pub mod index;
pub mod mangle_table;
pub mod mangling;
pub mod pattern;
pub mod specialize;
pub mod work;

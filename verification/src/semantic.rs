//! Semantic analysis support: typed expressions, types and the symbol table.

pub mod ast;
pub mod scoping;
pub mod symbols;
pub mod types;

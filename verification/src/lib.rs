//! Front end for OpenQASM 3: token-driven expression parsing, include
//! resolution with a unified source map, and the scope-aware symbol table.

pub mod backend;
pub mod collections;
pub mod io;
pub mod lex;
pub mod lexer;
pub mod names;
pub mod parser;
pub mod qasm;
pub mod semantic;
pub mod span;
pub mod text;
pub mod types;

//! The typed expressions that a const symbol carries.

use crate::parser::ast::BinOp;
use crate::parser::ast::UnaryOp;
use crate::semantic::symbols::SymbolId;
use crate::semantic::types::Type;
use crate::span::Span;
use vstd::prelude::*;

verus! {

/// A 64-bit floating-point value, held as its IEEE 754 bit pattern.
#[derive(Clone, Copy, Debug, PartialEq, Eq, Structural)]
pub struct FloatBits(pub u64);

/// The value of a literal in a typed expression.
#[derive(Clone, Copy, Debug, PartialEq, Eq, Structural)]
pub enum LiteralKind {
    Bit(bool),
    Bool(bool),
    Float(FloatBits),
    Int(i64),
}

/// A typed expression.
#[derive(Debug, PartialEq, Eq)]
pub struct Expr {
    pub span: Span,
    pub kind: Box<ExprKind>,
    pub ty: Type,
}

/// The form of a typed expression.
#[derive(Debug, PartialEq, Eq)]
pub enum ExprKind {
    /// An expression that could not be analysed.
    Error,
    /// A reference to a symbol.
    Ident(SymbolId),
    UnaryOp(UnaryOp, Expr),
    BinaryOp(BinOp, Expr, Expr),
    Lit(LiteralKind),
    Paren(Expr),
}

} // verus!

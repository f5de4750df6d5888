//! Tokens: what the parser reads.

use crate::span::Span;
use vstd::prelude::*;

verus! {

/// The base of an integer literal.
#[derive(Clone, Copy, Debug, PartialEq, Eq, Structural)]
pub enum Radix {
    Binary,
    Octal,
    Decimal,
    Hexadecimal,
}

impl Radix {
    /// The base as a number.
    pub open spec fn spec_value(&self) -> u32 {
        match *self {
            Radix::Binary => 2,
            Radix::Octal => 8,
            Radix::Decimal => 10,
            Radix::Hexadecimal => 16,
        }
    }

    /// The base as a number.
    #[verifier::when_used_as_spec(spec_value)]
    pub fn value(&self) -> (r: u32)
        ensures
            r == self.spec_value(),
    {
        match self {
            Radix::Binary => 2,
            Radix::Octal => 8,
            Radix::Decimal => 10,
            Radix::Hexadecimal => 16,
        }
    }
}

/// The unit of a timing literal.
#[derive(Clone, Copy, Debug, PartialEq, Eq, Structural)]
pub enum TimingLiteralKind {
    Dt,
    Ns,
    Us,
    Ms,
    S,
}

/// The kind of a literal token.
#[derive(Clone, Copy, Debug, PartialEq, Eq, Structural)]
pub enum Literal {
    Bitstring,
    Float,
    Imaginary,
    Integer(Radix),
    String,
    Timing(TimingLiteralKind),
}

/// A binary operator whose operands and result have one type.
#[derive(Clone, Copy, Debug, PartialEq, Eq, Structural)]
pub enum ClosedBinOp {
    /// `&`
    Amp,
    /// `&&`
    AmpAmp,
    /// `|`
    Bar,
    /// `||`
    BarBar,
    /// `^`
    Caret,
    /// `>>`
    GtGt,
    /// `<<`
    LtLt,
    /// `-`
    Minus,
    /// `%`
    Percent,
    /// `+`
    Plus,
    /// `/`
    Slash,
    /// `*`
    Star,
    /// `**`
    StarStar,
}

/// A comparison operator.
#[derive(Clone, Copy, Debug, PartialEq, Eq, Structural)]
pub enum ComparisonOp {
    /// `!=`
    BangEq,
    /// `==`
    EqEq,
    /// `>`
    Gt,
    /// `>=`
    GtEq,
    /// `<`
    Lt,
    /// `<=`
    LtEq,
}

/// A pair of delimiters.
#[derive(Clone, Copy, Debug, PartialEq, Eq, Structural)]
pub enum Delim {
    /// `{` and `}`
    Brace,
    /// `[` and `]`
    Bracket,
    /// `(` and `)`
    Paren,
}

/// A reserved word that is no type name.
#[derive(Clone, Copy, Debug, PartialEq, Eq, Structural)]
pub enum Keyword {
    Barrier,
    Box,
    Break,
    Cal,
    Case,
    Const,
    Continue,
    CReg,
    Ctrl,
    Def,
    DefCal,
    DefCalGrammar,
    Default,
    Delay,
    Else,
    End,
    Extern,
    False,
    For,
    Gate,
    If,
    In,
    Include,
    Input,
    Inv,
    Let,
    Mutable,
    NegCtrl,
    OpenQASM,
    Output,
    Pow,
    Pragma,
    QReg,
    Qubit,
    ReadOnly,
    Reset,
    Return,
    Switch,
    True,
    Void,
    While,
}

/// The name of a built-in classical type.
#[derive(Clone, Copy, Debug, PartialEq, Eq, Structural)]
pub enum TypeName {
    Angle,
    Array,
    Bit,
    Bool,
    Complex,
    Duration,
    Float,
    Int,
    Stretch,
    UInt,
}

/// The kind of a token.
#[derive(Clone, Copy, Debug, PartialEq, Eq, Structural)]
pub enum TokenKind {
    /// `@`
    At,
    /// `->`
    Arrow,
    /// `!`
    Bang,
    /// An operator followed by `=`
    BinOpEq(ClosedBinOp),
    Close(Delim),
    ClosedBinOp(ClosedBinOp),
    /// `:`
    Colon,
    /// `,`
    Comma,
    ComparisonOp(ComparisonOp),
    /// `.`
    Dot,
    /// The end of the input.
    Eof,
    /// `=`
    Eq,
    /// A character that starts no token.
    Unknown,
    /// `$` followed by a number
    HardwareQubit,
    Identifier,
    Keyword(Keyword),
    Literal(Literal),
    /// `measure`
    Measure,
    Open(Delim),
    /// `++`
    PlusPlus,
    /// `;`
    Semicolon,
    /// `~`
    Tilde,
    Type(TypeName),
}

/// A token: its kind and the bytes of the source that it covers.
#[derive(Clone, Copy, Debug, PartialEq, Eq, Structural)]
pub struct Token {
    pub kind: TokenKind,
    pub span: Span,
}

} // verus!

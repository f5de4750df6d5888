//! The errors of the parser.

use crate::lex::TokenKind;
use crate::span::Span;
use vstd::prelude::*;

verus! {

/// What went wrong, and where.
#[derive(Debug, PartialEq, Eq)]
pub enum ErrorKind {
    /// A literal of the named kind does not have the form of one.
    Lit(&'static str, Span),
    /// A string holds a backslash followed by this character, which is no
    /// escape.
    Escape(char, Span),
    /// The first token was expected, the second one found.
    Token(TokenKind, TokenKind, Span),
    /// The named rule was expected, this token found.
    Rule(&'static str, TokenKind, Span),
    /// The first form was expected, the second one found.
    Convert(&'static str, &'static str, Span),
    /// An entry is missing between two separators of a list.
    MissingSeqEntry(Span),
    /// A source could not be read; the message says why.
    IO(String),
}

/// An error of the parser: what went wrong, and a hint for the reader
/// where there is one.
#[derive(Debug, PartialEq, Eq)]
pub struct Error(pub ErrorKind, pub Option<String>);

impl ErrorKind {
    /// The kind with its span moved forward by `offset` bytes.
    pub open spec fn shifted(self, offset: u32) -> ErrorKind {
        match self {
            ErrorKind::Lit(what, span) => ErrorKind::Lit(what, span.shifted(offset)),
            ErrorKind::Escape(ch, span) => ErrorKind::Escape(ch, span.shifted(offset)),
            ErrorKind::Token(expected, found, span) => ErrorKind::Token(
                expected,
                found,
                span.shifted(offset),
            ),
            ErrorKind::Rule(what, found, span) => ErrorKind::Rule(what, found, span.shifted(offset)),
            ErrorKind::Convert(expected, found, span) => ErrorKind::Convert(
                expected,
                found,
                span.shifted(offset),
            ),
            ErrorKind::MissingSeqEntry(span) => ErrorKind::MissingSeqEntry(span.shifted(offset)),
            ErrorKind::IO(message) => ErrorKind::IO(message),
        }
    }

    /// The span of the error, if it has one.
    pub open spec fn span(self) -> Option<Span> {
        match self {
            ErrorKind::Lit(_, span) => Some(span),
            ErrorKind::Escape(_, span) => Some(span),
            ErrorKind::Token(_, _, span) => Some(span),
            ErrorKind::Rule(_, _, span) => Some(span),
            ErrorKind::Convert(_, _, span) => Some(span),
            ErrorKind::MissingSeqEntry(span) => Some(span),
            ErrorKind::IO(_) => None,
        }
    }
}

impl Error {
    /// An error of the given kind, without a hint.
    pub fn new(kind: ErrorKind) -> (r: Error)
        ensures
            r == Error(kind, None),
    {
        Error(kind, None)
    }

    /// The error with the hint `help`.
    pub fn with_help(self, help: String) -> (r: Error)
        ensures
            r == Error(self.0, Some(help)),
    {
        Error(self.0, Some(help))
    }

    /// The error moved forward by `offset` bytes.
    pub open spec fn shifted(self, offset: u32) -> Error {
        Error(self.0.shifted(offset), self.1)
    }

    /// The error with its span moved forward by `offset` bytes; offsets
    /// wrap at 32 bits.
    pub fn with_offset(self, offset: u32) -> (r: Error)
        ensures
            r == self.shifted(offset),
    {
        let help = self.1;
        let kind = match self.0 {
            ErrorKind::Lit(what, span) => ErrorKind::Lit(what, span.with_offset(offset)),
            ErrorKind::Escape(ch, span) => ErrorKind::Escape(ch, span.with_offset(offset)),
            ErrorKind::Token(expected, found, span) => ErrorKind::Token(
                expected,
                found,
                span.with_offset(offset),
            ),
            ErrorKind::Rule(what, found, span) => ErrorKind::Rule(
                what,
                found,
                span.with_offset(offset),
            ),
            ErrorKind::Convert(expected, found, span) => ErrorKind::Convert(
                expected,
                found,
                span.with_offset(offset),
            ),
            ErrorKind::MissingSeqEntry(span) => ErrorKind::MissingSeqEntry(span.with_offset(offset)),
            ErrorKind::IO(message) => ErrorKind::IO(message),
        };
        Error(kind, help)
    }
}

impl Clone for Error {
    fn clone(&self) -> (r: Error)
        ensures
            r == *self,
    {
        let help = match &self.1 {
            Some(help) => Some(help.clone()),
            None => None,
        };
        let kind = match &self.0 {
            ErrorKind::Lit(what, span) => ErrorKind::Lit(*what, *span),
            ErrorKind::Escape(ch, span) => ErrorKind::Escape(*ch, *span),
            ErrorKind::Token(expected, found, span) => ErrorKind::Token(*expected, *found, *span),
            ErrorKind::Rule(what, found, span) => ErrorKind::Rule(*what, *found, *span),
            ErrorKind::Convert(expected, found, span) => ErrorKind::Convert(
                *expected,
                *found,
                *span,
            ),
            ErrorKind::MissingSeqEntry(span) => ErrorKind::MissingSeqEntry(*span),
            ErrorKind::IO(message) => ErrorKind::IO(message.clone()),
        };
        Error(kind, help)
    }
}

} // verus!

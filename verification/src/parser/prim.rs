//! The rules that every other rule is made of.

use crate::lex::TokenKind;
use crate::parser::ast::Ident;
use crate::parser::error::Error;
use crate::parser::error::ErrorKind;
use crate::parser::grammar::g_ident;
use crate::parser::grammar::g_recovering_token;
use crate::parser::grammar::g_token;
use crate::parser::scan::ParserContext;
use vstd::prelude::*;

verus! {

/// The view of what a rule gave.
pub open spec fn rv<T: View>(r: Result<T, Error>) -> Result<T::V, Error> {
    match r {
        Ok(x) => Ok(x@),
        Err(e) => Err(e),
    }
}

/// The view of what a rule gave that may be absent.
pub open spec fn rv_opt<T: View>(r: Result<Option<T>, Error>) -> Result<Option<T::V>, Error> {
    match r {
        Ok(Some(x)) => Ok(Some(x@)),
        Ok(None) => Ok(None),
        Err(e) => Err(e),
    }
}

/// A rule ran: the cursor reads the same input, and stands at or after
/// where it stood.
pub open spec fn ran(before: ParserContext, after: ParserContext) -> bool {
    &&& after.wf()
    &&& after.input() == before.input()
    &&& before.input().follows(before.state(), after.state())
}

/// Moves past a token of the kind `t`, or fails in place.
pub fn token(s: &mut ParserContext, t: TokenKind) -> (r: Result<(), Error>)
    requires
        old(s).wf(),
    ensures
        ran(*old(s), *final(s)),
        (final(s).state(), r) == g_token(old(s).input(), old(s).state(), t),
{
    let peek = s.peek();
    if peek.kind == t {
        s.advance();
        Ok(())
    } else {
        Err(Error::new(ErrorKind::Token(t, peek.kind, peek.span)))
    }
}

/// Moves past a token of the kind `t`; where it is missing, records the
/// error and goes on in place.
pub fn recovering_token(s: &mut ParserContext, t: TokenKind)
    requires
        old(s).wf(),
    ensures
        ran(*old(s), *final(s)),
        final(s).state() == g_recovering_token(old(s).input(), old(s).state(), t),
{
    match token(s, t) {
        Ok(()) => {},
        Err(e) => {
            s.push_error(e);
        },
    }
}

/// An identifier.
pub fn ident(s: &mut ParserContext) -> (r: Result<Ident, Error>)
    requires
        old(s).wf(),
    ensures
        ran(*old(s), *final(s)),
        (final(s).state(), rv(r)) == g_ident(old(s).input(), old(s).state()),
        r is Ok ==> old(s).state().pos < final(s).state().pos,
{
    let peek = s.peek();
    if peek.kind == TokenKind::Identifier {
        let name = s.read().to_owned();
        s.advance();
        Ok(Ident { span: peek.span, name })
    } else {
        Err(Error::new(ErrorKind::Rule("identifier", peek.kind, peek.span)))
    }
}

/// Whether the cursor has moved to a token that starts later than `from`.
pub fn has_advanced(s: &ParserContext, from: u32) -> (r: bool)
    requires
        s.wf(),
    ensures
        r == (s.input().peek(s.state()).span.lo > from),
{
    s.peek().span.lo > from
}

} // verus!

//! The cursor over the tokens of one source.

use crate::lex::Token;
use crate::lex::TokenKind;
use crate::lexer::lex_texts;
use crate::lexer::lex_tokens;
use crate::lexer::tokenize;
use crate::parser::error::Error;
use crate::span::Span;
use crate::text::byte_len;
use vstd::prelude::*;

verus! {

/// The characters of each of the strings.
pub open spec fn texts(v: Seq<String>) -> Seq<Seq<char>> {
    Seq::new(v.len(), |i: int| v[i]@)
}

/// What a cursor reads: the tokens of a source, each with its text.
pub struct Input {
    pub tokens: Seq<Token>,
    pub lexemes: Seq<Seq<char>>,
}

/// Where a cursor stands: the index of the token it looks at, the end of
/// the last token it went past, and the errors recorded so far.
pub struct State {
    pub pos: int,
    pub offset: u32,
    pub errors: Seq<Error>,
}

impl Input {
    /// Every token has its text, the last token is the end of the input,
    /// and the bytes of each token lie below 4 GiB.
    pub open spec fn wf(self) -> bool {
        &&& self.tokens.len() == self.lexemes.len()
        &&& self.tokens.len() >= 1
        &&& self.tokens.last().kind == TokenKind::Eof
        &&& forall|i: int|
            0 <= i < self.tokens.len() ==> (#[trigger] self.tokens[i]).span.lo + byte_len(
                self.lexemes[i],
            ) <= u32::MAX
    }

    /// The token that the cursor looks at.
    pub open spec fn peek(self, st: State) -> Token {
        self.tokens[st.pos]
    }

    /// The text of the token that the cursor looks at.
    pub open spec fn read(self, st: State) -> Seq<char> {
        self.lexemes[st.pos]
    }

    /// The cursor moved past the token it looks at; it stays at the end
    /// of the input.
    pub open spec fn advance(self, st: State) -> State {
        if self.peek(st).kind != TokenKind::Eof {
            State { pos: st.pos + 1, offset: self.peek(st).span.hi, errors: st.errors }
        } else {
            st
        }
    }

    /// The number of tokens from the cursor on.
    pub open spec fn rest(self, st: State) -> nat {
        if 0 <= st.pos <= self.tokens.len() {
            (self.tokens.len() - st.pos) as nat
        } else {
            0
        }
    }

    /// Whether `to` is a state of this input that lies at or after `from`.
    pub open spec fn follows(self, from: State, to: State) -> bool {
        from.pos <= to.pos < self.tokens.len()
    }
}

impl State {
    /// Whether the cursor looks at a token of `inp`.
    pub open spec fn valid(self, inp: Input) -> bool {
        0 <= self.pos < inp.tokens.len()
    }

    /// The span from `lo` to the end of the last token passed.
    pub open spec fn span(self, lo: u32) -> Span {
        Span { lo, hi: self.offset }
    }

    /// The state with `e` recorded.
    pub open spec fn push(self, e: Error) -> State {
        State { pos: self.pos, offset: self.offset, errors: self.errors.push(e) }
    }
}

/// A cursor over the tokens of one source. It records the errors from
/// which the parser recovers.
pub struct ParserContext {
    tokens: Vec<Token>,
    lexemes: Vec<String>,
    pos: usize,
    offset: u32,
    errors: Vec<Error>,
}

impl ParserContext {
    /// What the cursor reads.
    pub closed spec fn input(self) -> Input {
        Input { tokens: self.tokens@, lexemes: texts(self.lexemes@) }
    }

    /// Where the cursor stands.
    pub closed spec fn state(self) -> State {
        State { pos: self.pos as int, offset: self.offset, errors: self.errors@ }
    }

    /// The cursor looks at a token of a well-formed input.
    pub open spec fn wf(self) -> bool {
        self.input().wf() && self.state().valid(self.input())
    }

    /// A cursor at the start of the given tokens, each with its text;
    /// `None` unless there is a text for every token, the last token is
    /// the end of the input, and the bytes of each token lie below 4 GiB.
    pub fn from_tokens(tokens: Vec<Token>, lexemes: Vec<String>) -> (r: Option<ParserContext>)
        ensures
            match r {
                Some(s) => {
                    &&& s.wf()
                    &&& s.input().tokens == tokens@
                    &&& s.input().lexemes == texts(lexemes@)
                    &&& s.state() == (State { pos: 0, offset: 0, errors: Seq::empty() })
                },
                None => !(Input { tokens: tokens@, lexemes: texts(lexemes@) }).wf(),
            },
    {
        let ghost inp = Input { tokens: tokens@, lexemes: texts(lexemes@) };
        let n = tokens.len();
        if n != lexemes.len() || n == 0 {
            return None;
        }
        if tokens[n - 1].kind != TokenKind::Eof {
            return None;
        }
        let mut i: usize = 0;
        while i < n
            invariant
                i <= n,
                n == tokens@.len(),
                n == lexemes@.len(),
                inp == (Input { tokens: tokens@, lexemes: texts(lexemes@) }),
                forall|j: int|
                    0 <= j < i ==> (#[trigger] inp.tokens[j]).span.lo + byte_len(inp.lexemes[j])
                        <= u32::MAX,
            decreases n - i,
        {
            let len = lexemes[i].as_str().as_bytes().len();
            if len > u32::MAX as usize || tokens[i].span.lo > u32::MAX - (len as u32) {
                assert(!(inp.tokens[i as int].span.lo + byte_len(inp.lexemes[i as int])
                    <= u32::MAX));
                return None;
            }
            i += 1;
        }
        Some(ParserContext { tokens, lexemes, pos: 0, offset: 0, errors: Vec::new() })
    }

    /// A cursor at the start of the tokens of `input`.
    pub fn new(input: &str) -> (r: ParserContext)
        requires
            byte_len(input@) <= u32::MAX,
        ensures
            r.wf(),
            r.input() == (Input {
                tokens: lex_tokens(input@, 0),
                lexemes: lex_texts(input@, 0),
            }),
            r.state() == (State { pos: 0, offset: 0, errors: Seq::empty() }),
    {
        let (tokens, lexemes) = tokenize(input);
        ParserContext { tokens, lexemes, pos: 0, offset: 0, errors: Vec::new() }
    }

    /// The token that the cursor looks at.
    pub fn peek(&self) -> (r: Token)
        requires
            self.wf(),
        ensures
            r == self.input().peek(self.state()),
    {
        self.tokens[self.pos]
    }

    /// The text of the token that the cursor looks at.
    pub fn read(&self) -> (r: &str)
        requires
            self.wf(),
        ensures
            r@ == self.input().read(self.state()),
            self.input().peek(self.state()).span.lo + byte_len(r@) <= u32::MAX,
    {
        self.lexemes[self.pos].as_str()
    }

    /// The span from `from` to the end of the last token passed.
    pub fn span(&self, from: u32) -> (r: Span)
        ensures
            r == self.state().span(from),
    {
        Span { lo: from, hi: self.offset }
    }

    /// Moves past the token that the cursor looks at, unless it is the
    /// end of the input.
    pub fn advance(&mut self)
        requires
            old(self).wf(),
        ensures
            final(self).wf(),
            final(self).input() == old(self).input(),
            final(self).state() == old(self).input().advance(old(self).state()),
    {
        let n = self.tokens.len();
        if self.tokens[self.pos].kind != TokenKind::Eof {
            self.offset = self.tokens[self.pos].span.hi;
            self.pos += 1;
        }
    }

    /// Records an error.
    pub fn push_error(&mut self, error: Error)
        ensures
            final(self).input() == old(self).input(),
            final(self).state() == old(self).state().push(error),
    {
        self.errors.push(error);
    }

    /// The errors recorded.
    pub fn into_errors(self) -> (r: Vec<Error>)
        ensures
            r@ == self.state().errors,
    {
        self.errors
    }
}

} // verus!

//! The parser of a whole source: an optional declaration of the version,
//! then statements up to the end of the input.

use crate::lex::Keyword;
use crate::lex::Literal;
use crate::lex::TokenKind;
use crate::parser::ast::stmt_views;
use crate::parser::ast::ConstantDeclStmt;
use crate::parser::ast::ConstantDeclStmtView;
use crate::parser::ast::IdentView;
use crate::parser::ast::IncludeStmt;
use crate::parser::ast::IncludeStmtView;
use crate::parser::ast::Program;
use crate::parser::ast::ScalarTypeView;
use crate::parser::ast::ProgramView;
use crate::parser::ast::Stmt;
use crate::parser::ast::StmtKind;
use crate::parser::ast::StmtKindView;
use crate::parser::ast::StmtView;
use crate::parser::ast::ValueExprView;
use crate::parser::ast::Version;
use crate::parser::error::Error;
use crate::parser::error::ErrorKind;
use crate::parser::expr::const_declaration_expr;
use crate::parser::expr::expr;
use crate::parser::expr::opt_scalar_type;
use crate::parser::expr::version;
use crate::parser::grammar::g_const_declaration_expr;
use crate::parser::grammar::g_expr;
use crate::parser::grammar::g_ident;
use crate::parser::grammar::g_opt_scalar_type;
use crate::parser::grammar::g_recovering_token;
use crate::parser::grammar::g_scalar_type;
use crate::parser::grammar::g_token;
use crate::parser::grammar::g_version;
use crate::parser::grammar::Parsed;
use crate::parser::lit::shorten_spec;
use crate::parser::precedence::moved;
use crate::parser::precedence::name_at;
use crate::parser::prim::ident;
use crate::parser::prim::ran;
use crate::parser::prim::recovering_token;
use crate::parser::prim::rv;
use crate::parser::prim::token;
use crate::parser::scan::Input;
use crate::parser::scan::ParserContext;
use crate::parser::scan::State;
use crate::span::Span;
use crate::text::chars_of;
use crate::text::string_of;
use vstd::prelude::*;

verus! {

/// The declaration of the version: `OPENQASM`, a version and a
/// semicolon. Where the version is missing or malformed, the error is
/// recorded and there is no version.
pub open spec fn g_version_decl(inp: Input, st: State) -> (State, Option<Version>) {
    if inp.peek(st).kind == TokenKind::Keyword(Keyword::OpenQASM) {
        let next = inp.advance(st);
        match g_version(inp, next) {
            (after, Ok(Some(v))) => (g_recovering_token(inp, after, TokenKind::Semicolon), Some(v)),
            (after, Ok(None)) => (
                after.push(
                    Error(ErrorKind::Rule("version", inp.peek(after).kind, inp.peek(after).span), None),
                ),
                None,
            ),
            (after, Err(e)) => (after.push(e), None),
        }
    } else {
        (st, None)
    }
}

/// The declaration of a constant, with the cursor at `const`: an
/// optional scalar type, the name, `=`, the value, and a semicolon. The
/// value is an expression or an array literal, no measurement.
pub open spec fn g_const_decl(inp: Input, st: State) -> Parsed<StmtView> {
    let lo = inp.peek(st).span.lo;
    match g_opt_scalar_type(inp, inp.advance(st)) {
        (after, Err(e)) => (after, Err(e)),
        (after, Ok(ty)) => match g_ident(inp, after) {
            (after, Err(e)) => (after, Err(e)),
            (after, Ok(identifier)) => match g_token(inp, after, TokenKind::Eq) {
                (after, Err(e)) => (after, Err(e)),
                (after, Ok(_)) => match g_const_declaration_expr(inp, after) {
                    (after, Err(e)) => (after, Err(e)),
                    (after, Ok(init_expr)) => {
                        let end = g_recovering_token(inp, after, TokenKind::Semicolon);
                        (
                            end,
                            Ok(
                                StmtView {
                                    span: end.span(lo),
                                    kind: StmtKindView::ConstDecl(
                                        ConstantDeclStmtView {
                                            span: end.span(lo),
                                            ty,
                                            identifier,
                                            init_expr,
                                        },
                                    ),
                                },
                            ),
                        )
                    },
                },
            },
        },
    }
}

/// A statement: the inclusion of a source, `include`, a string and a
/// semicolon; the declaration of a constant; or an expression and a
/// semicolon.
pub open spec fn g_stmt(inp: Input, st: State) -> Parsed<StmtView> {
    let lo = inp.peek(st).span.lo;
    if inp.peek(st).kind == TokenKind::Keyword(Keyword::Const) {
        g_const_decl(inp, st)
    } else if inp.peek(st).kind == TokenKind::Keyword(Keyword::Include) {
        let next = inp.advance(st);
        let peek = inp.peek(next);
        if peek.kind == TokenKind::Literal(Literal::String) {
            let filename = shorten_spec(inp.read(next));
            let end = g_recovering_token(inp, inp.advance(next), TokenKind::Semicolon);
            (
                end,
                Ok(
                    StmtView {
                        span: end.span(lo),
                        kind: StmtKindView::Include(IncludeStmtView { span: end.span(lo), filename }),
                    },
                ),
            )
        } else {
            (next, Err(Error(ErrorKind::Rule("string literal", peek.kind, peek.span), None)))
        }
    } else {
        match g_expr(inp, st) {
            (after, Err(e)) => (after, Err(e)),
            (after, Ok(e)) => {
                let end = g_recovering_token(inp, after, TokenKind::Semicolon);
                (end, Ok(StmtView { span: end.span(lo), kind: StmtKindView::ExprStmt(e) }))
            },
        }
    }
}

/// The declaration `const name = value;`, without a type: where a
/// value follows `=` and a semicolon follows the value, the statement is
/// the declaration of `name` with that value, from `const` to the
/// semicolon, and no error is added.
pub proof fn lemma_const_declaration(inp: Input, st: State, after: State, value: ValueExprView)
    requires
        inp.wf(),
        st.valid(inp),
        inp.tokens[st.pos].kind == TokenKind::Keyword(Keyword::Const),
        inp.tokens[st.pos + 1].kind == TokenKind::Identifier,
        inp.tokens[st.pos + 2].kind == TokenKind::Eq,
        g_const_declaration_expr(inp, moved(inp, st, 3)) == (
            after,
            Ok::<ValueExprView, Error>(value),
        ),
        after.valid(inp),
        inp.peek(after).kind == TokenKind::Semicolon,
    ensures
        ({
            let span = Span { lo: inp.peek(st).span.lo, hi: inp.peek(after).span.hi };
            g_stmt(inp, st) == (
                inp.advance(after),
                Ok::<StmtView, Error>(
                    StmtView {
                        span,
                        kind: StmtKindView::ConstDecl(
                            ConstantDeclStmtView {
                                span,
                                ty: None,
                                identifier: name_at(inp, st, 1),
                                init_expr: value,
                            },
                        ),
                    },
                ),
            )
        }),
        inp.advance(after).errors == after.errors,
{
    let s1 = moved(inp, st, 1);
    let s2 = moved(inp, st, 2);
    assert(inp.advance(st) == s1);
    // an identifier starts no type
    assert(g_scalar_type(inp, s1).0 == s1 && g_scalar_type(inp, s1).1 is Err);
    assert(g_opt_scalar_type(inp, s1) == (s1, Ok::<Option<ScalarTypeView>, Error>(None)));
    assert(g_ident(inp, s1) == (s2, Ok::<IdentView, Error>(name_at(inp, st, 1))));
    assert(inp.advance(s2) == moved(inp, st, 3));
}

/// The cursor after the rest of a statement that could not be parsed:
/// past the next semicolon, or at the end of the input.
pub open spec fn g_skip_stmt(inp: Input, st: State) -> State
    decreases inp.rest(st),
    when inp.wf() && st.valid(inp)
{
    let kind = inp.peek(st).kind;
    if kind == TokenKind::Eof {
        st
    } else if kind == TokenKind::Semicolon {
        inp.advance(st)
    } else {
        g_skip_stmt(inp, inp.advance(st))
    }
}

/// The statements up to the end of the input, after the statements
/// `acc`. The error of a statement that cannot be parsed is recorded, and
/// the tokens up to the next semicolon stand as an unparsed statement.
pub open spec fn g_stmts(inp: Input, st: State, acc: Seq<StmtView>) -> (State, Seq<StmtView>)
    decreases inp.rest(st),
    when inp.wf() && st.valid(inp)
{
    if inp.peek(st).kind == TokenKind::Eof {
        (st, acc)
    } else {
        let lo = inp.peek(st).span.lo;
        match g_stmt(inp, st) {
            (after, Ok(stmt)) => if st.pos < after.pos < inp.tokens.len() {
                g_stmts(inp, after, acc.push(stmt))
            } else {
                arbitrary()
            },
            (after, Err(e)) => if inp.follows(st, after) {
                let end = g_skip_stmt(inp, after.push(e));
                if st.pos < end.pos < inp.tokens.len() {
                    g_stmts(
                        inp,
                        end,
                        acc.push(StmtView { span: end.span(lo), kind: StmtKindView::Unparsed }),
                    )
                } else {
                    arbitrary()
                }
            } else {
                arbitrary()
            },
        }
    }
}

/// A whole source.
pub open spec fn g_program(inp: Input, st: State) -> (State, ProgramView) {
    let lo = inp.peek(st).span.lo;
    let (after, version) = g_version_decl(inp, st);
    let (end, statements) = g_stmts(inp, after, Seq::empty());
    (end, ProgramView { span: end.span(lo), statements, version })
}

/// The declaration of the version, if the source starts with one.
fn version_decl(s: &mut ParserContext) -> (r: Option<Version>)
    requires
        old(s).wf(),
    ensures
        ran(*old(s), *final(s)),
        (final(s).state(), r) == g_version_decl(old(s).input(), old(s).state()),
{
    if s.peek().kind == TokenKind::Keyword(Keyword::OpenQASM) {
        s.advance();
        match version(s) {
            Ok(Some(v)) => {
                recovering_token(s, TokenKind::Semicolon);
                Some(v)
            },
            Ok(None) => {
                let peek = s.peek();
                s.push_error(Error::new(ErrorKind::Rule("version", peek.kind, peek.span)));
                None
            },
            Err(e) => {
                s.push_error(e);
                None
            },
        }
    } else {
        None
    }
}

/// The declaration of a constant, with the cursor at `const`.
fn const_decl(s: &mut ParserContext) -> (r: Result<Stmt, Error>)
    requires
        old(s).wf(),
        old(s).input().peek(old(s).state()).kind == TokenKind::Keyword(Keyword::Const),
    ensures
        ran(*old(s), *final(s)),
        (final(s).state(), rv(r)) == g_const_decl(old(s).input(), old(s).state()),
        old(s).state().pos < final(s).state().pos,
{
    let lo = s.peek().span.lo;
    s.advance();
    let ty = opt_scalar_type(s)?;
    let identifier = ident(s)?;
    token(s, TokenKind::Eq)?;
    let init_expr = const_declaration_expr(s)?;
    recovering_token(s, TokenKind::Semicolon);
    let span = s.span(lo);
    Ok(
        Stmt {
            span,
            kind: Box::new(StmtKind::ConstDecl(ConstantDeclStmt { span, ty, identifier, init_expr })),
        },
    )
}

/// A statement.
pub fn stmt(s: &mut ParserContext) -> (r: Result<Stmt, Error>)
    requires
        old(s).wf(),
    ensures
        ran(*old(s), *final(s)),
        (final(s).state(), rv(r)) == g_stmt(old(s).input(), old(s).state()),
        r is Ok ==> old(s).state().pos < final(s).state().pos,
{
    let lo = s.peek().span.lo;
    if s.peek().kind == TokenKind::Keyword(Keyword::Const) {
        const_decl(s)
    } else if s.peek().kind == TokenKind::Keyword(Keyword::Include) {
        s.advance();
        let peek = s.peek();
        if peek.kind == TokenKind::Literal(Literal::String) {
            let chars = chars_of(s.read());
            let n = chars.len();
            let (from, to) = if n >= 2 {
                (1usize, n - 1)
            } else {
                (0usize, 0usize)
            };
            proof {
                assert(chars@.subrange(from as int, to as int) =~= shorten_spec(chars@));
            }
            let filename = string_of(&chars, from, to);
            s.advance();
            recovering_token(s, TokenKind::Semicolon);
            Ok(
                Stmt {
                    span: s.span(lo),
                    kind: Box::new(StmtKind::Include(IncludeStmt { span: s.span(lo), filename })),
                },
            )
        } else {
            Err(Error::new(ErrorKind::Rule("string literal", peek.kind, peek.span)))
        }
    } else {
        match expr(s) {
            Err(e) => Err(e),
            Ok(e) => {
                recovering_token(s, TokenKind::Semicolon);
                Ok(Stmt { span: s.span(lo), kind: Box::new(StmtKind::ExprStmt(e)) })
            },
        }
    }
}

/// Moves past the rest of a statement that could not be parsed.
fn skip_stmt(s: &mut ParserContext)
    requires
        old(s).wf(),
    ensures
        ran(*old(s), *final(s)),
        final(s).state() == g_skip_stmt(old(s).input(), old(s).state()),
        old(s).input().peek(old(s).state()).kind != TokenKind::Eof ==> old(s).state().pos
            < final(s).state().pos,
    decreases old(s).input().rest(old(s).state()),
{
    let kind = s.peek().kind;
    if kind == TokenKind::Eof {
    } else if kind == TokenKind::Semicolon {
        s.advance();
    } else {
        s.advance();
        skip_stmt(s);
    }
}

/// The statements up to the end of the input, after the statements
/// `done`.
fn stmts(s: &mut ParserContext, done: Vec<Stmt>) -> (r: Vec<Stmt>)
    requires
        old(s).wf(),
    ensures
        ran(*old(s), *final(s)),
        (final(s).state(), stmt_views(r@)) == g_stmts(
            old(s).input(),
            old(s).state(),
            stmt_views(done@),
        ),
    decreases old(s).input().rest(old(s).state()),
{
    let mut list = done;
    if s.peek().kind == TokenKind::Eof {
        return list;
    }
    let lo = s.peek().span.lo;
    match stmt(s) {
        Ok(x) => {
            proof {
                assert(list@.push(x).drop_last() =~= list@);
            }
            list.push(x);
        },
        Err(e) => {
            s.push_error(e);
            skip_stmt(s);
            let x = Stmt { span: s.span(lo), kind: Box::new(StmtKind::Unparsed) };
            proof {
                assert(list@.push(x).drop_last() =~= list@);
            }
            list.push(x);
        },
    }
    stmts(s, list)
}

/// A whole source: an optional declaration of the version, then
/// statements up to the end of the input. Errors are recorded in the
/// cursor.
pub fn parse(s: &mut ParserContext) -> (r: Program)
    requires
        old(s).wf(),
    ensures
        ran(*old(s), *final(s)),
        (final(s).state(), r@) == g_program(old(s).input(), old(s).state()),
{
    let lo = s.peek().span.lo;
    let version = version_decl(s);
    let statements = stmts(s, Vec::new());
    Program { span: s.span(lo), statements, version }
}

} // verus!

//! The grammar of expressions, as functions from the state of a cursor to
//! the state after a rule and what the rule gave.
//!
//! A rule never moves the cursor backwards. The functions say nothing of
//! what would follow if one did; the parser shows of every rule that it
//! gives what its function says, so that this never happens.
//!
//! Operators bind by precedence, from `||` (1) up to `**` (12); the
//! prefix operators have precedence 11; a call and an index are operators
//! of precedence 13 that stand after their operand.

use crate::lex::ClosedBinOp;
use crate::lex::ComparisonOp;
use crate::lex::Delim;
use crate::lex::Keyword;
use crate::lex::TokenKind;
use crate::lex::TypeName;
use crate::parser::ast::BinOp;
use crate::parser::ast::ArrayTypeView;
use crate::parser::ast::CastView;
use crate::parser::ast::DiscreteSetView;
use crate::parser::ast::ExprKindView;
use crate::parser::ast::ExprView;
use crate::parser::ast::GateOperandKindView;
use crate::parser::ast::GateOperandView;
use crate::parser::ast::HardwareQubitView;
use crate::parser::ast::IndexedIdentView;
use crate::parser::ast::MeasureExprView;
use crate::parser::ast::ValueExprView;
use crate::parser::ast::Version;
use crate::parser::lit::version_token_spec;
use crate::parser::ast::FunctionCallView;
use crate::parser::ast::IdentView;
use crate::parser::ast::IndexElementView;
use crate::parser::ast::IndexExprView;
use crate::parser::ast::IndexSetItemView;
use crate::parser::ast::IndexSetView;
use crate::parser::ast::LitView;
use crate::parser::ast::LiteralKindView;
use crate::parser::ast::RangeDefinitionView;
use crate::parser::ast::ScalarTypeKindView;
use crate::parser::ast::ScalarTypeView;
use crate::parser::ast::TypeDefView;
use crate::parser::ast::UnaryOp;
use crate::parser::error::Error;
use crate::parser::error::ErrorKind;
use crate::parser::lit::lit_token_spec;
use crate::parser::scan::Input;
use crate::parser::scan::State;
use crate::span::Span;
use vstd::prelude::*;

verus! {

/// The state after a rule, with what the rule gave.
pub type Parsed<T> = (State, Result<T, Error>);

/// How operators of one precedence group.
#[derive(Clone, Copy, Debug, PartialEq, Eq, Structural)]
pub enum Assoc {
    Left,
    Right,
}

/// What an operator between or after operands does.
#[derive(Clone, Copy, Debug, PartialEq, Eq, Structural)]
pub enum OpKind {
    Binary(BinOp, Assoc),
    Funcall,
    Index,
}

/// The name of an operator: a token or a keyword.
#[derive(Clone, Copy, Debug, PartialEq, Eq, Structural)]
pub enum OpName {
    Token(TokenKind),
    Keyword(Keyword),
}

/// An operator that stands before its operand.
#[derive(Clone, Copy, Debug, PartialEq, Eq, Structural)]
pub struct PrefixOp {
    pub kind: UnaryOp,
    pub precedence: u8,
}

/// An operator that stands between or after operands.
#[derive(Clone, Copy, Debug, PartialEq, Eq, Structural)]
pub struct InfixOp {
    pub kind: OpKind,
    pub precedence: u8,
}

/// Whether the last item of a list is followed by a separator.
#[derive(Clone, Copy, Debug, PartialEq, Eq, Structural)]
pub enum FinalSep {
    Present,
    Missing,
}

/// The name of the operator that a token of this kind is.
pub open spec fn op_name_spec(kind: TokenKind) -> OpName {
    match kind {
        TokenKind::Keyword(keyword) => OpName::Keyword(keyword),
        kind => OpName::Token(kind),
    }
}

/// The least precedence that the right operand of an operator may have:
/// one more than that of a left-associative operator, that of a
/// right-associative one.
pub open spec fn next_precedence_spec(precedence: u8, assoc: Assoc) -> u8 {
    match assoc {
        Assoc::Left => (precedence + 1) as u8,
        Assoc::Right => precedence,
    }
}

/// The prefix operator of a name: `!`, `~` and `-`, all of precedence 11.
pub open spec fn prefix_op_spec(name: OpName) -> Option<PrefixOp> {
    match name {
        OpName::Token(TokenKind::Bang) => Some(PrefixOp { kind: UnaryOp::NotL, precedence: 11 }),
        OpName::Token(TokenKind::Tilde) => Some(PrefixOp { kind: UnaryOp::NotB, precedence: 11 }),
        OpName::Token(TokenKind::ClosedBinOp(ClosedBinOp::Minus)) => Some(
            PrefixOp { kind: UnaryOp::Neg, precedence: 11 },
        ),
        _ => None,
    }
}

/// A left-associative binary operator.
pub open spec fn left_assoc(op: BinOp, precedence: u8) -> Option<InfixOp> {
    Some(InfixOp { kind: OpKind::Binary(op, Assoc::Left), precedence })
}

/// The infix operator of a name, with its precedence.
pub open spec fn infix_op_spec(name: OpName) -> Option<InfixOp> {
    match name {
        OpName::Token(TokenKind::ClosedBinOp(token)) => match token {
            ClosedBinOp::StarStar => Some(
                InfixOp { kind: OpKind::Binary(BinOp::Exp, Assoc::Right), precedence: 12 },
            ),
            ClosedBinOp::Star => left_assoc(BinOp::Mul, 10),
            ClosedBinOp::Slash => left_assoc(BinOp::Div, 10),
            ClosedBinOp::Percent => left_assoc(BinOp::Mod, 10),
            ClosedBinOp::Minus => left_assoc(BinOp::Sub, 9),
            ClosedBinOp::Plus => left_assoc(BinOp::Add, 9),
            ClosedBinOp::LtLt => left_assoc(BinOp::Shl, 8),
            ClosedBinOp::GtGt => left_assoc(BinOp::Shr, 8),
            ClosedBinOp::Amp => left_assoc(BinOp::AndB, 5),
            ClosedBinOp::Bar => left_assoc(BinOp::OrB, 4),
            ClosedBinOp::Caret => left_assoc(BinOp::XorB, 3),
            ClosedBinOp::AmpAmp => left_assoc(BinOp::AndL, 2),
            ClosedBinOp::BarBar => left_assoc(BinOp::OrL, 1),
        },
        OpName::Token(TokenKind::ComparisonOp(token)) => match token {
            ComparisonOp::Gt => left_assoc(BinOp::Gt, 7),
            ComparisonOp::GtEq => left_assoc(BinOp::Gte, 7),
            ComparisonOp::Lt => left_assoc(BinOp::Lt, 7),
            ComparisonOp::LtEq => left_assoc(BinOp::Lte, 7),
            ComparisonOp::BangEq => left_assoc(BinOp::Neq, 6),
            ComparisonOp::EqEq => left_assoc(BinOp::Eq, 6),
        },
        OpName::Token(TokenKind::Open(Delim::Paren)) => Some(
            InfixOp { kind: OpKind::Funcall, precedence: 13 },
        ),
        OpName::Token(TokenKind::Open(Delim::Bracket)) => Some(
            InfixOp { kind: OpKind::Index, precedence: 13 },
        ),
        _ => None,
    }
}

/// The binary operator that a token stands for.
pub open spec fn closed_bin_op_spec(op: ClosedBinOp) -> BinOp {
    match op {
        ClosedBinOp::Amp => BinOp::AndB,
        ClosedBinOp::AmpAmp => BinOp::AndL,
        ClosedBinOp::Bar => BinOp::OrB,
        ClosedBinOp::StarStar => BinOp::Exp,
        ClosedBinOp::Caret => BinOp::XorB,
        ClosedBinOp::GtGt => BinOp::Shr,
        ClosedBinOp::LtLt => BinOp::Shl,
        ClosedBinOp::Minus => BinOp::Sub,
        ClosedBinOp::BarBar => BinOp::OrL,
        ClosedBinOp::Percent => BinOp::Mod,
        ClosedBinOp::Plus => BinOp::Add,
        ClosedBinOp::Slash => BinOp::Div,
        ClosedBinOp::Star => BinOp::Mul,
    }
}

/// Whether the cursor has moved to a token that starts later.
pub open spec fn advanced(inp: Input, from: State, to: State) -> bool {
    inp.peek(to).span.lo > inp.peek(from).span.lo
}

/// A token of the kind `t`: the cursor moves past it, or fails in place.
pub open spec fn g_token(inp: Input, st: State, t: TokenKind) -> Parsed<()> {
    if inp.peek(st).kind == t {
        (inp.advance(st), Ok(()))
    } else {
        (st, Err(Error(ErrorKind::Token(t, inp.peek(st).kind, inp.peek(st).span), None)))
    }
}

/// A token of the kind `t`; where it is missing, an error is recorded and
/// the cursor stays.
pub open spec fn g_recovering_token(inp: Input, st: State, t: TokenKind) -> State {
    match g_token(inp, st, t) {
        (after, Ok(_)) => after,
        (after, Err(e)) => after.push(e),
    }
}

/// An identifier.
pub open spec fn g_ident(inp: Input, st: State) -> Parsed<IdentView> {
    let peek = inp.peek(st);
    if peek.kind == TokenKind::Identifier {
        (inp.advance(st), Ok(IdentView { span: peek.span, name: inp.read(st) }))
    } else {
        (st, Err(Error(ErrorKind::Rule("identifier", peek.kind, peek.span), None)))
    }
}

/// A literal, if the cursor looks at one. The cursor moves past a literal
/// also where its text is malformed.
pub open spec fn g_lit(inp: Input, st: State) -> Parsed<Option<LitView>> {
    match lit_token_spec(inp.read(st), inp.peek(st)) {
        Ok(Some(lit)) => (inp.advance(st), Ok(Some(lit))),
        Ok(None) => (st, Ok(None)),
        Err(e) => (inp.advance(st), Err(e)),
    }
}

/// The place of a missing list entry at the start of a token.
pub open spec fn missing_span(inp: Input, st: State) -> Span {
    Span { lo: inp.peek(st).span.lo, hi: inp.peek(st).span.lo }
}

/// The commas that follow one another with nothing in between: for each,
/// an error is recorded and an entry that marks the gap is added.
pub open spec fn g_missing_exprs(inp: Input, st: State, acc: Seq<ExprView>) -> (State, Seq<ExprView>)
    decreases inp.rest(st),
    when inp.wf() && st.valid(inp)
{
    if inp.peek(st).kind == TokenKind::Comma {
        let span = missing_span(inp, st);
        g_missing_exprs(
            inp,
            inp.advance(st.push(Error(ErrorKind::MissingSeqEntry(span), None))),
            acc.push(ExprView { span, kind: Box::new(ExprKindView::Missing) }),
        )
    } else {
        (st, acc)
    }
}

/// As `g_missing_exprs`, for the items of an index.
pub open spec fn g_missing_items(inp: Input, st: State, acc: Seq<IndexSetItemView>) -> (
    State,
    Seq<IndexSetItemView>,
)
    decreases inp.rest(st),
    when inp.wf() && st.valid(inp)
{
    if inp.peek(st).kind == TokenKind::Comma {
        let span = missing_span(inp, st);
        g_missing_items(
            inp,
            inp.advance(st.push(Error(ErrorKind::MissingSeqEntry(span), None))),
            acc.push(IndexSetItemView::Missing(span)),
        )
    } else {
        (st, acc)
    }
}

/// An expression whose operators have at least the precedence `min`.
pub open spec fn g_expr_op(inp: Input, st: State, min: u8) -> Parsed<ExprView>
    decreases inp.rest(st), 4int,
    when inp.wf() && st.valid(inp)
{
    let lo = inp.peek(st).span.lo;
    match prefix_op_spec(op_name_spec(inp.peek(st).kind)) {
        Some(op) => {
            let (after, rhs) = g_expr_op(inp, inp.advance(st), op.precedence);
            match rhs {
                Err(e) => (after, Err(e)),
                Ok(rhs) => if inp.follows(st, after) {
                    g_with_lhs(
                        inp,
                        after,
                        min,
                        ExprView {
                            span: after.span(lo),
                            kind: Box::new(ExprKindView::UnaryOp(op.kind, rhs)),
                        },
                    )
                } else {
                    arbitrary()
                },
            }
        },
        None => {
            let (after, base) = g_expr_base(inp, st);
            match base {
                Err(e) => (after, Err(e)),
                Ok(lhs) => if inp.follows(st, after) {
                    g_with_lhs(inp, after, min, lhs)
                } else {
                    arbitrary()
                },
            }
        },
    }
}

/// The operators that follow the operand `lhs`, as long as their
/// precedence is at least `min`, each with its right operand.
pub open spec fn g_with_lhs(inp: Input, st: State, min: u8, lhs: ExprView) -> Parsed<ExprView>
    decreases inp.rest(st), 0int,
    when inp.wf() && st.valid(inp)
{
    match infix_op_spec(op_name_spec(inp.peek(st).kind)) {
        None => (st, Ok(lhs)),
        Some(op) => if op.precedence < min {
            (st, Ok(lhs))
        } else {
            let lo = lhs.span.lo;
            let next = inp.advance(st);
            let (after, kind): Parsed<ExprKindView> = match op.kind {
                OpKind::Binary(kind, assoc) => {
                    let (after, rhs) = g_expr_op(
                        inp,
                        next,
                        next_precedence_spec(op.precedence, assoc),
                    );
                    match rhs {
                        Ok(rhs) => (after, Ok(ExprKindView::BinaryOp(kind, lhs, rhs))),
                        Err(e) => (after, Err(e)),
                    }
                },
                OpKind::Funcall => match *lhs.kind {
                    ExprKindView::Ident(ident) => {
                        let (after, call) = g_funcall(inp, next, ident);
                        match call {
                            Ok(call) => (after, Ok(ExprKindView::FunctionCall(call))),
                            Err(e) => (after, Err(e)),
                        }
                    },
                    _ => (next, Err(Error(ErrorKind::Convert("identifier", "", lhs.span), None))),
                },
                OpKind::Index => {
                    let (after, index) = g_index_expr(inp, next, lhs);
                    match index {
                        Ok(index) => (after, Ok(ExprKindView::IndexExpr(index))),
                        Err(e) => (after, Err(e)),
                    }
                },
            };
            match kind {
                Err(e) => (after, Err(e)),
                Ok(kind) => if inp.follows(next, after) {
                    g_with_lhs(
                        inp,
                        after,
                        min,
                        ExprView { span: after.span(lo), kind: Box::new(kind) },
                    )
                } else {
                    arbitrary()
                },
            }
        },
    }
}

/// An operand: a literal, an expression in parentheses, a cast or an
/// identifier.
pub open spec fn g_expr_base(inp: Input, st: State) -> Parsed<ExprView>
    decreases inp.rest(st), 3int,
    when inp.wf() && st.valid(inp)
{
    let lo = inp.peek(st).span.lo;
    match g_lit(inp, st) {
        (after, Err(e)) => (after, Err(e)),
        (after, Ok(Some(lit))) => (
            after,
            Ok(ExprView { span: after.span(lo), kind: Box::new(ExprKindView::Lit(lit)) }),
        ),
        (_, Ok(None)) => if inp.peek(st).kind == TokenKind::Open(Delim::Paren) {
            g_paren_expr(inp, inp.advance(st), lo)
        } else {
            match g_opt_type(inp, st) {
                (after, Err(e)) => (after, Err(e)),
                (after, Ok(Some(ty))) => if st.pos < after.pos < inp.tokens.len() {
                    let (end, cast) = g_cast_op(inp, after, ty);
                    match cast {
                        Ok(cast) => (
                            end,
                            Ok(
                                ExprView {
                                    span: end.span(lo),
                                    kind: Box::new(ExprKindView::Cast(cast)),
                                },
                            ),
                        ),
                        Err(e) => (end, Err(e)),
                    }
                } else {
                    arbitrary()
                },
                (after, Ok(None)) => match g_ident(inp, after) {
                    (end, Ok(id)) => (
                        end,
                        Ok(ExprView { span: end.span(lo), kind: Box::new(ExprKindView::Ident(id)) }),
                    ),
                    (end, Err(_)) => (
                        end,
                        Err(
                            Error(
                                ErrorKind::Rule("expression", inp.peek(end).kind, inp.peek(end).span),
                                None,
                            ),
                        ),
                    ),
                },
            }
        },
    }
}

/// What follows an opening parenthesis: one expression and the closing
/// parenthesis. A list of expressions, or one followed by a comma, is an
/// error.
pub open spec fn g_paren_expr(inp: Input, st: State, lo: u32) -> Parsed<ExprView>
    decreases inp.rest(st), 10int,
    when inp.wf() && st.valid(inp)
{
    let (after, list) = g_seq_expr(inp, st);
    match list {
        Err(e) => (after, Err(e)),
        Ok((exprs, final_sep)) => match g_token(inp, after, TokenKind::Close(Delim::Paren)) {
            (end, Err(e)) => (end, Err(e)),
            (end, Ok(_)) => if final_sep == FinalSep::Missing && exprs.len() == 1 {
                (
                    end,
                    Ok(
                        ExprView {
                            span: end.span(lo),
                            kind: Box::new(ExprKindView::Paren(exprs[0])),
                        },
                    ),
                )
            } else {
                (
                    end,
                    Err(
                        Error(
                            ErrorKind::Convert(
                                "parenthesized expression",
                                "expression list",
                                end.span(lo),
                            ),
                            None,
                        ),
                    ),
                )
            },
        },
    }
}

/// A rule that may be absent: where `g_expr_op` fails without the cursor
/// having advanced, there is no expression, and no error.
pub open spec fn g_opt_expr(inp: Input, st: State) -> Parsed<Option<ExprView>>
    decreases inp.rest(st), 5int,
    when inp.wf() && st.valid(inp)
{
    match g_expr_op(inp, st, 0) {
        (after, Ok(x)) => (after, Ok(Some(x))),
        (after, Err(e)) => if advanced(inp, st, after) {
            (after, Err(e))
        } else {
            (after, Ok(None))
        },
    }
}

/// A list of expressions that commas separate.
pub open spec fn g_seq_expr(inp: Input, st: State) -> Parsed<(Seq<ExprView>, FinalSep)>
    decreases inp.rest(st), 7int,
    when inp.wf() && st.valid(inp)
{
    let (after, acc) = g_missing_exprs(inp, st, Seq::empty());
    if inp.follows(st, after) {
        g_seq_expr_loop(inp, after, acc, FinalSep::Missing)
    } else {
        arbitrary()
    }
}

/// The rest of a list of expressions, after the entries `acc`.
pub open spec fn g_seq_expr_loop(inp: Input, st: State, acc: Seq<ExprView>, final_sep: FinalSep) -> Parsed<
    (Seq<ExprView>, FinalSep),
>
    decreases inp.rest(st), 6int,
    when inp.wf() && st.valid(inp)
{
    match g_opt_expr(inp, st) {
        (after, Err(e)) => (after, Err(e)),
        (after, Ok(None)) => (after, Ok((acc, final_sep))),
        (after, Ok(Some(x))) => match g_token(inp, after, TokenKind::Comma) {
            (next, Ok(_)) => {
                let (end, acc) = g_missing_exprs(inp, next, acc.push(x));
                if st.pos < end.pos < inp.tokens.len() {
                    g_seq_expr_loop(inp, end, acc, FinalSep::Present)
                } else {
                    arbitrary()
                }
            },
            (_, Err(_)) => (after, Ok((acc.push(x), FinalSep::Missing))),
        },
    }
}

/// The arguments of a call and the closing parenthesis.
pub open spec fn g_funcall(inp: Input, st: State, ident: IdentView) -> Parsed<FunctionCallView>
    decreases inp.rest(st), 10int,
    when inp.wf() && st.valid(inp)
{
    let (after, list) = g_seq_expr(inp, st);
    match list {
        Err(e) => (after, Err(e)),
        Ok((args, _)) => match g_token(inp, after, TokenKind::Close(Delim::Paren)) {
            (end, Err(e)) => (end, Err(e)),
            (end, Ok(_)) => (
                end,
                Ok(FunctionCallView { span: end.span(ident.span.lo), name: ident, args }),
            ),
        },
    }
}

/// An expression in brackets.
pub open spec fn g_designator(inp: Input, st: State) -> Parsed<ExprView>
    decreases inp.rest(st), 10int,
    when inp.wf() && st.valid(inp)
{
    match g_token(inp, st, TokenKind::Open(Delim::Bracket)) {
        (after, Err(e)) => (after, Err(e)),
        (after, Ok(_)) => if inp.follows(st, after) {
            match g_expr_op(inp, after, 0) {
                (end, Err(e)) => (end, Err(e)),
                (end, Ok(expr)) => (
                    g_recovering_token(inp, end, TokenKind::Close(Delim::Bracket)),
                    Ok(expr),
                ),
            }
        } else {
            arbitrary()
        },
    }
}

/// The width of a type, if one is given in brackets.
pub open spec fn g_opt_width(inp: Input, st: State) -> Parsed<Option<ExprView>>
    decreases inp.rest(st), 11int,
    when inp.wf() && st.valid(inp)
{
    if inp.peek(st).kind == TokenKind::Open(Delim::Bracket) {
        match g_designator(inp, st) {
            (after, Ok(width)) => (after, Ok(Some(width))),
            (after, Err(e)) => (after, Err(e)),
        }
    } else {
        (st, Ok(None))
    }
}

/// A scalar type: the name of a type and, for those that have one, an
/// optional width in brackets. The width of `complex` is that of a
/// `float` named in its brackets.
pub open spec fn g_scalar_type(inp: Input, st: State) -> Parsed<ScalarTypeView>
    decreases inp.rest(st), 0int,
    when inp.wf() && st.valid(inp)
{
    let peek = inp.peek(st);
    let lo = peek.span.lo;
    let next = inp.advance(st);
    match peek.kind {
        TokenKind::Type(TypeName::Bool) => (
            next,
            Ok(ScalarTypeView { span: next.span(lo), kind: ScalarTypeKindView::BoolType }),
        ),
        TokenKind::Type(TypeName::Duration) => (
            next,
            Ok(ScalarTypeView { span: next.span(lo), kind: ScalarTypeKindView::Duration }),
        ),
        TokenKind::Type(TypeName::Stretch) => (
            next,
            Ok(ScalarTypeView { span: next.span(lo), kind: ScalarTypeKindView::Stretch }),
        ),
        TokenKind::Type(TypeName::Complex) => if inp.peek(next).kind == TokenKind::Open(
            Delim::Bracket,
        ) {
            let inner = inp.advance(next);
            match g_token(inp, inner, TokenKind::Type(TypeName::Float)) {
                (after, Err(e)) => (after, Err(e)),
                (after, Ok(_)) => if inp.follows(inner, after) && st.pos < inner.pos {
                    match g_opt_width(inp, after) {
                        (end, Err(e)) => (end, Err(e)),
                        (end, Ok(width)) => {
                            let end = g_recovering_token(
                                inp,
                                end,
                                TokenKind::Close(Delim::Bracket),
                            );
                            (
                                end,
                                Ok(
                                    ScalarTypeView {
                                        span: end.span(lo),
                                        kind: ScalarTypeKindView::Complex(width),
                                    },
                                ),
                            )
                        },
                    }
                } else {
                    arbitrary()
                },
            }
        } else {
            (
                next,
                Ok(ScalarTypeView { span: next.span(lo), kind: ScalarTypeKindView::Complex(None) }),
            )
        },
        TokenKind::Type(name) => if name == TypeName::Array {
            (st, Err(Error(ErrorKind::Rule("scalar type", peek.kind, peek.span), None)))
        } else {
            match g_opt_width(inp, next) {
                (end, Err(e)) => (end, Err(e)),
                (end, Ok(width)) => (
                    end,
                    Ok(
                        ScalarTypeView {
                            span: end.span(lo),
                            kind: match name {
                                TypeName::Bit => ScalarTypeKindView::Bit(width),
                                TypeName::Int => ScalarTypeKindView::Int(width),
                                TypeName::UInt => ScalarTypeKindView::UInt(width),
                                TypeName::Float => ScalarTypeKindView::Float(width),
                                _ => ScalarTypeKindView::Angle(width),
                            },
                        },
                    ),
                ),
            }
        },
        _ => (st, Err(Error(ErrorKind::Rule("scalar type", peek.kind, peek.span), None))),
    }
}

/// A scalar type, if there is one: where `g_scalar_type` fails without the
/// cursor having advanced, there is no type, and no error.
pub open spec fn g_opt_scalar_type(inp: Input, st: State) -> Parsed<Option<ScalarTypeView>>
    decreases inp.rest(st), 2int,
    when inp.wf() && st.valid(inp)
{
    match g_scalar_type(inp, st) {
        (after, Ok(x)) => (after, Ok(Some(x))),
        (after, Err(e)) => if advanced(inp, st, after) {
            (after, Err(e))
        } else {
            (after, Ok(None))
        },
    }
}

/// Whether an array can have entries of the type that the token names.
pub open spec fn is_array_base(kind: TokenKind) -> bool {
    match kind {
        TokenKind::Type(name) => name != TypeName::Array && name != TypeName::Bit && name
            != TypeName::Stretch,
        _ => false,
    }
}

/// The type of an array: `array`, and in brackets the type of the
/// entries, a comma and the dimensions. The entries are of a scalar type
/// other than `bit` and `stretch`.
pub open spec fn g_array_type(inp: Input, st: State) -> Parsed<ArrayTypeView>
    decreases inp.rest(st), 0int,
    when inp.wf() && st.valid(inp)
{
    let lo = inp.peek(st).span.lo;
    match g_token(inp, st, TokenKind::Type(TypeName::Array)) {
        (s1, Err(e)) => (s1, Err(e)),
        (s1, Ok(_)) => match g_token(inp, s1, TokenKind::Open(Delim::Bracket)) {
            (s2, Err(e)) => (s2, Err(e)),
            (s2, Ok(_)) => if st.pos < s2.pos < inp.tokens.len() {
                if is_array_base(inp.peek(s2).kind) {
                    match g_scalar_type(inp, s2) {
                        (s3, Err(_)) => (
                            s3,
                            Err(
                                Error(
                                    ErrorKind::Rule(
                                        "array type",
                                        inp.peek(s3).kind,
                                        inp.peek(s3).span,
                                    ),
                                    None,
                                ),
                            ),
                        ),
                        (s3, Ok(base_type)) => match g_token(inp, s3, TokenKind::Comma) {
                            (s4, Err(e)) => (s4, Err(e)),
                            (s4, Ok(_)) => if st.pos < s4.pos < inp.tokens.len() {
                                match g_seq_expr(inp, s4) {
                                    (s5, Err(e)) => (s5, Err(e)),
                                    (s5, Ok((dimensions, _))) => match g_token(
                                        inp,
                                        s5,
                                        TokenKind::Close(Delim::Bracket),
                                    ) {
                                        (end, Err(e)) => (end, Err(e)),
                                        (end, Ok(_)) => (
                                            end,
                                            Ok(
                                                ArrayTypeView {
                                                    span: end.span(lo),
                                                    base_type,
                                                    dimensions,
                                                },
                                            ),
                                        ),
                                    },
                                }
                            } else {
                                arbitrary()
                            },
                        },
                    }
                } else {
                    (
                        s2,
                        Err(
                            Error(
                                ErrorKind::Rule("array type", inp.peek(s2).kind, inp.peek(s2).span),
                                None,
                            ),
                        ),
                    )
                }
            } else {
                arbitrary()
            },
        },
    }
}

/// A type: a scalar type, or else the type of an array. Where neither
/// is there, the error names the token at which the cursor stands.
pub open spec fn g_scalar_or_array_type(inp: Input, st: State) -> Parsed<TypeDefView>
    decreases inp.rest(st), 1int,
    when inp.wf() && st.valid(inp)
{
    match g_scalar_type(inp, st) {
        (after, Ok(ty)) => (after, Ok(TypeDefView::Scalar(ty))),
        (after, Err(_)) => if inp.follows(st, after) {
            match g_array_type(inp, after) {
                (end, Ok(ty)) => (end, Ok(TypeDefView::Array(ty))),
                (end, Err(_)) => (
                    end,
                    Err(
                        Error(
                            ErrorKind::Rule(
                                "scalar or array type",
                                inp.peek(end).kind,
                                inp.peek(end).span,
                            ),
                            None,
                        ),
                    ),
                ),
            }
        } else {
            arbitrary()
        },
    }
}

/// A type, if there is one: where `g_scalar_or_array_type` fails without
/// the cursor having advanced, there is no type, and no error.
pub open spec fn g_opt_type(inp: Input, st: State) -> Parsed<Option<TypeDefView>>
    decreases inp.rest(st), 2int,
    when inp.wf() && st.valid(inp)
{
    match g_scalar_or_array_type(inp, st) {
        (after, Ok(x)) => (after, Ok(Some(x))),
        (after, Err(e)) => if advanced(inp, st, after) {
            (after, Err(e))
        } else {
            (after, Ok(None))
        },
    }
}

/// What follows the type of a cast: the expression in parentheses.
pub open spec fn g_cast_op(inp: Input, st: State, ty: TypeDefView) -> Parsed<CastView>
    decreases inp.rest(st), 10int,
    when inp.wf() && st.valid(inp)
{
    match g_token(inp, st, TokenKind::Open(Delim::Paren)) {
        (after, Err(e)) => (after, Err(e)),
        (after, Ok(_)) => if inp.follows(st, after) {
            match g_expr_op(inp, after, 0) {
                (end, Err(e)) => (end, Err(e)),
                (end, Ok(arg)) => {
                    let end = g_recovering_token(inp, end, TokenKind::Close(Delim::Paren));
                    (end, Ok(CastView { span: end.span(ty.span().lo), ty, arg }))
                },
            }
        } else {
            arbitrary()
        },
    }
}

/// What follows the opening bracket of an index: the index and the
/// closing bracket.
pub open spec fn g_index_expr(inp: Input, st: State, lhs: ExprView) -> Parsed<IndexExprView>
    decreases inp.rest(st), 11int,
    when inp.wf() && st.valid(inp)
{
    match g_index_element(inp, st) {
        (after, Err(e)) => (after, Err(e)),
        (after, Ok(index)) => {
            let end = g_recovering_token(inp, after, TokenKind::Close(Delim::Bracket));
            (end, Ok(IndexExprView { span: end.span(lhs.span.lo), collection: lhs, index }))
        },
    }
}

/// An index: a set of values in braces, or a list of expressions and
/// ranges.
pub open spec fn g_index_element(inp: Input, st: State) -> Parsed<IndexElementView>
    decreases inp.rest(st), 10int,
    when inp.wf() && st.valid(inp)
{
    match g_opt_set_expr(inp, st) {
        (after, Err(e)) => (after, Err(e)),
        (after, Ok(Some(set))) => (after, Ok(IndexElementView::DiscreteSet(set))),
        (after, Ok(None)) => if inp.follows(st, after) {
            let lo = inp.peek(after).span.lo;
            match g_seq_items(inp, after) {
                (end, Err(e)) => (end, Err(e)),
                (end, Ok((values, _))) => (
                    end,
                    Ok(IndexElementView::IndexSet(IndexSetView { span: end.span(lo), values })),
                ),
            }
        } else {
            arbitrary()
        },
    }
}

/// A set of values in braces.
pub open spec fn g_set_expr(inp: Input, st: State) -> Parsed<DiscreteSetView>
    decreases inp.rest(st), 7int,
    when inp.wf() && st.valid(inp)
{
    let lo = inp.peek(st).span.lo;
    match g_token(inp, st, TokenKind::Open(Delim::Brace)) {
        (after, Err(e)) => (after, Err(e)),
        (after, Ok(_)) => if st.pos < after.pos < inp.tokens.len() {
            match g_seq_expr(inp, after) {
                (end, Err(e)) => (end, Err(e)),
                (end, Ok((values, _))) => {
                    let end = g_recovering_token(inp, end, TokenKind::Close(Delim::Brace));
                    (end, Ok(DiscreteSetView { span: end.span(lo), values }))
                },
            }
        } else {
            arbitrary()
        },
    }
}

/// A set of values in braces, if there is one.
pub open spec fn g_opt_set_expr(inp: Input, st: State) -> Parsed<Option<DiscreteSetView>>
    decreases inp.rest(st), 8int,
    when inp.wf() && st.valid(inp)
{
    match g_set_expr(inp, st) {
        (after, Ok(x)) => (after, Ok(Some(x))),
        (after, Err(e)) => if advanced(inp, st, after) {
            (after, Err(e))
        } else {
            (after, Ok(None))
        },
    }
}

/// One item of an index: an expression, or a range `start : end` or
/// `start : step : end`, each part of which may be missing.
pub open spec fn g_index_set_item(inp: Input, st: State) -> Parsed<IndexSetItemView>
    decreases inp.rest(st), 6int,
    when inp.wf() && st.valid(inp)
{
    let lo = inp.peek(st).span.lo;
    match g_opt_expr(inp, st) {
        (s1, Err(e)) => (s1, Err(e)),
        (s1, Ok(start)) => match g_token(inp, s1, TokenKind::Colon) {
            (_, Err(_)) => match start {
                Some(expr) => (s1, Ok(IndexSetItemView::Expr(expr))),
                None => (
                    s1,
                    Err(Error(ErrorKind::Rule("expression", inp.peek(s1).kind, s1.span(lo)), None)),
                ),
            },
            (s2, Ok(_)) => if st.pos < s2.pos < inp.tokens.len() {
                match g_opt_expr(inp, s2) {
                    (s3, Err(e)) => (s3, Err(e)),
                    (s3, Ok(end)) => match g_token(inp, s3, TokenKind::Colon) {
                        (_, Err(_)) => (
                            s3,
                            Ok(
                                IndexSetItemView::RangeDefinition(
                                    RangeDefinitionView { span: s3.span(lo), start, end, step: None },
                                ),
                            ),
                        ),
                        (s4, Ok(_)) => if st.pos < s4.pos < inp.tokens.len() {
                            match g_opt_expr(inp, s4) {
                                (s5, Err(e)) => (s5, Err(e)),
                                (s5, Ok(last)) => (
                                    s5,
                                    Ok(
                                        IndexSetItemView::RangeDefinition(
                                            RangeDefinitionView {
                                                span: s5.span(lo),
                                                start,
                                                end: last,
                                                step: end,
                                            },
                                        ),
                                    ),
                                ),
                            }
                        } else {
                            arbitrary()
                        },
                    },
                }
            } else {
                arbitrary()
            },
        },
    }
}

/// An item of an index, if there is one.
pub open spec fn g_opt_index_set_item(inp: Input, st: State) -> Parsed<Option<IndexSetItemView>>
    decreases inp.rest(st), 7int,
    when inp.wf() && st.valid(inp)
{
    match g_index_set_item(inp, st) {
        (after, Ok(x)) => (after, Ok(Some(x))),
        (after, Err(e)) => if advanced(inp, st, after) {
            (after, Err(e))
        } else {
            (after, Ok(None))
        },
    }
}

/// A list of index items that commas separate.
pub open spec fn g_seq_items(inp: Input, st: State) -> Parsed<(Seq<IndexSetItemView>, FinalSep)>
    decreases inp.rest(st), 9int,
    when inp.wf() && st.valid(inp)
{
    let (after, acc) = g_missing_items(inp, st, Seq::empty());
    if inp.follows(st, after) {
        g_seq_items_loop(inp, after, acc, FinalSep::Missing)
    } else {
        arbitrary()
    }
}

/// The rest of a list of index items, after the entries `acc`.
pub open spec fn g_seq_items_loop(
    inp: Input,
    st: State,
    acc: Seq<IndexSetItemView>,
    final_sep: FinalSep,
) -> Parsed<(Seq<IndexSetItemView>, FinalSep)>
    decreases inp.rest(st), 8int,
    when inp.wf() && st.valid(inp)
{
    match g_opt_index_set_item(inp, st) {
        (after, Err(e)) => (after, Err(e)),
        (after, Ok(None)) => (after, Ok((acc, final_sep))),
        (after, Ok(Some(x))) => match g_token(inp, after, TokenKind::Comma) {
            (next, Ok(_)) => {
                let (end, acc) = g_missing_items(inp, next, acc.push(x));
                if st.pos < end.pos < inp.tokens.len() {
                    g_seq_items_loop(inp, end, acc, FinalSep::Present)
                } else {
                    arbitrary()
                }
            },
            (_, Err(_)) => (after, Ok((acc.push(x), FinalSep::Missing))),
        },
    }
}

/// An expression: operators of every precedence.
pub open spec fn g_expr(inp: Input, st: State) -> Parsed<ExprView> {
    g_expr_op(inp, st, 0)
}

/// A list of expressions that commas separate.
pub open spec fn g_expr_list(inp: Input, st: State) -> Parsed<Seq<ExprView>> {
    match g_seq_expr(inp, st) {
        (after, Ok(pair)) => (after, Ok(pair.0)),
        (after, Err(e)) => (after, Err(e)),
    }
}

/// A version, if the cursor looks at a number. The cursor moves past a
/// number also where it is no version.
pub open spec fn g_version(inp: Input, st: State) -> Parsed<Option<Version>> {
    match version_token_spec(inp.read(st), inp.peek(st)) {
        Ok(Some(version)) => (inp.advance(st), Ok(Some(version))),
        Ok(None) => (st, Ok(None)),
        Err(e) => (inp.advance(st), Err(e)),
    }
}

/// An array literal: a list of elements in braces.
pub open spec fn g_lit_array(inp: Input, st: State) -> Parsed<ExprView>
    decreases inp.rest(st), 11int,
    when inp.wf() && st.valid(inp)
{
    let lo = inp.peek(st).span.lo;
    match g_token(inp, st, TokenKind::Open(Delim::Brace)) {
        (after, Err(e)) => (after, Err(e)),
        (after, Ok(_)) => if st.pos < after.pos < inp.tokens.len() {
            match g_seq_elements(inp, after) {
                (end, Err(e)) => (end, Err(e)),
                (end, Ok((elements, _))) => {
                    let end = g_recovering_token(inp, end, TokenKind::Close(Delim::Brace));
                    (
                        end,
                        Ok(
                            ExprView {
                                span: end.span(lo),
                                kind: Box::new(
                                    ExprKindView::Lit(
                                        LitView {
                                            span: end.span(lo),
                                            kind: LiteralKindView::Array(elements),
                                        },
                                    ),
                                ),
                            },
                        ),
                    )
                },
            }
        } else {
            arbitrary()
        },
    }
}

/// An element of an array literal: an expression or an array literal.
pub open spec fn g_lit_array_element(inp: Input, st: State) -> Parsed<ExprView>
    decreases inp.rest(st), 12int,
    when inp.wf() && st.valid(inp)
{
    match g_opt_expr(inp, st) {
        (after, Err(e)) => (after, Err(e)),
        (after, Ok(Some(e))) => (after, Ok(e)),
        (after, Ok(None)) => if inp.follows(st, after) {
            g_lit_array(inp, after)
        } else {
            arbitrary()
        },
    }
}

/// An element of an array literal, if there is one.
pub open spec fn g_opt_lit_array_element(inp: Input, st: State) -> Parsed<Option<ExprView>>
    decreases inp.rest(st), 13int,
    when inp.wf() && st.valid(inp)
{
    match g_lit_array_element(inp, st) {
        (after, Ok(x)) => (after, Ok(Some(x))),
        (after, Err(e)) => if advanced(inp, st, after) {
            (after, Err(e))
        } else {
            (after, Ok(None))
        },
    }
}

/// A list of elements of an array literal that commas separate.
pub open spec fn g_seq_elements(inp: Input, st: State) -> Parsed<(Seq<ExprView>, FinalSep)>
    decreases inp.rest(st), 15int,
    when inp.wf() && st.valid(inp)
{
    let (after, acc) = g_missing_exprs(inp, st, Seq::empty());
    if inp.follows(st, after) {
        g_seq_elements_loop(inp, after, acc, FinalSep::Missing)
    } else {
        arbitrary()
    }
}

/// The rest of a list of elements, after the entries `acc`.
pub open spec fn g_seq_elements_loop(
    inp: Input,
    st: State,
    acc: Seq<ExprView>,
    final_sep: FinalSep,
) -> Parsed<(Seq<ExprView>, FinalSep)>
    decreases inp.rest(st), 14int,
    when inp.wf() && st.valid(inp)
{
    match g_opt_lit_array_element(inp, st) {
        (after, Err(e)) => (after, Err(e)),
        (after, Ok(None)) => (after, Ok((acc, final_sep))),
        (after, Ok(Some(x))) => match g_token(inp, after, TokenKind::Comma) {
            (next, Ok(_)) => {
                let (end, acc) = g_missing_exprs(inp, next, acc.push(x));
                if st.pos < end.pos < inp.tokens.len() {
                    g_seq_elements_loop(inp, end, acc, FinalSep::Present)
                } else {
                    arbitrary()
                }
            },
            (_, Err(_)) => (after, Ok((acc.push(x), FinalSep::Missing))),
        },
    }
}

/// The text after its first character.
pub open spec fn tail(s: Seq<char>) -> Seq<char> {
    if s.len() >= 1 {
        s.skip(1)
    } else {
        Seq::empty()
    }
}

/// A hardware qubit: its name is the text of the token after the `$`.
pub open spec fn g_hardware_qubit(inp: Input, st: State) -> Parsed<HardwareQubitView> {
    let lo = inp.peek(st).span.lo;
    match g_token(inp, st, TokenKind::HardwareQubit) {
        (after, Err(e)) => (after, Err(e)),
        (after, Ok(_)) => (
            after,
            Ok(HardwareQubitView { span: after.span(lo), name: tail(inp.read(st)) }),
        ),
    }
}

/// An index in brackets.
pub open spec fn g_index_operand(inp: Input, st: State) -> Parsed<IndexElementView> {
    match g_token(inp, st, TokenKind::Open(Delim::Bracket)) {
        (after, Err(e)) => (after, Err(e)),
        (after, Ok(_)) => match g_index_element(inp, after) {
            (end, Err(e)) => (end, Err(e)),
            (end, Ok(index)) => (
                g_recovering_token(inp, end, TokenKind::Close(Delim::Bracket)),
                Ok(index),
            ),
        },
    }
}

/// An index in brackets, if there is one.
pub open spec fn g_opt_index_operand(inp: Input, st: State) -> Parsed<Option<IndexElementView>> {
    match g_index_operand(inp, st) {
        (after, Ok(x)) => (after, Ok(Some(x))),
        (after, Err(e)) => if advanced(inp, st, after) {
            (after, Err(e))
        } else {
            (after, Ok(None))
        },
    }
}

/// Any number of indices in brackets, after the indices `acc`.
pub open spec fn g_many_index_operands(inp: Input, st: State, acc: Seq<IndexElementView>) -> Parsed<
    Seq<IndexElementView>,
>
    decreases inp.rest(st),
    when inp.wf() && st.valid(inp)
{
    match g_opt_index_operand(inp, st) {
        (after, Err(e)) => (after, Err(e)),
        (after, Ok(None)) => (after, Ok(acc)),
        (after, Ok(Some(x))) => if st.pos < after.pos < inp.tokens.len() {
            g_many_index_operands(inp, after, acc.push(x))
        } else {
            arbitrary()
        },
    }
}

/// An identifier with any number of indices.
pub open spec fn g_indexed_identifier(inp: Input, st: State) -> Parsed<IndexedIdentView> {
    let lo = inp.peek(st).span.lo;
    match g_ident(inp, st) {
        (after, Err(e)) => (after, Err(e)),
        (after, Ok(name)) => {
            let index_lo = inp.peek(after).span.lo;
            match g_many_index_operands(inp, after, Seq::empty()) {
                (end, Err(e)) => (end, Err(e)),
                (end, Ok(indices)) => (
                    end,
                    Ok(
                        IndexedIdentView {
                            span: end.span(lo),
                            index_span: if indices.len() == 0 {
                                Span { lo: 0, hi: 0 }
                            } else {
                                end.span(index_lo)
                            },
                            name,
                            indices,
                        },
                    ),
                ),
            }
        },
    }
}

/// An identifier with indices, if there is one.
pub open spec fn g_opt_indexed_identifier(inp: Input, st: State) -> Parsed<
    Option<IndexedIdentView>,
> {
    match g_indexed_identifier(inp, st) {
        (after, Ok(x)) => (after, Ok(Some(x))),
        (after, Err(e)) => if advanced(inp, st, after) {
            (after, Err(e))
        } else {
            (after, Ok(None))
        },
    }
}

/// The operand of a gate or of a measurement: an identifier with
/// indices, or a hardware qubit.
pub open spec fn g_gate_operand(inp: Input, st: State) -> Parsed<GateOperandView> {
    let lo = inp.peek(st).span.lo;
    match g_opt_indexed_identifier(inp, st) {
        (after, Err(e)) => (after, Err(e)),
        (after, Ok(Some(ident))) => (
            after,
            Ok(
                GateOperandView {
                    span: after.span(lo),
                    kind: GateOperandKindView::IndexedIdent(ident),
                },
            ),
        ),
        (after, Ok(None)) => match g_hardware_qubit(inp, after) {
            (end, Err(e)) => (end, Err(e)),
            (end, Ok(qubit)) => (
                end,
                Ok(
                    GateOperandView {
                        span: end.span(lo),
                        kind: GateOperandKindView::HardwareQubit(qubit),
                    },
                ),
            ),
        },
    }
}

/// A measurement: the word `measure` and an operand.
pub open spec fn g_measure_expr(inp: Input, st: State) -> Parsed<MeasureExprView> {
    let lo = inp.peek(st).span.lo;
    match g_token(inp, st, TokenKind::Measure) {
        (after, Err(e)) => (after, Err(e)),
        (after, Ok(_)) => match g_gate_operand(inp, after) {
            (end, Err(e)) => (end, Err(e)),
            (end, Ok(operand)) => (
                end,
                Ok(
                    MeasureExprView {
                        span: end.span(lo),
                        measure_token_span: after.span(lo),
                        operand,
                    },
                ),
            ),
        },
    }
}

/// A measurement, if there is one.
pub open spec fn g_opt_measure_expr(inp: Input, st: State) -> Parsed<Option<MeasureExprView>> {
    match g_measure_expr(inp, st) {
        (after, Ok(x)) => (after, Ok(Some(x))),
        (after, Err(e)) => if advanced(inp, st, after) {
            (after, Err(e))
        } else {
            (after, Ok(None))
        },
    }
}

/// An expression, or else an array literal.
pub open spec fn g_const_declaration_expr(inp: Input, st: State) -> Parsed<ValueExprView> {
    match g_opt_expr(inp, st) {
        (after, Err(e)) => (after, Err(e)),
        (after, Ok(Some(e))) => (after, Ok(ValueExprView::Expr(e))),
        (after, Ok(None)) => match g_lit_array(inp, after) {
            (end, Ok(e)) => (end, Ok(ValueExprView::Expr(e))),
            (end, Err(e)) => (end, Err(e)),
        },
    }
}

/// What a declaration takes as its value: a measurement, or else an
/// expression, or else an array literal.
pub open spec fn g_declaration_expr(inp: Input, st: State) -> Parsed<ValueExprView> {
    match g_opt_measure_expr(inp, st) {
        (after, Err(e)) => (after, Err(e)),
        (after, Ok(Some(m))) => (after, Ok(ValueExprView::Measurement(m))),
        (after, Ok(None)) => g_const_declaration_expr(inp, after),
    }
}

/// What an assignment or a `return` takes as its value: a measurement,
/// or else an expression.
pub open spec fn g_expr_or_measurement(inp: Input, st: State) -> Parsed<ValueExprView> {
    match g_opt_measure_expr(inp, st) {
        (after, Err(e)) => (after, Err(e)),
        (after, Ok(Some(m))) => (after, Ok(ValueExprView::Measurement(m))),
        (after, Ok(None)) => match g_expr(inp, after) {
            (end, Ok(e)) => (end, Ok(ValueExprView::Expr(e))),
            (end, Err(e)) => (end, Err(e)),
        },
    }
}

/// The expressions that follow the first of an alias, each after `++`.
pub open spec fn g_alias_rest(inp: Input, st: State, acc: Seq<ExprView>) -> Parsed<Seq<ExprView>>
    decreases inp.rest(st),
    when inp.wf() && st.valid(inp)
{
    match g_token(inp, st, TokenKind::PlusPlus) {
        (_, Err(_)) => (st, Ok(acc)),
        (after, Ok(_)) => match g_expr(inp, after) {
            (end, Err(e)) => (end, Err(e)),
            (end, Ok(e)) => if st.pos < end.pos < inp.tokens.len() {
                g_alias_rest(inp, end, acc.push(e))
            } else {
                arbitrary()
            },
        },
    }
}

/// What an alias stands for: expressions joined by `++`.
pub open spec fn g_alias_expr(inp: Input, st: State) -> Parsed<Seq<ExprView>> {
    match g_expr(inp, st) {
        (after, Err(e)) => (after, Err(e)),
        (after, Ok(e)) => g_alias_rest(inp, after, seq![e]),
    }
}

} // verus!

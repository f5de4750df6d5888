//! How operators group their operands.

use crate::lex::Delim;
use crate::lex::TokenKind;
use crate::parser::ast::BinOp;
use crate::parser::ast::ExprKindView;
use crate::parser::ast::ExprView;
use crate::parser::ast::FunctionCallView;
use crate::parser::ast::IdentView;
use crate::parser::ast::IndexExprView;
use crate::parser::ast::TypeDefView;
use crate::parser::error::Error;
use crate::parser::grammar::g_array_type;
use crate::parser::grammar::g_expr;
use crate::parser::grammar::g_expr_base;
use crate::parser::grammar::g_expr_op;
use crate::parser::grammar::g_funcall;
use crate::parser::grammar::g_index_expr;
use crate::parser::grammar::g_opt_type;
use crate::parser::grammar::g_scalar_or_array_type;
use crate::parser::grammar::g_scalar_type;
use crate::parser::grammar::g_with_lhs;
use crate::parser::grammar::infix_op_spec;
use crate::parser::grammar::next_precedence_spec;
use crate::parser::grammar::op_name_spec;
use crate::parser::grammar::Assoc;
use crate::parser::grammar::InfixOp;
use crate::parser::grammar::OpKind;
use crate::parser::scan::Input;
use crate::parser::scan::State;
use crate::span::Span;
use vstd::prelude::*;

verus! {

/// The cursor `n` tokens after `st`.
pub open spec fn moved(inp: Input, st: State, n: int) -> State {
    if n <= 0 {
        st
    } else {
        State { pos: st.pos + n, offset: inp.tokens[st.pos + n - 1].span.hi, errors: st.errors }
    }
}

/// The identifier of the token `n` tokens after `st`.
pub open spec fn name_at(inp: Input, st: State, n: int) -> IdentView {
    IdentView { span: inp.tokens[st.pos + n].span, name: inp.lexemes[st.pos + n] }
}

/// The operand that the identifier `n` tokens after `st` is.
pub open spec fn operand_at(inp: Input, st: State, n: int) -> ExprView {
    ExprView {
        span: inp.tokens[st.pos + n].span,
        kind: Box::new(ExprKindView::Ident(name_at(inp, st, n))),
    }
}

/// Whether the token `n` tokens after `st` is the binary operator `op`
/// of the given precedence and grouping.
pub open spec fn binary_at(inp: Input, st: State, n: int, op: BinOp, precedence: u8, assoc: Assoc) -> bool {
    infix_op_spec(op_name_spec(inp.tokens[st.pos + n].kind)) == Some(
        InfixOp { kind: OpKind::Binary(op, assoc), precedence },
    )
}

/// The binary expression of `op` from the start of `lhs` to the end of
/// `rhs`.
pub open spec fn binary(op: BinOp, lhs: ExprView, rhs: ExprView) -> ExprView {
    ExprView {
        span: Span { lo: lhs.span.lo, hi: rhs.span.hi },
        kind: Box::new(ExprKindView::BinaryOp(op, lhs, rhs)),
    }
}

/// An identifier is an operand, and the cursor moves past it.
pub proof fn lemma_identifier_is_an_operand(inp: Input, st: State)
    requires
        inp.wf(),
        st.valid(inp),
        inp.peek(st).kind == TokenKind::Identifier,
    ensures
        g_expr_base(inp, st) == (moved(inp, st, 1), Ok::<ExprView, Error>(operand_at(inp, st, 0))),
{
    // an identifier starts no type
    assert(g_scalar_type(inp, st).0 == st && g_scalar_type(inp, st).1 is Err);
    assert(g_array_type(inp, st).0 == st && g_array_type(inp, st).1 is Err);
    assert(g_scalar_or_array_type(inp, st).0 == st && g_scalar_or_array_type(inp, st).1 is Err);
    assert(g_opt_type(inp, st) == (st, Ok::<Option<TypeDefView>, Error>(None)));
}

/// An identifier that no operator of at least the precedence `min`
/// follows is an expression by itself.
pub proof fn lemma_operand_alone(inp: Input, st: State, min: u8)
    requires
        inp.wf(),
        st.valid(inp),
        inp.peek(st).kind == TokenKind::Identifier,
        match infix_op_spec(op_name_spec(inp.tokens[st.pos + 1].kind)) {
            Some(op) => op.precedence < min,
            None => true,
        },
    ensures
        g_expr_op(inp, st, min) == (moved(inp, st, 1), Ok::<ExprView, Error>(operand_at(inp, st, 0))),
{
    lemma_identifier_is_an_operand(inp, st);
    let next = moved(inp, st, 1);
    assert(next.valid(inp));
    assert(g_with_lhs(inp, next, min, operand_at(inp, st, 0)) == (
        next,
        Ok::<ExprView, Error>(operand_at(inp, st, 0)),
    ));
}

/// Of two binary operators between three identifiers, the second takes
/// the middle operand where its precedence is higher than that of the
/// first, or the same in a group that associates to the right; else the
/// first takes it. So `a + b * c` is `a + (b * c)`, `a ** b ** c` is
/// `a ** (b ** c)`, and `a - b - c` is `(a - b) - c`.
pub proof fn lemma_two_operators(
    inp: Input,
    st: State,
    first: BinOp,
    first_precedence: u8,
    first_assoc: Assoc,
    second: BinOp,
    second_precedence: u8,
    second_assoc: Assoc,
)
    requires
        inp.wf(),
        st.valid(inp),
        st.pos + 5 < inp.tokens.len(),
        inp.tokens[st.pos].kind == TokenKind::Identifier,
        binary_at(inp, st, 1, first, first_precedence, first_assoc),
        inp.tokens[st.pos + 2].kind == TokenKind::Identifier,
        binary_at(inp, st, 3, second, second_precedence, second_assoc),
        inp.tokens[st.pos + 4].kind == TokenKind::Identifier,
        infix_op_spec(op_name_spec(inp.tokens[st.pos + 5].kind)) is None,
    ensures
        g_expr(inp, st) == (
            moved(inp, st, 5),
            Ok::<ExprView, Error>(
                if second_precedence > first_precedence || (second_precedence == first_precedence && first_assoc == Assoc::Right) {
                    binary(
                        first,
                        operand_at(inp, st, 0),
                        binary(second, operand_at(inp, st, 2), operand_at(inp, st, 4)),
                    )
                } else {
                    binary(
                        second,
                        binary(first, operand_at(inp, st, 0), operand_at(inp, st, 2)),
                        operand_at(inp, st, 4),
                    )
                },
            ),
        ),
{
    let s1 = moved(inp, st, 1);
    let s2 = moved(inp, st, 2);
    let s3 = moved(inp, st, 3);
    let s4 = moved(inp, st, 4);
    let s5 = moved(inp, st, 5);
    let a = operand_at(inp, st, 0);
    let b = operand_at(inp, st, 2);
    let c = operand_at(inp, st, 4);
    let first_min = next_precedence_spec(first_precedence, first_assoc);
    let second_min = next_precedence_spec(second_precedence, second_assoc);
    assert(first_precedence <= 12 && second_precedence <= 12);
    lemma_identifier_is_an_operand(inp, st);
    assert(inp.advance(s1) == s2);
    assert(inp.advance(s3) == s4);
    // the last operand
    lemma_operand_alone(inp, s4, second_min);
    assert(moved(inp, s4, 1) == s5);
    assert(operand_at(inp, s4, 0) == c);
    if second_precedence > first_precedence || (second_precedence == first_precedence && first_assoc == Assoc::Right) {
        assert(second_precedence >= first_min);
        let bc = binary(second, b, c);
        lemma_identifier_is_an_operand(inp, s2);
        assert(moved(inp, s2, 1) == s3);
        assert(operand_at(inp, s2, 0) == b);
        assert(g_with_lhs(inp, s5, first_min, bc) == (s5, Ok::<ExprView, Error>(bc)));
        assert(g_with_lhs(inp, s3, first_min, b) == (s5, Ok::<ExprView, Error>(bc)));
        assert(g_expr_op(inp, s2, first_min) == (s5, Ok::<ExprView, Error>(bc)));
        let abc = binary(first, a, bc);
        assert(g_with_lhs(inp, s5, 0, abc) == (s5, Ok::<ExprView, Error>(abc)));
        assert(g_with_lhs(inp, s1, 0, a) == (s5, Ok::<ExprView, Error>(abc)));
    } else {
        assert(second_precedence < first_min);
        let ab = binary(first, a, b);
        lemma_operand_alone(inp, s2, first_min);
        assert(moved(inp, s2, 1) == s3);
        assert(operand_at(inp, s2, 0) == b);
        let abc = binary(second, ab, c);
        assert(g_with_lhs(inp, s5, 0, abc) == (s5, Ok::<ExprView, Error>(abc)));
        assert(g_with_lhs(inp, s3, 0, ab) == (s5, Ok::<ExprView, Error>(abc)));
        assert(g_with_lhs(inp, s1, 0, a) == (s5, Ok::<ExprView, Error>(abc)));
    }
}

/// An index after a call applies to the call: where the arguments of
/// `f` end at `(`...`)` and an index in brackets follows, the expression
/// is the index, and what it indexes is the call of `f`.
pub proof fn lemma_index_applies_to_call(
    inp: Input,
    st: State,
    min: u8,
    called: State,
    call: FunctionCallView,
    end: State,
    index: IndexExprView,
)
    requires
        inp.wf(),
        st.valid(inp),
        min <= 13,
        inp.tokens[st.pos].kind == TokenKind::Identifier,
        inp.tokens[st.pos + 1].kind == TokenKind::Open(Delim::Paren),
        g_funcall(inp, moved(inp, st, 2), name_at(inp, st, 0)) == (
            called,
            Ok::<FunctionCallView, Error>(call),
        ),
        inp.follows(moved(inp, st, 2), called),
        inp.peek(called).kind == TokenKind::Open(Delim::Bracket),
        g_index_expr(
            inp,
            inp.advance(called),
            ExprView {
                span: called.span(inp.peek(st).span.lo),
                kind: Box::new(ExprKindView::FunctionCall(call)),
            },
        ) == (end, Ok::<IndexExprView, Error>(index)),
        inp.follows(inp.advance(called), end),
        infix_op_spec(op_name_spec(inp.peek(end).kind)) is None,
    ensures
        g_expr_op(inp, st, min) == (
            end,
            Ok::<ExprView, Error>(
                ExprView {
                    span: end.span(inp.peek(st).span.lo),
                    kind: Box::new(ExprKindView::IndexExpr(index)),
                },
            ),
        ),
        *index.collection.kind == ExprKindView::FunctionCall(call),
        call.name == name_at(inp, st, 0),
{
    let lo = inp.peek(st).span.lo;
    let s1 = moved(inp, st, 1);
    let s2 = moved(inp, st, 2);
    lemma_identifier_is_an_operand(inp, st);
    assert(inp.advance(s1) == s2);
    let f = ExprView { span: called.span(lo), kind: Box::new(ExprKindView::FunctionCall(call)) };
    let whole = ExprView { span: end.span(lo), kind: Box::new(ExprKindView::IndexExpr(index)) };
    assert(g_with_lhs(inp, end, min, whole) == (end, Ok::<ExprView, Error>(whole)));
    assert(g_with_lhs(inp, called, min, f) == (end, Ok::<ExprView, Error>(whole)));
    assert(g_with_lhs(inp, s1, min, operand_at(inp, st, 0)) == (
        end,
        Ok::<ExprView, Error>(whole),
    ));
}

} // verus!

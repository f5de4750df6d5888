//! The parser of expressions: operators bind by precedence, and a call
//! and an index are operators that stand after their operand.

use crate::lex::ClosedBinOp;
use crate::lex::ComparisonOp;
use crate::lex::Delim;
use crate::lex::Keyword;
use crate::lex::TokenKind;
use crate::lex::TypeName;
use crate::parser::ast::element_views;
use crate::parser::ast::expr_views;
use crate::parser::ast::GateOperand;
use crate::parser::ast::GateOperandKind;
use crate::parser::ast::HardwareQubit;
use crate::parser::ast::IndexedIdent;
use crate::parser::ast::IndexElementView;
use crate::parser::ast::LiteralKind;
use crate::parser::ast::MeasureExpr;
use crate::parser::ast::ValueExpr;
use crate::parser::grammar::g_alias_expr;
use crate::parser::grammar::g_alias_rest;
use crate::parser::grammar::g_const_declaration_expr;
use crate::parser::grammar::g_declaration_expr;
use crate::parser::grammar::g_expr_list;
use crate::parser::grammar::g_expr_or_measurement;
use crate::parser::grammar::g_gate_operand;
use crate::parser::grammar::g_hardware_qubit;
use crate::parser::grammar::g_index_operand;
use crate::parser::grammar::g_indexed_identifier;
use crate::parser::grammar::g_lit_array;
use crate::parser::grammar::g_lit_array_element;
use crate::parser::grammar::g_many_index_operands;
use crate::parser::grammar::g_measure_expr;
use crate::parser::grammar::g_opt_index_operand;
use crate::parser::grammar::g_opt_indexed_identifier;
use crate::parser::grammar::g_opt_lit_array_element;
use crate::parser::grammar::g_opt_measure_expr;
use crate::parser::grammar::g_seq_elements;
use crate::parser::grammar::g_seq_elements_loop;
use crate::parser::grammar::g_version;
use crate::parser::lit::version_token;
use crate::text::chars_of;
use crate::text::string_of;
use crate::parser::ast::item_views;
use crate::parser::ast::BinOp;
use crate::parser::ast::ArrayType;
use crate::parser::ast::Cast;
use crate::parser::ast::TypeDef;
use crate::parser::ast::DiscreteSet;
use crate::parser::ast::Expr;
use crate::parser::ast::ExprKind;
use crate::parser::ast::ExprView;
use crate::parser::ast::FunctionCall;
use crate::parser::ast::Ident;
use crate::parser::ast::IndexElement;
use crate::parser::ast::IndexExpr;
use crate::parser::ast::IndexSet;
use crate::parser::ast::IndexSetItem;
use crate::parser::ast::IndexSetItemView;
use crate::parser::ast::Lit;
use crate::parser::ast::RangeDefinition;
use crate::parser::ast::ScalarType;
use crate::parser::ast::ScalarTypeKind;
use crate::parser::ast::UnaryOp;
use crate::parser::ast::Version;
use crate::parser::error::Error;
use crate::parser::error::ErrorKind;
use crate::parser::grammar::closed_bin_op_spec;
use crate::parser::grammar::g_array_type;
use crate::parser::grammar::g_cast_op;
use crate::parser::grammar::g_designator;
use crate::parser::grammar::g_expr;
use crate::parser::grammar::g_expr_base;
use crate::parser::grammar::g_expr_op;
use crate::parser::grammar::g_funcall;
use crate::parser::grammar::g_index_element;
use crate::parser::grammar::g_index_expr;
use crate::parser::grammar::g_index_set_item;
use crate::parser::grammar::g_lit;
use crate::parser::grammar::g_missing_exprs;
use crate::parser::grammar::g_missing_items;
use crate::parser::grammar::g_opt_expr;
use crate::parser::grammar::g_opt_index_set_item;
use crate::parser::grammar::g_opt_scalar_type;
use crate::parser::grammar::g_opt_set_expr;
use crate::parser::grammar::g_opt_type;
use crate::parser::grammar::g_opt_width;
use crate::parser::grammar::g_paren_expr;
use crate::parser::grammar::g_scalar_or_array_type;
use crate::parser::grammar::g_scalar_type;
use crate::parser::grammar::g_seq_expr;
use crate::parser::grammar::g_seq_expr_loop;
use crate::parser::grammar::g_seq_items;
use crate::parser::grammar::g_seq_items_loop;
use crate::parser::grammar::g_set_expr;
use crate::parser::grammar::g_with_lhs;
use crate::parser::grammar::infix_op_spec;
use crate::parser::grammar::is_array_base;
use crate::parser::grammar::next_precedence_spec;
use crate::parser::grammar::op_name_spec;
use crate::parser::grammar::prefix_op_spec;
use crate::parser::grammar::Assoc;
use crate::parser::grammar::FinalSep;
use crate::parser::grammar::InfixOp;
use crate::parser::grammar::OpKind;
use crate::parser::grammar::OpName;
use crate::parser::grammar::PrefixOp;
use crate::parser::lit::lit_token;
use crate::parser::prim::has_advanced;
use crate::parser::prim::ident;
use crate::parser::prim::ran;
use crate::parser::prim::recovering_token;
use crate::parser::prim::rv;
use crate::parser::prim::rv_opt;
use crate::parser::prim::token;
use crate::parser::scan::ParserContext;
use crate::span::Span;
use vstd::prelude::*;

verus! {

/// The name of the operator that the cursor looks at.
pub fn op_name(s: &ParserContext) -> (r: OpName)
    requires
        s.wf(),
    ensures
        r == op_name_spec(s.input().peek(s.state()).kind),
{
    match s.peek().kind {
        TokenKind::Keyword(keyword) => OpName::Keyword(keyword),
        kind => OpName::Token(kind),
    }
}

/// The least precedence that the right operand of an operator of the
/// given precedence may have.
pub fn next_precedence(precedence: u8, assoc: Assoc) -> (r: u8)
    requires
        precedence < u8::MAX,
    ensures
        r == next_precedence_spec(precedence, assoc),
{
    match assoc {
        Assoc::Left => precedence + 1,
        Assoc::Right => precedence,
    }
}

/// The prefix operator of a name.
pub fn prefix_op(name: OpName) -> (r: Option<PrefixOp>)
    ensures
        r == prefix_op_spec(name),
{
    match name {
        OpName::Token(TokenKind::Bang) => Some(PrefixOp { kind: UnaryOp::NotL, precedence: 11 }),
        OpName::Token(TokenKind::Tilde) => Some(PrefixOp { kind: UnaryOp::NotB, precedence: 11 }),
        OpName::Token(TokenKind::ClosedBinOp(ClosedBinOp::Minus)) => Some(
            PrefixOp { kind: UnaryOp::Neg, precedence: 11 },
        ),
        _ => None,
    }
}

/// A left-associative binary operator.
fn left_assoc_op(op: BinOp, precedence: u8) -> (r: Option<InfixOp>)
    ensures
        r == crate::parser::grammar::left_assoc(op, precedence),
{
    Some(InfixOp { kind: OpKind::Binary(op, Assoc::Left), precedence })
}

/// The infix operator of a name, with its precedence.
pub fn infix_op(name: OpName) -> (r: Option<InfixOp>)
    ensures
        r == infix_op_spec(name),
        r matches Some(op) ==> 1 <= op.precedence <= 13,
{
    let kind = match name {
        OpName::Token(kind) => kind,
        _ => {
            return None;
        },
    };
    match kind {
        TokenKind::ClosedBinOp(token) => match token {
            ClosedBinOp::StarStar => Some(
                InfixOp { kind: OpKind::Binary(BinOp::Exp, Assoc::Right), precedence: 12 },
            ),
            ClosedBinOp::Star => left_assoc_op(BinOp::Mul, 10),
            ClosedBinOp::Slash => left_assoc_op(BinOp::Div, 10),
            ClosedBinOp::Percent => left_assoc_op(BinOp::Mod, 10),
            ClosedBinOp::Minus => left_assoc_op(BinOp::Sub, 9),
            ClosedBinOp::Plus => left_assoc_op(BinOp::Add, 9),
            ClosedBinOp::LtLt => left_assoc_op(BinOp::Shl, 8),
            ClosedBinOp::GtGt => left_assoc_op(BinOp::Shr, 8),
            ClosedBinOp::Amp => left_assoc_op(BinOp::AndB, 5),
            ClosedBinOp::Bar => left_assoc_op(BinOp::OrB, 4),
            ClosedBinOp::Caret => left_assoc_op(BinOp::XorB, 3),
            ClosedBinOp::AmpAmp => left_assoc_op(BinOp::AndL, 2),
            ClosedBinOp::BarBar => left_assoc_op(BinOp::OrL, 1),
        },
        TokenKind::ComparisonOp(token) => match token {
            ComparisonOp::Gt => left_assoc_op(BinOp::Gt, 7),
            ComparisonOp::GtEq => left_assoc_op(BinOp::Gte, 7),
            ComparisonOp::Lt => left_assoc_op(BinOp::Lt, 7),
            ComparisonOp::LtEq => left_assoc_op(BinOp::Lte, 7),
            ComparisonOp::BangEq => left_assoc_op(BinOp::Neq, 6),
            ComparisonOp::EqEq => left_assoc_op(BinOp::Eq, 6),
        },
        TokenKind::Open(Delim::Paren) => Some(InfixOp { kind: OpKind::Funcall, precedence: 13 }),
        TokenKind::Open(Delim::Bracket) => Some(InfixOp { kind: OpKind::Index, precedence: 13 }),
        _ => None,
    }
}

/// The binary operator that a token stands for.
pub fn closed_bin_op(op: ClosedBinOp) -> (r: BinOp)
    ensures
        r == closed_bin_op_spec(op),
{
    match op {
        ClosedBinOp::Amp => BinOp::AndB,
        ClosedBinOp::AmpAmp => BinOp::AndL,
        ClosedBinOp::Bar => BinOp::OrB,
        ClosedBinOp::StarStar => BinOp::Exp,
        ClosedBinOp::Caret => BinOp::XorB,
        ClosedBinOp::GtGt => BinOp::Shr,
        ClosedBinOp::LtLt => BinOp::Shl,
        ClosedBinOp::Minus => BinOp::Sub,
        ClosedBinOp::BarBar => BinOp::OrL,
        ClosedBinOp::Percent => BinOp::Mod,
        ClosedBinOp::Plus => BinOp::Add,
        ClosedBinOp::Slash => BinOp::Div,
        ClosedBinOp::Star => BinOp::Mul,
    }
}

/// The view of a list with one more entry.
pub proof fn lemma_expr_views_push(items: Seq<Expr>, x: Expr)
    ensures
        expr_views(items.push(x)) == expr_views(items).push(x@),
{
    assert(items.push(x).drop_last() =~= items);
}

/// The view of a list with one more entry.
pub proof fn lemma_item_views_push(items: Seq<IndexSetItem>, x: IndexSetItem)
    ensures
        item_views(items.push(x)) == item_views(items).push(x@),
{
    assert(items.push(x).drop_last() =~= items);
}

/// A literal, if the cursor looks at one.
pub fn lit(s: &mut ParserContext) -> (r: Result<Option<Lit>, Error>)
    requires
        old(s).wf(),
    ensures
        ran(*old(s), *final(s)),
        (final(s).state(), rv_opt(r)) == g_lit(old(s).input(), old(s).state()),
        r matches Ok(Some(_)) ==> old(s).state().pos < final(s).state().pos,
{
    let token = s.peek();
    let r = lit_token(s.read(), token);
    match r {
        Ok(Some(lit)) => {
            s.advance();
            Ok(Some(lit))
        },
        Ok(None) => Ok(None),
        Err(err) => {
            s.advance();
            Err(err)
        },
    }
}

/// An expression.
pub fn expr(s: &mut ParserContext) -> (r: Result<Expr, Error>)
    requires
        old(s).wf(),
    ensures
        ran(*old(s), *final(s)),
        (final(s).state(), rv(r)) == g_expr(old(s).input(), old(s).state()),
        r is Ok ==> old(s).state().pos < final(s).state().pos,
{
    expr_op(s, 0)
}

/// The operators that follow the operand `lhs`, each with its right
/// operand.
pub fn expr_with_lhs(s: &mut ParserContext, lhs: Expr) -> (r: Result<Expr, Error>)
    requires
        old(s).wf(),
    ensures
        ran(*old(s), *final(s)),
        (final(s).state(), rv(r)) == g_with_lhs(old(s).input(), old(s).state(), 0, lhs@),
{
    expr_op_with_lhs(s, 0, lhs)
}

/// An expression whose operators have at least the precedence `min`.
pub fn expr_op(s: &mut ParserContext, min: u8) -> (r: Result<Expr, Error>)
    requires
        old(s).wf(),
    ensures
        ran(*old(s), *final(s)),
        (final(s).state(), rv(r)) == g_expr_op(old(s).input(), old(s).state(), min),
        r is Ok ==> old(s).state().pos < final(s).state().pos,
    decreases old(s).input().rest(old(s).state()), 4int,
{
    let lo = s.peek().span.lo;
    let lhs = match prefix_op(op_name(s)) {
        Some(op) => {
            s.advance();
            let rhs = match expr_op(s, op.precedence) {
                Ok(rhs) => rhs,
                Err(e) => {
                    return Err(e);
                },
            };
            Expr { span: s.span(lo), kind: Box::new(ExprKind::UnaryOp(op.kind, rhs)) }
        },
        None => match expr_base(s) {
            Ok(lhs) => lhs,
            Err(e) => {
                return Err(e);
            },
        },
    };
    expr_op_with_lhs(s, min, lhs)
}

/// The operators that follow the operand `lhs`, as long as their
/// precedence is at least `min`, each with its right operand.
pub fn expr_op_with_lhs(s: &mut ParserContext, min: u8, lhs: Expr) -> (r: Result<Expr, Error>)
    requires
        old(s).wf(),
    ensures
        ran(*old(s), *final(s)),
        (final(s).state(), rv(r)) == g_with_lhs(old(s).input(), old(s).state(), min, lhs@),
    decreases old(s).input().rest(old(s).state()), 0int,
{
    let lo = lhs.span.lo;
    let op = match infix_op(op_name(s)) {
        Some(op) => op,
        None => {
            return Ok(lhs);
        },
    };
    if op.precedence < min {
        return Ok(lhs);
    }
    s.advance();
    let kind = match op.kind {
        OpKind::Binary(kind, assoc) => {
            let precedence = next_precedence(op.precedence, assoc);
            match expr_op(s, precedence) {
                Ok(rhs) => ExprKind::BinaryOp(kind, lhs, rhs),
                Err(e) => {
                    return Err(e);
                },
            }
        },
        OpKind::Funcall => {
            let span = lhs.span;
            match *lhs.kind {
                ExprKind::Ident(ident) => match funcall(s, ident) {
                    Ok(call) => ExprKind::FunctionCall(call),
                    Err(e) => {
                        return Err(e);
                    },
                },
                _ => {
                    return Err(Error::new(ErrorKind::Convert("identifier", "", span)));
                },
            }
        },
        OpKind::Index => match index_expr(s, lhs) {
            Ok(index) => ExprKind::IndexExpr(index),
            Err(e) => {
                return Err(e);
            },
        },
    };
    let lhs = Expr { span: s.span(lo), kind: Box::new(kind) };
    expr_op_with_lhs(s, min, lhs)
}

/// An operand: a literal, an expression in parentheses, a cast or an
/// identifier.
pub fn expr_base(s: &mut ParserContext) -> (r: Result<Expr, Error>)
    requires
        old(s).wf(),
    ensures
        ran(*old(s), *final(s)),
        (final(s).state(), rv(r)) == g_expr_base(old(s).input(), old(s).state()),
        r is Ok ==> old(s).state().pos < final(s).state().pos,
    decreases old(s).input().rest(old(s).state()), 3int,
{
    let lo = s.peek().span.lo;
    match lit(s) {
        Err(e) => {
            return Err(e);
        },
        Ok(Some(l)) => {
            return Ok(Expr { span: s.span(lo), kind: Box::new(ExprKind::Lit(l)) });
        },
        Ok(None) => {},
    }
    if token(s, TokenKind::Open(Delim::Paren)).is_ok() {
        return paren_expr(s, lo);
    }
    match opt_type(s) {
        Err(err) => Err(err),
        Ok(Some(ty)) => {
            match cast_op(s, ty) {
                Ok(cast) => Ok(Expr { span: s.span(lo), kind: Box::new(ExprKind::Cast(cast)) }),
                Err(e) => Err(e),
            }
        },
        Ok(None) => {
            match ident(s) {
                Ok(id) => Ok(Expr { span: s.span(lo), kind: Box::new(ExprKind::Ident(id)) }),
                Err(_) => Err(
                    Error::new(ErrorKind::Rule("expression", s.peek().kind, s.peek().span)),
                ),
            }
        },
    }
}

/// What follows an opening parenthesis: one expression and the closing
/// parenthesis.
pub fn paren_expr(s: &mut ParserContext, lo: u32) -> (r: Result<Expr, Error>)
    requires
        old(s).wf(),
    ensures
        ran(*old(s), *final(s)),
        (final(s).state(), rv(r)) == g_paren_expr(old(s).input(), old(s).state(), lo),
    decreases old(s).input().rest(old(s).state()), 10int,
{
    let (mut exprs, final_sep) = match seq_expr(s) {
        Ok(pair) => pair,
        Err(e) => {
            return Err(e);
        },
    };
    match token(s, TokenKind::Close(Delim::Paren)) {
        Ok(()) => {},
        Err(e) => {
            return Err(e);
        },
    }
    proof {
        crate::parser::ast::lemma_expr_views(exprs@);
    }
    if final_sep == FinalSep::Missing && exprs.len() == 1 {
        let ghost views = expr_views(exprs@);
        let inner = exprs.pop().unwrap();
        proof {
            assert(views[0] == inner@);
        }
        Ok(Expr { span: s.span(lo), kind: Box::new(ExprKind::Paren(inner)) })
    } else {
        Err(
            Error::new(
                ErrorKind::Convert("parenthesized expression", "expression list", s.span(lo)),
            ),
        )
    }
}

/// An expression, if there is one.
pub fn opt_expr(s: &mut ParserContext) -> (r: Result<Option<Expr>, Error>)
    requires
        old(s).wf(),
    ensures
        ran(*old(s), *final(s)),
        (final(s).state(), rv_opt(r)) == g_opt_expr(old(s).input(), old(s).state()),
    decreases old(s).input().rest(old(s).state()), 5int,
{
    let offset = s.peek().span.lo;
    match expr_op(s, 0) {
        Ok(x) => Ok(Some(x)),
        Err(error) => if has_advanced(s, offset) {
            Err(error)
        } else {
            Ok(None)
        },
    }
}

/// The view of a list of expressions with the mark of its last
/// separator.
pub open spec fn seq_expr_view(r: Result<(Vec<Expr>, FinalSep), Error>) -> Result<
    (Seq<ExprView>, FinalSep),
    Error,
> {
    match r {
        Ok(pair) => Ok((expr_views(pair.0@), pair.1)),
        Err(e) => Err(e),
    }
}

/// Passes over commas that follow one another: for each, an error is
/// recorded and an entry that marks the gap is added.
fn missing_exprs(s: &mut ParserContext, xs: &mut Vec<Expr>)
    requires
        old(s).wf(),
    ensures
        ran(*old(s), *final(s)),
        (final(s).state(), expr_views(final(xs)@)) == g_missing_exprs(
            old(s).input(),
            old(s).state(),
            expr_views(old(xs)@),
        ),
    decreases old(s).input().rest(old(s).state()),
{
    if s.peek().kind == TokenKind::Comma {
        let lo = s.peek().span.lo;
        let span = Span { lo, hi: lo };
        s.push_error(Error::new(ErrorKind::MissingSeqEntry(span)));
        proof {
            lemma_expr_views_push(xs@, Expr { span, kind: Box::new(ExprKind::Missing) });
        }
        xs.push(Expr { span, kind: Box::new(ExprKind::Missing) });
        s.advance();
        missing_exprs(s, xs);
    }
}

/// A list of expressions that commas separate, with the mark of whether
/// a comma follows the last one.
pub fn seq_expr(s: &mut ParserContext) -> (r: Result<(Vec<Expr>, FinalSep), Error>)
    requires
        old(s).wf(),
    ensures
        ran(*old(s), *final(s)),
        (final(s).state(), seq_expr_view(r)) == g_seq_expr(old(s).input(), old(s).state()),
    decreases old(s).input().rest(old(s).state()), 7int,
{
    let mut xs: Vec<Expr> = Vec::new();
    proof {
        assert(expr_views(xs@) =~= Seq::empty());
    }
    missing_exprs(s, &mut xs);
    seq_expr_loop(s, xs, FinalSep::Missing)
}

/// The rest of a list of expressions, after the entries `xs`.
fn seq_expr_loop(s: &mut ParserContext, xs: Vec<Expr>, final_sep: FinalSep) -> (r: Result<
    (Vec<Expr>, FinalSep),
    Error,
>)
    requires
        old(s).wf(),
    ensures
        ran(*old(s), *final(s)),
        (final(s).state(), seq_expr_view(r)) == g_seq_expr_loop(
            old(s).input(),
            old(s).state(),
            expr_views(xs@),
            final_sep,
        ),
    decreases old(s).input().rest(old(s).state()), 6int,
{
    let mut xs = xs;
    match opt_expr(s) {
        Err(e) => Err(e),
        Ok(None) => Ok((xs, final_sep)),
        Ok(Some(x)) => {
            proof {
                lemma_expr_views_push(xs@, x);
            }
            xs.push(x);
            if token(s, TokenKind::Comma).is_ok() {
                missing_exprs(s, &mut xs);
                seq_expr_loop(s, xs, FinalSep::Present)
            } else {
                Ok((xs, FinalSep::Missing))
            }
        },
    }
}

/// The arguments of a call and the closing parenthesis.
pub fn funcall(s: &mut ParserContext, ident: Ident) -> (r: Result<FunctionCall, Error>)
    requires
        old(s).wf(),
    ensures
        ran(*old(s), *final(s)),
        (final(s).state(), rv(r)) == g_funcall(old(s).input(), old(s).state(), ident@),
    decreases old(s).input().rest(old(s).state()), 10int,
{
    let lo = ident.span.lo;
    let (args, _) = match seq_expr(s) {
        Ok(pair) => pair,
        Err(e) => {
            return Err(e);
        },
    };
    match token(s, TokenKind::Close(Delim::Paren)) {
        Ok(()) => {},
        Err(e) => {
            return Err(e);
        },
    }
    Ok(FunctionCall { span: s.span(lo), name: ident, args })
}

/// An expression in brackets.
pub fn designator(s: &mut ParserContext) -> (r: Result<Expr, Error>)
    requires
        old(s).wf(),
    ensures
        ran(*old(s), *final(s)),
        (final(s).state(), rv(r)) == g_designator(old(s).input(), old(s).state()),
    decreases old(s).input().rest(old(s).state()), 10int,
{
    match token(s, TokenKind::Open(Delim::Bracket)) {
        Ok(()) => {},
        Err(e) => {
            return Err(e);
        },
    }
    let expr = match expr_op(s, 0) {
        Ok(expr) => expr,
        Err(e) => {
            return Err(e);
        },
    };
    recovering_token(s, TokenKind::Close(Delim::Bracket));
    Ok(expr)
}

/// The width of a type, if one is given in brackets.
fn opt_width(s: &mut ParserContext) -> (r: Result<Option<Expr>, Error>)
    requires
        old(s).wf(),
    ensures
        ran(*old(s), *final(s)),
        (final(s).state(), rv_opt(r)) == g_opt_width(old(s).input(), old(s).state()),
    decreases old(s).input().rest(old(s).state()), 11int,
{
    if s.peek().kind == TokenKind::Open(Delim::Bracket) {
        match designator(s) {
            Ok(width) => Ok(Some(width)),
            Err(e) => Err(e),
        }
    } else {
        Ok(None)
    }
}

/// A scalar type: the name of a type and, for those that have one, an
/// optional width in brackets.
pub fn scalar_type(s: &mut ParserContext) -> (r: Result<ScalarType, Error>)
    requires
        old(s).wf(),
    ensures
        ran(*old(s), *final(s)),
        (final(s).state(), rv(r)) == g_scalar_type(old(s).input(), old(s).state()),
        r is Ok ==> old(s).state().pos < final(s).state().pos,
    decreases old(s).input().rest(old(s).state()), 0int,
{
    let peek = s.peek();
    let lo = peek.span.lo;
    let name = match peek.kind {
        TokenKind::Type(name) => name,
        _ => {
            return Err(Error::new(ErrorKind::Rule("scalar type", peek.kind, peek.span)));
        },
    };
    match name {
        TypeName::Array => {
            return Err(Error::new(ErrorKind::Rule("scalar type", peek.kind, peek.span)));
        },
        TypeName::Bool => {
            s.advance();
            Ok(ScalarType { span: s.span(lo), kind: ScalarTypeKind::BoolType })
        },
        TypeName::Duration => {
            s.advance();
            Ok(ScalarType { span: s.span(lo), kind: ScalarTypeKind::Duration })
        },
        TypeName::Stretch => {
            s.advance();
            Ok(ScalarType { span: s.span(lo), kind: ScalarTypeKind::Stretch })
        },
        TypeName::Complex => {
            s.advance();
            if s.peek().kind == TokenKind::Open(Delim::Bracket) {
                s.advance();
                match token(s, TokenKind::Type(TypeName::Float)) {
                    Ok(()) => {},
                    Err(e) => {
                        return Err(e);
                    },
                }
                let width = match opt_width(s) {
                    Ok(width) => width,
                    Err(e) => {
                        return Err(e);
                    },
                };
                recovering_token(s, TokenKind::Close(Delim::Bracket));
                Ok(ScalarType { span: s.span(lo), kind: ScalarTypeKind::Complex(width) })
            } else {
                Ok(ScalarType { span: s.span(lo), kind: ScalarTypeKind::Complex(None) })
            }
        },
        _ => {
            s.advance();
            let width = match opt_width(s) {
                Ok(width) => width,
                Err(e) => {
                    return Err(e);
                },
            };
            let kind = match name {
                TypeName::Bit => ScalarTypeKind::Bit(width),
                TypeName::Int => ScalarTypeKind::Int(width),
                TypeName::UInt => ScalarTypeKind::UInt(width),
                TypeName::Float => ScalarTypeKind::Float(width),
                _ => ScalarTypeKind::Angle(width),
            };
            Ok(ScalarType { span: s.span(lo), kind })
        },
    }
}

/// A scalar type, if there is one.
pub fn opt_scalar_type(s: &mut ParserContext) -> (r: Result<Option<ScalarType>, Error>)
    requires
        old(s).wf(),
    ensures
        ran(*old(s), *final(s)),
        (final(s).state(), rv_opt(r)) == g_opt_scalar_type(old(s).input(), old(s).state()),
        r matches Ok(Some(_)) ==> old(s).state().pos < final(s).state().pos,
    decreases old(s).input().rest(old(s).state()), 2int,
{
    let offset = s.peek().span.lo;
    match scalar_type(s) {
        Ok(x) => Ok(Some(x)),
        Err(error) => if has_advanced(s, offset) {
            Err(error)
        } else {
            Ok(None)
        },
    }
}

/// Whether an array can have entries of the type that the token names.
fn array_base(kind: TokenKind) -> (r: bool)
    ensures
        r == is_array_base(kind),
{
    match kind {
        TokenKind::Type(name) => match name {
            TypeName::Array => false,
            TypeName::Bit => false,
            TypeName::Stretch => false,
            _ => true,
        },
        _ => false,
    }
}

/// The type of an array: `array`, and in brackets the type of the
/// entries, a comma and the dimensions.
pub fn array_type(s: &mut ParserContext) -> (r: Result<ArrayType, Error>)
    requires
        old(s).wf(),
    ensures
        ran(*old(s), *final(s)),
        (final(s).state(), rv(r)) == g_array_type(old(s).input(), old(s).state()),
        r is Ok ==> old(s).state().pos < final(s).state().pos,
    decreases old(s).input().rest(old(s).state()), 0int,
{
    let lo = s.peek().span.lo;
    match token(s, TokenKind::Type(TypeName::Array)) {
        Ok(()) => {},
        Err(e) => {
            return Err(e);
        },
    }
    match token(s, TokenKind::Open(Delim::Bracket)) {
        Ok(()) => {},
        Err(e) => {
            return Err(e);
        },
    }
    if !array_base(s.peek().kind) {
        return Err(Error::new(ErrorKind::Rule("array type", s.peek().kind, s.peek().span)));
    }
    let base_type = match scalar_type(s) {
        Ok(ty) => ty,
        Err(_) => {
            return Err(Error::new(ErrorKind::Rule("array type", s.peek().kind, s.peek().span)));
        },
    };
    match token(s, TokenKind::Comma) {
        Ok(()) => {},
        Err(e) => {
            return Err(e);
        },
    }
    let dimensions = match seq_expr(s) {
        Ok(pair) => pair.0,
        Err(e) => {
            return Err(e);
        },
    };
    match token(s, TokenKind::Close(Delim::Bracket)) {
        Ok(()) => {},
        Err(e) => {
            return Err(e);
        },
    }
    Ok(ArrayType { span: s.span(lo), base_type, dimensions })
}

/// A type: a scalar type, or else the type of an array.
pub fn scalar_or_array_type(s: &mut ParserContext) -> (r: Result<TypeDef, Error>)
    requires
        old(s).wf(),
    ensures
        ran(*old(s), *final(s)),
        (final(s).state(), rv(r)) == g_scalar_or_array_type(old(s).input(), old(s).state()),
        r is Ok ==> old(s).state().pos < final(s).state().pos,
    decreases old(s).input().rest(old(s).state()), 1int,
{
    match scalar_type(s) {
        Ok(ty) => {
            return Ok(TypeDef::Scalar(ty));
        },
        Err(_) => {},
    }
    match array_type(s) {
        Ok(ty) => Ok(TypeDef::Array(ty)),
        Err(_) => Err(
            Error::new(ErrorKind::Rule("scalar or array type", s.peek().kind, s.peek().span)),
        ),
    }
}

/// A type, if there is one.
pub fn opt_type(s: &mut ParserContext) -> (r: Result<Option<TypeDef>, Error>)
    requires
        old(s).wf(),
    ensures
        ran(*old(s), *final(s)),
        (final(s).state(), rv_opt(r)) == g_opt_type(old(s).input(), old(s).state()),
        r matches Ok(Some(_)) ==> old(s).state().pos < final(s).state().pos,
    decreases old(s).input().rest(old(s).state()), 2int,
{
    let offset = s.peek().span.lo;
    match scalar_or_array_type(s) {
        Ok(x) => Ok(Some(x)),
        Err(error) => if has_advanced(s, offset) {
            Err(error)
        } else {
            Ok(None)
        },
    }
}

/// What follows the type of a cast: the expression in parentheses.
pub fn cast_op(s: &mut ParserContext, ty: TypeDef) -> (r: Result<Cast, Error>)
    requires
        old(s).wf(),
    ensures
        ran(*old(s), *final(s)),
        (final(s).state(), rv(r)) == g_cast_op(old(s).input(), old(s).state(), ty@),
    decreases old(s).input().rest(old(s).state()), 10int,
{
    let lo = ty.span().lo;
    match token(s, TokenKind::Open(Delim::Paren)) {
        Ok(()) => {},
        Err(e) => {
            return Err(e);
        },
    }
    let arg = match expr_op(s, 0) {
        Ok(arg) => arg,
        Err(e) => {
            return Err(e);
        },
    };
    recovering_token(s, TokenKind::Close(Delim::Paren));
    Ok(Cast { span: s.span(lo), ty, arg })
}

/// What follows the opening bracket of an index: the index and the
/// closing bracket.
pub fn index_expr(s: &mut ParserContext, lhs: Expr) -> (r: Result<IndexExpr, Error>)
    requires
        old(s).wf(),
    ensures
        ran(*old(s), *final(s)),
        (final(s).state(), rv(r)) == g_index_expr(old(s).input(), old(s).state(), lhs@),
    decreases old(s).input().rest(old(s).state()), 11int,
{
    let lo = lhs.span.lo;
    let index = match index_element(s) {
        Ok(index) => index,
        Err(e) => {
            return Err(e);
        },
    };
    recovering_token(s, TokenKind::Close(Delim::Bracket));
    Ok(IndexExpr { span: s.span(lo), collection: lhs, index })
}

/// An index: a set of values in braces, or a list of expressions and
/// ranges.
pub fn index_element(s: &mut ParserContext) -> (r: Result<IndexElement, Error>)
    requires
        old(s).wf(),
    ensures
        ran(*old(s), *final(s)),
        (final(s).state(), rv(r)) == g_index_element(old(s).input(), old(s).state()),
    decreases old(s).input().rest(old(s).state()), 10int,
{
    match opt_set_expr(s) {
        Ok(Some(v)) => Ok(IndexElement::DiscreteSet(v)),
        Err(err) => Err(err),
        Ok(None) => {
            let lo = s.peek().span.lo;
            let (values, _) = match seq_items(s) {
                Ok(pair) => pair,
                Err(e) => {
                    return Err(e);
                },
            };
            Ok(IndexElement::IndexSet(IndexSet { span: s.span(lo), values }))
        },
    }
}

/// A set of values in braces.
pub fn set_expr(s: &mut ParserContext) -> (r: Result<DiscreteSet, Error>)
    requires
        old(s).wf(),
    ensures
        ran(*old(s), *final(s)),
        (final(s).state(), rv(r)) == g_set_expr(old(s).input(), old(s).state()),
    decreases old(s).input().rest(old(s).state()), 7int,
{
    let lo = s.peek().span.lo;
    match token(s, TokenKind::Open(Delim::Brace)) {
        Ok(()) => {},
        Err(e) => {
            return Err(e);
        },
    }
    let (values, _) = match seq_expr(s) {
        Ok(pair) => pair,
        Err(e) => {
            return Err(e);
        },
    };
    recovering_token(s, TokenKind::Close(Delim::Brace));
    Ok(DiscreteSet { span: s.span(lo), values })
}

/// A set of values in braces, if there is one.
fn opt_set_expr(s: &mut ParserContext) -> (r: Result<Option<DiscreteSet>, Error>)
    requires
        old(s).wf(),
    ensures
        ran(*old(s), *final(s)),
        (final(s).state(), rv_opt(r)) == g_opt_set_expr(old(s).input(), old(s).state()),
    decreases old(s).input().rest(old(s).state()), 8int,
{
    let offset = s.peek().span.lo;
    match set_expr(s) {
        Ok(x) => Ok(Some(x)),
        Err(error) => if has_advanced(s, offset) {
            Err(error)
        } else {
            Ok(None)
        },
    }
}

/// One item of an index: an expression, or a range `start : end` or
/// `start : step : end`, each part of which may be missing.
pub fn index_set_item(s: &mut ParserContext) -> (r: Result<IndexSetItem, Error>)
    requires
        old(s).wf(),
    ensures
        ran(*old(s), *final(s)),
        (final(s).state(), rv(r)) == g_index_set_item(old(s).input(), old(s).state()),
    decreases old(s).input().rest(old(s).state()), 6int,
{
    let lo = s.peek().span.lo;
    let start = match opt_expr(s) {
        Ok(start) => start,
        Err(e) => {
            return Err(e);
        },
    };
    if token(s, TokenKind::Colon).is_err() {
        return match start {
            Some(expr) => Ok(IndexSetItem::Expr(expr)),
            None => Err(Error::new(ErrorKind::Rule("expression", s.peek().kind, s.span(lo)))),
        };
    }
    let end = match opt_expr(s) {
        Ok(end) => end,
        Err(e) => {
            return Err(e);
        },
    };
    if token(s, TokenKind::Colon).is_err() {
        return Ok(
            IndexSetItem::RangeDefinition(
                RangeDefinition { span: s.span(lo), start, end, step: None },
            ),
        );
    }
    let step = end;
    let end = match opt_expr(s) {
        Ok(end) => end,
        Err(e) => {
            return Err(e);
        },
    };
    Ok(IndexSetItem::RangeDefinition(RangeDefinition { span: s.span(lo), start, end, step }))
}

/// An item of an index, if there is one.
fn opt_index_set_item(s: &mut ParserContext) -> (r: Result<Option<IndexSetItem>, Error>)
    requires
        old(s).wf(),
    ensures
        ran(*old(s), *final(s)),
        (final(s).state(), rv_opt(r)) == g_opt_index_set_item(old(s).input(), old(s).state()),
    decreases old(s).input().rest(old(s).state()), 7int,
{
    let offset = s.peek().span.lo;
    match index_set_item(s) {
        Ok(x) => Ok(Some(x)),
        Err(error) => if has_advanced(s, offset) {
            Err(error)
        } else {
            Ok(None)
        },
    }
}

/// The view of a list of index items with the mark of its last
/// separator.
pub open spec fn seq_items_view(r: Result<(Vec<IndexSetItem>, FinalSep), Error>) -> Result<
    (Seq<IndexSetItemView>, FinalSep),
    Error,
> {
    match r {
        Ok(pair) => Ok((item_views(pair.0@), pair.1)),
        Err(e) => Err(e),
    }
}

/// Passes over commas that follow one another in an index.
fn missing_items(s: &mut ParserContext, xs: &mut Vec<IndexSetItem>)
    requires
        old(s).wf(),
    ensures
        ran(*old(s), *final(s)),
        (final(s).state(), item_views(final(xs)@)) == g_missing_items(
            old(s).input(),
            old(s).state(),
            item_views(old(xs)@),
        ),
    decreases old(s).input().rest(old(s).state()),
{
    if s.peek().kind == TokenKind::Comma {
        let lo = s.peek().span.lo;
        let span = Span { lo, hi: lo };
        s.push_error(Error::new(ErrorKind::MissingSeqEntry(span)));
        proof {
            lemma_item_views_push(xs@, IndexSetItem::Missing(span));
        }
        xs.push(IndexSetItem::Missing(span));
        s.advance();
        missing_items(s, xs);
    }
}

/// A list of index items that commas separate.
pub fn seq_items(s: &mut ParserContext) -> (r: Result<(Vec<IndexSetItem>, FinalSep), Error>)
    requires
        old(s).wf(),
    ensures
        ran(*old(s), *final(s)),
        (final(s).state(), seq_items_view(r)) == g_seq_items(old(s).input(), old(s).state()),
    decreases old(s).input().rest(old(s).state()), 9int,
{
    let mut xs: Vec<IndexSetItem> = Vec::new();
    proof {
        assert(item_views(xs@) =~= Seq::empty());
    }
    missing_items(s, &mut xs);
    seq_items_loop(s, xs, FinalSep::Missing)
}

/// The rest of a list of index items, after the entries `xs`.
fn seq_items_loop(s: &mut ParserContext, xs: Vec<IndexSetItem>, final_sep: FinalSep) -> (r: Result<
    (Vec<IndexSetItem>, FinalSep),
    Error,
>)
    requires
        old(s).wf(),
    ensures
        ran(*old(s), *final(s)),
        (final(s).state(), seq_items_view(r)) == g_seq_items_loop(
            old(s).input(),
            old(s).state(),
            item_views(xs@),
            final_sep,
        ),
    decreases old(s).input().rest(old(s).state()), 8int,
{
    let mut xs = xs;
    match opt_index_set_item(s) {
        Err(e) => Err(e),
        Ok(None) => Ok((xs, final_sep)),
        Ok(Some(x)) => {
            proof {
                lemma_item_views_push(xs@, x);
            }
            xs.push(x);
            if token(s, TokenKind::Comma).is_ok() {
                missing_items(s, &mut xs);
                seq_items_loop(s, xs, FinalSep::Present)
            } else {
                Ok((xs, FinalSep::Missing))
            }
        },
    }
}

/// A version, if the cursor looks at a number.
pub fn version(s: &mut ParserContext) -> (r: Result<Option<Version>, Error>)
    requires
        old(s).wf(),
    ensures
        ran(*old(s), *final(s)),
        (final(s).state(), r) == g_version(old(s).input(), old(s).state()),
{
    let token = s.peek();
    let r = version_token(s.read(), token);
    match r {
        Ok(Some(version)) => {
            s.advance();
            Ok(Some(version))
        },
        Ok(None) => Ok(None),
        Err(err) => {
            s.advance();
            Err(err)
        },
    }
}

/// The view of a list of expressions that a rule gave.
pub open spec fn rv_exprs(r: Result<Vec<Expr>, Error>) -> Result<Seq<ExprView>, Error> {
    match r {
        Ok(list) => Ok(expr_views(list@)),
        Err(e) => Err(e),
    }
}

/// A list of expressions that commas separate.
pub fn expr_list(s: &mut ParserContext) -> (r: Result<Vec<Expr>, Error>)
    requires
        old(s).wf(),
    ensures
        ran(*old(s), *final(s)),
        (final(s).state(), rv_exprs(r)) == g_expr_list(old(s).input(), old(s).state()),
{
    match seq_expr(s) {
        Ok(pair) => Ok(pair.0),
        Err(e) => Err(e),
    }
}

/// An array literal: a list of elements in braces.
pub fn lit_array(s: &mut ParserContext) -> (r: Result<Expr, Error>)
    requires
        old(s).wf(),
    ensures
        ran(*old(s), *final(s)),
        (final(s).state(), rv(r)) == g_lit_array(old(s).input(), old(s).state()),
    decreases old(s).input().rest(old(s).state()), 11int,
{
    let lo = s.peek().span.lo;
    match token(s, TokenKind::Open(Delim::Brace)) {
        Ok(()) => {},
        Err(e) => {
            return Err(e);
        },
    }
    let elements = match seq_elements(s) {
        Ok(pair) => pair.0,
        Err(e) => {
            return Err(e);
        },
    };
    recovering_token(s, TokenKind::Close(Delim::Brace));
    let ghost views = expr_views(elements@);
    let lit = Lit { span: s.span(lo), kind: LiteralKind::Array(elements) };
    proof {
        assert(lit@ == (crate::parser::ast::LitView {
            span: lit.span,
            kind: crate::parser::ast::LiteralKindView::Array(views),
        }));
    }
    Ok(Expr { span: s.span(lo), kind: Box::new(ExprKind::Lit(lit)) })
}

/// An element of an array literal: an expression or an array literal.
pub fn lit_array_element(s: &mut ParserContext) -> (r: Result<Expr, Error>)
    requires
        old(s).wf(),
    ensures
        ran(*old(s), *final(s)),
        (final(s).state(), rv(r)) == g_lit_array_element(old(s).input(), old(s).state()),
    decreases old(s).input().rest(old(s).state()), 12int,
{
    match opt_expr(s) {
        Err(e) => Err(e),
        Ok(Some(elt)) => Ok(elt),
        Ok(None) => lit_array(s),
    }
}

/// An element of an array literal, if there is one.
fn opt_lit_array_element(s: &mut ParserContext) -> (r: Result<Option<Expr>, Error>)
    requires
        old(s).wf(),
    ensures
        ran(*old(s), *final(s)),
        (final(s).state(), rv_opt(r)) == g_opt_lit_array_element(old(s).input(), old(s).state()),
    decreases old(s).input().rest(old(s).state()), 13int,
{
    let offset = s.peek().span.lo;
    match lit_array_element(s) {
        Ok(x) => Ok(Some(x)),
        Err(error) => if has_advanced(s, offset) {
            Err(error)
        } else {
            Ok(None)
        },
    }
}

/// A list of elements of an array literal that commas separate.
fn seq_elements(s: &mut ParserContext) -> (r: Result<(Vec<Expr>, FinalSep), Error>)
    requires
        old(s).wf(),
    ensures
        ran(*old(s), *final(s)),
        (final(s).state(), seq_expr_view(r)) == g_seq_elements(old(s).input(), old(s).state()),
    decreases old(s).input().rest(old(s).state()), 15int,
{
    let mut xs: Vec<Expr> = Vec::new();
    missing_exprs(s, &mut xs);
    seq_elements_loop(s, xs, FinalSep::Missing)
}

/// The rest of a list of elements, after the entries `xs`.
fn seq_elements_loop(s: &mut ParserContext, xs: Vec<Expr>, final_sep: FinalSep) -> (r: Result<
    (Vec<Expr>, FinalSep),
    Error,
>)
    requires
        old(s).wf(),
    ensures
        ran(*old(s), *final(s)),
        (final(s).state(), seq_expr_view(r)) == g_seq_elements_loop(
            old(s).input(),
            old(s).state(),
            expr_views(xs@),
            final_sep,
        ),
    decreases old(s).input().rest(old(s).state()), 14int,
{
    let mut xs = xs;
    match opt_lit_array_element(s) {
        Err(e) => Err(e),
        Ok(None) => Ok((xs, final_sep)),
        Ok(Some(x)) => {
            proof {
                lemma_expr_views_push(xs@, x);
            }
            xs.push(x);
            if token(s, TokenKind::Comma).is_ok() {
                missing_exprs(s, &mut xs);
                seq_elements_loop(s, xs, FinalSep::Present)
            } else {
                Ok((xs, FinalSep::Missing))
            }
        },
    }
}

/// A hardware qubit.
pub fn hardware_qubit(s: &mut ParserContext) -> (r: Result<HardwareQubit, Error>)
    requires
        old(s).wf(),
    ensures
        ran(*old(s), *final(s)),
        (final(s).state(), rv(r)) == g_hardware_qubit(old(s).input(), old(s).state()),
{
    let lo = s.peek().span.lo;
    let chars = chars_of(s.read());
    match token(s, TokenKind::HardwareQubit) {
        Ok(()) => {},
        Err(e) => {
            return Err(e);
        },
    }
    let from: usize = if chars.len() >= 1 {
        1
    } else {
        0
    };
    proof {
        assert(chars@.subrange(from as int, chars@.len() as int) =~= crate::parser::grammar::tail(
            chars@,
        ));
    }
    Ok(HardwareQubit { span: s.span(lo), name: string_of(&chars, from, chars.len()) })
}

/// An index in brackets.
pub fn index_operand(s: &mut ParserContext) -> (r: Result<IndexElement, Error>)
    requires
        old(s).wf(),
    ensures
        ran(*old(s), *final(s)),
        (final(s).state(), rv(r)) == g_index_operand(old(s).input(), old(s).state()),
        r is Ok ==> old(s).state().pos < final(s).state().pos,
{
    match token(s, TokenKind::Open(Delim::Bracket)) {
        Ok(()) => {},
        Err(e) => {
            return Err(e);
        },
    }
    let index = match index_element(s) {
        Ok(index) => index,
        Err(e) => {
            return Err(e);
        },
    };
    recovering_token(s, TokenKind::Close(Delim::Bracket));
    Ok(index)
}

/// An index in brackets, if there is one.
fn opt_index_operand(s: &mut ParserContext) -> (r: Result<Option<IndexElement>, Error>)
    requires
        old(s).wf(),
    ensures
        ran(*old(s), *final(s)),
        (final(s).state(), rv_opt(r)) == g_opt_index_operand(old(s).input(), old(s).state()),
        r matches Ok(Some(_)) ==> old(s).state().pos < final(s).state().pos,
{
    let offset = s.peek().span.lo;
    match index_operand(s) {
        Ok(x) => Ok(Some(x)),
        Err(error) => if has_advanced(s, offset) {
            Err(error)
        } else {
            Ok(None)
        },
    }
}

/// The view of a list of indices that a rule gave.
pub open spec fn rv_elements(r: Result<Vec<IndexElement>, Error>) -> Result<
    Seq<IndexElementView>,
    Error,
> {
    match r {
        Ok(list) => Ok(element_views(list@)),
        Err(e) => Err(e),
    }
}

/// Any number of indices in brackets, after the indices `xs`.
fn many_index_operands(s: &mut ParserContext, xs: Vec<IndexElement>) -> (r: Result<
    Vec<IndexElement>,
    Error,
>)
    requires
        old(s).wf(),
    ensures
        ran(*old(s), *final(s)),
        (final(s).state(), rv_elements(r)) == g_many_index_operands(
            old(s).input(),
            old(s).state(),
            element_views(xs@),
        ),
    decreases old(s).input().rest(old(s).state()),
{
    let mut xs = xs;
    match opt_index_operand(s) {
        Err(e) => Err(e),
        Ok(None) => Ok(xs),
        Ok(Some(x)) => {
            proof {
                assert(xs@.push(x).drop_last() =~= xs@);
            }
            xs.push(x);
            many_index_operands(s, xs)
        },
    }
}

/// An identifier with any number of indices.
pub fn indexed_identifier(s: &mut ParserContext) -> (r: Result<IndexedIdent, Error>)
    requires
        old(s).wf(),
    ensures
        ran(*old(s), *final(s)),
        (final(s).state(), rv(r)) == g_indexed_identifier(old(s).input(), old(s).state()),
{
    let lo = s.peek().span.lo;
    let name = match ident(s) {
        Ok(name) => name,
        Err(e) => {
            return Err(e);
        },
    };
    let index_lo = s.peek().span.lo;
    let indices = match many_index_operands(s, Vec::new()) {
        Ok(indices) => indices,
        Err(e) => {
            return Err(e);
        },
    };
    proof {
        lemma_element_views_len(indices@);
    }
    let index_span = if indices.len() == 0 {
        Span::empty()
    } else {
        s.span(index_lo)
    };
    Ok(IndexedIdent { span: s.span(lo), index_span, name, indices })
}

/// A list has as many views as entries.
pub proof fn lemma_element_views_len(items: Seq<IndexElement>)
    ensures
        element_views(items).len() == items.len(),
    decreases items.len(),
{
    if items.len() > 0 {
        lemma_element_views_len(items.drop_last());
    }
}

/// An identifier with indices, if there is one.
fn opt_indexed_identifier(s: &mut ParserContext) -> (r: Result<Option<IndexedIdent>, Error>)
    requires
        old(s).wf(),
    ensures
        ran(*old(s), *final(s)),
        (final(s).state(), rv_opt(r)) == g_opt_indexed_identifier(old(s).input(), old(s).state()),
{
    let offset = s.peek().span.lo;
    match indexed_identifier(s) {
        Ok(x) => Ok(Some(x)),
        Err(error) => if has_advanced(s, offset) {
            Err(error)
        } else {
            Ok(None)
        },
    }
}

/// The operand of a gate or of a measurement.
pub fn gate_operand(s: &mut ParserContext) -> (r: Result<GateOperand, Error>)
    requires
        old(s).wf(),
    ensures
        ran(*old(s), *final(s)),
        (final(s).state(), rv(r)) == g_gate_operand(old(s).input(), old(s).state()),
{
    let lo = s.peek().span.lo;
    let kind = match opt_indexed_identifier(s) {
        Err(e) => {
            return Err(e);
        },
        Ok(Some(indexed_ident)) => GateOperandKind::IndexedIdent(Box::new(indexed_ident)),
        Ok(None) => match hardware_qubit(s) {
            Ok(qubit) => GateOperandKind::HardwareQubit(Box::new(qubit)),
            Err(e) => {
                return Err(e);
            },
        },
    };
    Ok(GateOperand { span: s.span(lo), kind })
}

/// A measurement: the word `measure` and an operand.
pub fn measure_expr(s: &mut ParserContext) -> (r: Result<MeasureExpr, Error>)
    requires
        old(s).wf(),
    ensures
        ran(*old(s), *final(s)),
        (final(s).state(), rv(r)) == g_measure_expr(old(s).input(), old(s).state()),
{
    let lo = s.peek().span.lo;
    match token(s, TokenKind::Measure) {
        Ok(()) => {},
        Err(e) => {
            return Err(e);
        },
    }
    let measure_token_span = s.span(lo);
    let operand = match gate_operand(s) {
        Ok(operand) => operand,
        Err(e) => {
            return Err(e);
        },
    };
    Ok(MeasureExpr { span: s.span(lo), measure_token_span, operand })
}

/// A measurement, if there is one.
fn opt_measure_expr(s: &mut ParserContext) -> (r: Result<Option<MeasureExpr>, Error>)
    requires
        old(s).wf(),
    ensures
        ran(*old(s), *final(s)),
        (final(s).state(), rv_opt(r)) == g_opt_measure_expr(old(s).input(), old(s).state()),
{
    let offset = s.peek().span.lo;
    match measure_expr(s) {
        Ok(x) => Ok(Some(x)),
        Err(error) => if has_advanced(s, offset) {
            Err(error)
        } else {
            Ok(None)
        },
    }
}

/// What a declaration takes as its value: a measurement, or else an
/// expression, or else an array literal.
pub fn declaration_expr(s: &mut ParserContext) -> (r: Result<ValueExpr, Error>)
    requires
        old(s).wf(),
    ensures
        ran(*old(s), *final(s)),
        (final(s).state(), rv(r)) == g_declaration_expr(old(s).input(), old(s).state()),
{
    match opt_measure_expr(s) {
        Err(e) => Err(e),
        Ok(Some(measurement)) => Ok(ValueExpr::Measurement(measurement)),
        Ok(None) => const_declaration_expr(s),
    }
}

/// What a const declaration takes as its value: an expression, or else
/// an array literal. A measurement has no value before the program runs.
pub fn const_declaration_expr(s: &mut ParserContext) -> (r: Result<ValueExpr, Error>)
    requires
        old(s).wf(),
    ensures
        ran(*old(s), *final(s)),
        (final(s).state(), rv(r)) == g_const_declaration_expr(old(s).input(), old(s).state()),
{
    let expr = match opt_expr(s) {
        Err(e) => {
            return Err(e);
        },
        Ok(Some(expr)) => expr,
        Ok(None) => match lit_array(s) {
            Ok(expr) => expr,
            Err(e) => {
                return Err(e);
            },
        },
    };
    Ok(ValueExpr::Expr(expr))
}

/// What an assignment or a `return` takes as its value: a measurement,
/// or else an expression.
pub fn expr_or_measurement(s: &mut ParserContext) -> (r: Result<ValueExpr, Error>)
    requires
        old(s).wf(),
    ensures
        ran(*old(s), *final(s)),
        (final(s).state(), rv(r)) == g_expr_or_measurement(old(s).input(), old(s).state()),
{
    match opt_measure_expr(s) {
        Err(e) => Err(e),
        Ok(Some(measurement)) => Ok(ValueExpr::Measurement(measurement)),
        Ok(None) => match expr(s) {
            Ok(expr) => Ok(ValueExpr::Expr(expr)),
            Err(e) => Err(e),
        },
    }
}

/// The expressions that follow the first of an alias, each after `++`.
fn alias_rest(s: &mut ParserContext, exprs: Vec<Expr>) -> (r: Result<Vec<Expr>, Error>)
    requires
        old(s).wf(),
    ensures
        ran(*old(s), *final(s)),
        (final(s).state(), rv_exprs(r)) == g_alias_rest(
            old(s).input(),
            old(s).state(),
            expr_views(exprs@),
        ),
    decreases old(s).input().rest(old(s).state()),
{
    let mut exprs = exprs;
    if token(s, TokenKind::PlusPlus).is_err() {
        return Ok(exprs);
    }
    match expr(s) {
        Err(e) => Err(e),
        Ok(e) => {
            proof {
                lemma_expr_views_push(exprs@, e);
            }
            exprs.push(e);
            alias_rest(s, exprs)
        },
    }
}

/// What an alias stands for: expressions joined by `++`.
pub fn alias_expr(s: &mut ParserContext) -> (r: Result<Vec<Expr>, Error>)
    requires
        old(s).wf(),
    ensures
        ran(*old(s), *final(s)),
        (final(s).state(), rv_exprs(r)) == g_alias_expr(old(s).input(), old(s).state()),
{
    let mut exprs: Vec<Expr> = Vec::new();
    match expr(s) {
        Err(e) => Err(e),
        Ok(e) => {
            proof {
                lemma_expr_views_push(exprs@, e);
                assert(expr_views(Seq::<Expr>::empty()).push(e@) =~= seq![e@]);
            }
            exprs.push(e);
            alias_rest(s, exprs)
        },
    }
}

} // verus!

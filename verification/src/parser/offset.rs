//! Moving the spans of a syntax tree: by the offset of its source in the
//! concatenation of all sources.

use crate::parser::ast::expr_views;
use crate::parser::ast::element_views;
use crate::parser::ast::item_views;
use crate::parser::ast::lemma_expr_views;
use crate::parser::ast::lemma_stmt_views;
use crate::parser::ast::stmt_views;
use crate::parser::ast::ArrayType;
use crate::parser::ast::ArrayTypeView;
use crate::parser::ast::Cast;
use crate::parser::ast::ConstantDeclStmt;
use crate::parser::ast::ConstantDeclStmtView;
use crate::parser::ast::CastView;
use crate::parser::ast::DiscreteSet;
use crate::parser::ast::DiscreteSetView;
use crate::parser::ast::Expr;
use crate::parser::ast::ExprKind;
use crate::parser::ast::ExprKindView;
use crate::parser::ast::ExprView;
use crate::parser::ast::FunctionCall;
use crate::parser::ast::FunctionCallView;
use crate::parser::ast::GateOperand;
use crate::parser::ast::GateOperandKind;
use crate::parser::ast::GateOperandKindView;
use crate::parser::ast::GateOperandView;
use crate::parser::ast::HardwareQubit;
use crate::parser::ast::HardwareQubitView;
use crate::parser::ast::Ident;
use crate::parser::ast::IdentView;
use crate::parser::ast::IncludeStmt;
use crate::parser::ast::IncludeStmtView;
use crate::parser::ast::IndexElement;
use crate::parser::ast::IndexElementView;
use crate::parser::ast::IndexExpr;
use crate::parser::ast::IndexExprView;
use crate::parser::ast::IndexedIdent;
use crate::parser::ast::IndexedIdentView;
use crate::parser::ast::IndexSet;
use crate::parser::ast::IndexSetItem;
use crate::parser::ast::IndexSetItemView;
use crate::parser::ast::IndexSetView;
use crate::parser::ast::Lit;
use crate::parser::ast::LitView;
use crate::parser::ast::LiteralKind;
use crate::parser::ast::LiteralKindView;
use crate::parser::ast::MeasureExpr;
use crate::parser::ast::MeasureExprView;
use crate::parser::ast::Program;
use crate::parser::ast::ProgramView;
use crate::parser::ast::RangeDefinition;
use crate::parser::ast::RangeDefinitionView;
use crate::parser::ast::ScalarType;
use crate::parser::ast::ScalarTypeKind;
use crate::parser::ast::ScalarTypeKindView;
use crate::parser::ast::ScalarTypeView;
use crate::parser::ast::Stmt;
use crate::parser::ast::StmtKind;
use crate::parser::ast::StmtKindView;
use crate::parser::ast::StmtView;
use crate::parser::ast::TypeDef;
use crate::parser::ast::TypeDefView;
use crate::parser::ast::ValueExpr;
use crate::parser::ast::ValueExprView;
use crate::parser::ast::Version;
use vstd::prelude::*;

verus! {

/// The expression with every span in it moved forward by `off` bytes.
pub open spec fn shift_expr(e: ExprView, off: u32) -> ExprView
    decreases e,
{
    ExprView {
        span: e.span.shifted(off),
        kind: Box::new(
            match *e.kind {
                ExprKindView::Missing => ExprKindView::Missing,
                ExprKindView::Ident(ident) => ExprKindView::Ident(shift_ident(ident, off)),
                ExprKindView::UnaryOp(op, expr) => ExprKindView::UnaryOp(op, shift_expr(expr, off)),
                ExprKindView::BinaryOp(op, lhs, rhs) => ExprKindView::BinaryOp(
                    op,
                    shift_expr(lhs, off),
                    shift_expr(rhs, off),
                ),
                ExprKindView::Lit(lit) => ExprKindView::Lit(shift_lit(lit, off)),
                ExprKindView::FunctionCall(call) => ExprKindView::FunctionCall(
                    FunctionCallView {
                        span: call.span.shifted(off),
                        name: shift_ident(call.name, off),
                        args: shift_exprs(call.args, off),
                    },
                ),
                ExprKindView::Cast(cast) => ExprKindView::Cast(
                    CastView {
                        span: cast.span.shifted(off),
                        ty: shift_typedef(cast.ty, off),
                        arg: shift_expr(cast.arg, off),
                    },
                ),
                ExprKindView::IndexExpr(index) => ExprKindView::IndexExpr(
                    IndexExprView {
                        span: index.span.shifted(off),
                        collection: shift_expr(index.collection, off),
                        index: shift_element(index.index, off),
                    },
                ),
                ExprKindView::Paren(expr) => ExprKindView::Paren(shift_expr(expr, off)),
            },
        ),
    }
}

/// The identifier with its span moved.
pub open spec fn shift_ident(ident: IdentView, off: u32) -> IdentView {
    IdentView { span: ident.span.shifted(off), name: ident.name }
}

/// The expressions with every span in them moved.
pub open spec fn shift_exprs(items: Seq<ExprView>, off: u32) -> Seq<ExprView>
    decreases items,
{
    if items.len() == 0 {
        Seq::empty()
    } else {
        shift_exprs(items.drop_last(), off).push(shift_expr(items.last(), off))
    }
}

/// The optional expression with every span in it moved.
pub open spec fn shift_opt(e: Option<ExprView>, off: u32) -> Option<ExprView>
    decreases e,
{
    match e {
        Some(e) => Some(shift_expr(e, off)),
        None => None,
    }
}

/// The literal with every span in it moved.
pub open spec fn shift_lit(lit: LitView, off: u32) -> LitView
    decreases lit,
{
    LitView {
        span: lit.span.shifted(off),
        kind: match lit.kind {
            LiteralKindView::Array(items) => LiteralKindView::Array(shift_exprs(items, off)),
            other => other,
        },
    }
}

/// The type with every span in it moved.
pub open spec fn shift_type(ty: ScalarTypeView, off: u32) -> ScalarTypeView
    decreases ty,
{
    ScalarTypeView {
        span: ty.span.shifted(off),
        kind: match ty.kind {
            ScalarTypeKindView::Bit(w) => ScalarTypeKindView::Bit(shift_opt(w, off)),
            ScalarTypeKindView::Int(w) => ScalarTypeKindView::Int(shift_opt(w, off)),
            ScalarTypeKindView::UInt(w) => ScalarTypeKindView::UInt(shift_opt(w, off)),
            ScalarTypeKindView::Float(w) => ScalarTypeKindView::Float(shift_opt(w, off)),
            ScalarTypeKindView::Angle(w) => ScalarTypeKindView::Angle(shift_opt(w, off)),
            ScalarTypeKindView::Complex(w) => ScalarTypeKindView::Complex(shift_opt(w, off)),
            ScalarTypeKindView::BoolType => ScalarTypeKindView::BoolType,
            ScalarTypeKindView::Duration => ScalarTypeKindView::Duration,
            ScalarTypeKindView::Stretch => ScalarTypeKindView::Stretch,
        },
    }
}

/// The type of a scalar or of an array with every span in it moved.
pub open spec fn shift_typedef(ty: TypeDefView, off: u32) -> TypeDefView
    decreases ty,
{
    match ty {
        TypeDefView::Scalar(ty) => TypeDefView::Scalar(shift_type(ty, off)),
        TypeDefView::Array(ty) => TypeDefView::Array(
            ArrayTypeView {
                span: ty.span.shifted(off),
                base_type: shift_type(ty.base_type, off),
                dimensions: shift_exprs(ty.dimensions, off),
            },
        ),
    }
}

/// The index with every span in it moved.
pub open spec fn shift_element(index: IndexElementView, off: u32) -> IndexElementView
    decreases index,
{
    match index {
        IndexElementView::DiscreteSet(set) => IndexElementView::DiscreteSet(
            DiscreteSetView { span: set.span.shifted(off), values: shift_exprs(set.values, off) },
        ),
        IndexElementView::IndexSet(set) => IndexElementView::IndexSet(
            IndexSetView { span: set.span.shifted(off), values: shift_items(set.values, off) },
        ),
    }
}

/// The index item with every span in it moved.
pub open spec fn shift_item(item: IndexSetItemView, off: u32) -> IndexSetItemView
    decreases item,
{
    match item {
        IndexSetItemView::RangeDefinition(range) => IndexSetItemView::RangeDefinition(
            RangeDefinitionView {
                span: range.span.shifted(off),
                start: shift_opt(range.start, off),
                end: shift_opt(range.end, off),
                step: shift_opt(range.step, off),
            },
        ),
        IndexSetItemView::Expr(expr) => IndexSetItemView::Expr(shift_expr(expr, off)),
        IndexSetItemView::Missing(span) => IndexSetItemView::Missing(span.shifted(off)),
    }
}

/// The index items with every span in them moved.
pub open spec fn shift_items(items: Seq<IndexSetItemView>, off: u32) -> Seq<IndexSetItemView>
    decreases items,
{
    if items.len() == 0 {
        Seq::empty()
    } else {
        shift_items(items.drop_last(), off).push(shift_item(items.last(), off))
    }
}

/// The indices with every span in them moved.
pub open spec fn shift_elements(items: Seq<IndexElementView>, off: u32) -> Seq<IndexElementView>
    decreases items.len(),
{
    if items.len() == 0 {
        Seq::empty()
    } else {
        shift_elements(items.drop_last(), off).push(shift_element(items.last(), off))
    }
}

/// The operand with every span in it moved.
pub open spec fn shift_operand(operand: GateOperandView, off: u32) -> GateOperandView {
    GateOperandView {
        span: operand.span.shifted(off),
        kind: match operand.kind {
            GateOperandKindView::IndexedIdent(ident) => GateOperandKindView::IndexedIdent(
                IndexedIdentView {
                    span: ident.span.shifted(off),
                    index_span: ident.index_span.shifted(off),
                    name: shift_ident(ident.name, off),
                    indices: shift_elements(ident.indices, off),
                },
            ),
            GateOperandKindView::HardwareQubit(qubit) => GateOperandKindView::HardwareQubit(
                HardwareQubitView { span: qubit.span.shifted(off), name: qubit.name },
            ),
        },
    }
}

/// The value with every span in it moved.
pub open spec fn shift_value(value: ValueExprView, off: u32) -> ValueExprView {
    match value {
        ValueExprView::Expr(expr) => ValueExprView::Expr(shift_expr(expr, off)),
        ValueExprView::Measurement(measure) => ValueExprView::Measurement(
            MeasureExprView {
                span: measure.span.shifted(off),
                measure_token_span: measure.measure_token_span.shifted(off),
                operand: shift_operand(measure.operand, off),
            },
        ),
    }
}

/// The declaration of a constant with every span in it moved.
pub open spec fn shift_decl(decl: ConstantDeclStmtView, off: u32) -> ConstantDeclStmtView {
    ConstantDeclStmtView {
        span: decl.span.shifted(off),
        ty: match decl.ty {
            Some(ty) => Some(shift_type(ty, off)),
            None => None,
        },
        identifier: shift_ident(decl.identifier, off),
        init_expr: shift_value(decl.init_expr, off),
    }
}

/// The statement with every span in it moved.
pub open spec fn shift_stmt(stmt: StmtView, off: u32) -> StmtView {
    StmtView {
        span: stmt.span.shifted(off),
        kind: match stmt.kind {
            StmtKindView::Include(inc) => StmtKindView::Include(
                IncludeStmtView { span: inc.span.shifted(off), filename: inc.filename },
            ),
            StmtKindView::ConstDecl(decl) => StmtKindView::ConstDecl(shift_decl(decl, off)),
            StmtKindView::ExprStmt(expr) => StmtKindView::ExprStmt(shift_expr(expr, off)),
            StmtKindView::Unparsed => StmtKindView::Unparsed,
        },
    }
}

/// The statements with every span in them moved.
pub open spec fn shift_stmts(items: Seq<StmtView>, off: u32) -> Seq<StmtView>
    decreases items.len(),
{
    if items.len() == 0 {
        Seq::empty()
    } else {
        shift_stmts(items.drop_last(), off).push(shift_stmt(items.last(), off))
    }
}

/// The version with its span moved.
pub open spec fn shift_version(version: Option<Version>, off: u32) -> Option<Version> {
    match version {
        Some(v) => Some(Version { major: v.major, minor: v.minor, span: v.span.shifted(off) }),
        None => None,
    }
}

/// The program with every span in it moved forward by `off` bytes.
pub open spec fn shift_program(program: ProgramView, off: u32) -> ProgramView {
    ProgramView {
        span: program.span.shifted(off),
        statements: shift_stmts(program.statements, off),
        version: shift_version(program.version, off),
    }
}

/// A moved list holds the moved entries, in order.
pub proof fn lemma_shift_exprs(items: Seq<ExprView>, off: u32)
    ensures
        shift_exprs(items, off).len() == items.len(),
        forall|i: int|
            0 <= i < items.len() ==> (#[trigger] shift_exprs(items, off)[i]) == shift_expr(
                items[i],
                off,
            ),
    decreases items.len(),
{
    if items.len() > 0 {
        lemma_shift_exprs(items.drop_last(), off);
        let rest = shift_exprs(items.drop_last(), off);
        assert forall|i: int| 0 <= i < items.len() implies (#[trigger] shift_exprs(items, off)[i])
            == shift_expr(items[i], off) by {
            if i < items.len() - 1 {
                assert(rest[i] == shift_expr(items.drop_last()[i], off));
            }
        }
    }
}

/// A moved list holds the moved entries, in order.
pub proof fn lemma_shift_items(items: Seq<IndexSetItemView>, off: u32)
    ensures
        shift_items(items, off).len() == items.len(),
        forall|i: int|
            0 <= i < items.len() ==> (#[trigger] shift_items(items, off)[i]) == shift_item(
                items[i],
                off,
            ),
    decreases items.len(),
{
    if items.len() > 0 {
        lemma_shift_items(items.drop_last(), off);
        let rest = shift_items(items.drop_last(), off);
        assert forall|i: int| 0 <= i < items.len() implies (#[trigger] shift_items(items, off)[i])
            == shift_item(items[i], off) by {
            if i < items.len() - 1 {
                assert(rest[i] == shift_item(items.drop_last()[i], off));
            }
        }
    }
}

/// A moved list holds the moved entries, in order.
pub proof fn lemma_shift_elements(items: Seq<IndexElementView>, off: u32)
    ensures
        shift_elements(items, off).len() == items.len(),
        forall|i: int|
            0 <= i < items.len() ==> (#[trigger] shift_elements(items, off)[i]) == shift_element(
                items[i],
                off,
            ),
    decreases items.len(),
{
    if items.len() > 0 {
        lemma_shift_elements(items.drop_last(), off);
        let rest = shift_elements(items.drop_last(), off);
        assert forall|i: int|
            0 <= i < items.len() implies (#[trigger] shift_elements(items, off)[i])
            == shift_element(items[i], off) by {
            if i < items.len() - 1 {
                assert(rest[i] == shift_element(items.drop_last()[i], off));
            }
        }
    }
}

/// The views of a list are the views of its entries.
pub proof fn lemma_element_views(items: Seq<IndexElement>)
    ensures
        element_views(items).len() == items.len(),
        forall|i: int|
            0 <= i < items.len() ==> (#[trigger] element_views(items)[i]) == items[i].view(),
    decreases items.len(),
{
    if items.len() > 0 {
        lemma_element_views(items.drop_last());
        let rest = element_views(items.drop_last());
        assert(element_views(items) == rest.push(items.last().view()));
        assert forall|i: int| 0 <= i < items.len() implies (#[trigger] element_views(items)[i])
            == items[i].view() by {
            if i < items.len() - 1 {
                assert(rest[i] == items.drop_last()[i].view());
            }
        }
    } else {
        assert(element_views(items) == Seq::<IndexElementView>::empty());
    }
}

/// A moved list holds the moved entries, in order.
pub proof fn lemma_shift_stmts(items: Seq<StmtView>, off: u32)
    ensures
        shift_stmts(items, off).len() == items.len(),
        forall|i: int|
            0 <= i < items.len() ==> (#[trigger] shift_stmts(items, off)[i]) == shift_stmt(
                items[i],
                off,
            ),
    decreases items.len(),
{
    if items.len() > 0 {
        lemma_shift_stmts(items.drop_last(), off);
        let rest = shift_stmts(items.drop_last(), off);
        assert forall|i: int| 0 <= i < items.len() implies (#[trigger] shift_stmts(items, off)[i])
            == shift_stmt(items[i], off) by {
            if i < items.len() - 1 {
                assert(rest[i] == shift_stmt(items.drop_last()[i], off));
            }
        }
    }
}

/// The views of a list are the views of its entries.
pub proof fn lemma_item_views(items: Seq<IndexSetItem>)
    ensures
        item_views(items).len() == items.len(),
        forall|i: int| 0 <= i < items.len() ==> (#[trigger] item_views(items)[i]) == items[i].view(),
    decreases items.len(),
{
    if items.len() > 0 {
        lemma_item_views(items.drop_last());
        let rest = item_views(items.drop_last());
        assert(item_views(items) == rest.push(items.last().view()));
        assert forall|i: int| 0 <= i < items.len() implies (#[trigger] item_views(items)[i])
            == items[i].view() by {
            if i < items.len() - 1 {
                assert(rest[i] == items.drop_last()[i].view());
            }
        }
    } else {
        assert(item_views(items) == Seq::<IndexSetItemView>::empty());
    }
}

/// The entries of `v` from the last to the first.
pub fn reversed<T>(v: Vec<T>) -> (r: Vec<T>)
    ensures
        r@.len() == v@.len(),
        forall|i: int| 0 <= i < v@.len() ==> r@[i] == v@[v@.len() - 1 - i],
{
    let mut rest = v;
    let mut out: Vec<T> = Vec::new();
    while rest.len() > 0
        invariant
            rest@.len() + out@.len() == v@.len(),
            rest@ == v@.take(rest@.len() as int),
            forall|i: int| 0 <= i < out@.len() ==> out@[i] == v@[v@.len() - 1 - i],
        decreases rest@.len(),
    {
        let x = rest.pop().unwrap();
        out.push(x);
    }
    out
}

/// Moves the span of an identifier.
fn offset_ident(ident: Ident, off: u32) -> (r: Ident)
    ensures
        r@ == shift_ident(ident@, off),
{
    Ident { span: ident.span.with_offset(off), name: ident.name }
}

/// Moves every span of an optional expression.
fn offset_opt(e: Option<Expr>, off: u32) -> (r: Option<Expr>)
    ensures
        (match r {
            Some(x) => Some(x@),
            None => None,
        }) == shift_opt(
            match e {
                Some(x) => Some(x@),
                None => None,
            },
            off,
        ),
    decreases e,
{
    match e {
        Some(e) => Some(offset_expr(e, off)),
        None => None,
    }
}

/// Moves every span of an expression forward by `off` bytes.
pub fn offset_expr(e: Expr, off: u32) -> (r: Expr)
    ensures
        r@ == shift_expr(e@, off),
    decreases e,
{
    let span = e.span;
    let kind = match *e.kind {
        ExprKind::Missing => ExprKind::Missing,
        ExprKind::Ident(ident) => ExprKind::Ident(offset_ident(ident, off)),
        ExprKind::UnaryOp(op, expr) => ExprKind::UnaryOp(op, offset_expr(expr, off)),
        ExprKind::BinaryOp(op, lhs, rhs) => ExprKind::BinaryOp(
            op,
            offset_expr(lhs, off),
            offset_expr(rhs, off),
        ),
        ExprKind::Lit(lit) => ExprKind::Lit(offset_lit(lit, off)),
        ExprKind::FunctionCall(call) => ExprKind::FunctionCall(offset_call(call, off)),
        ExprKind::Cast(cast) => ExprKind::Cast(offset_cast(cast, off)),
        ExprKind::IndexExpr(index) => ExprKind::IndexExpr(offset_index(index, off)),
        ExprKind::Paren(expr) => ExprKind::Paren(offset_expr(expr, off)),
    };
    Expr { span: span.with_offset(off), kind: Box::new(kind) }
}

/// Moves every span of a call.
fn offset_call(call: FunctionCall, off: u32) -> (r: FunctionCall)
    ensures
        r@ == (FunctionCallView {
            span: call@.span.shifted(off),
            name: shift_ident(call@.name, off),
            args: shift_exprs(call@.args, off),
        }),
    decreases call,
{
    FunctionCall {
        span: call.span.with_offset(off),
        name: offset_ident(call.name, off),
        args: offset_exprs(call.args, off),
    }
}

/// Moves every span of a cast.
fn offset_cast(cast: Cast, off: u32) -> (r: Cast)
    ensures
        r@ == (CastView {
            span: cast@.span.shifted(off),
            ty: shift_typedef(cast@.ty, off),
            arg: shift_expr(cast@.arg, off),
        }),
    decreases cast,
{
    Cast {
        span: cast.span.with_offset(off),
        ty: offset_typedef(cast.ty, off),
        arg: offset_expr(cast.arg, off),
    }
}

/// Moves every span of an indexed expression.
fn offset_index(index: IndexExpr, off: u32) -> (r: IndexExpr)
    ensures
        r@ == (IndexExprView {
            span: index@.span.shifted(off),
            collection: shift_expr(index@.collection, off),
            index: shift_element(index@.index, off),
        }),
    decreases index,
{
    IndexExpr {
        span: index.span.with_offset(off),
        collection: offset_expr(index.collection, off),
        index: offset_element(index.index, off),
    }
}

/// Moves every span of a list of expressions.
fn offset_exprs(v: Vec<Expr>, off: u32) -> (r: Vec<Expr>)
    ensures
        expr_views(r@) == shift_exprs(expr_views(v@), off),
    decreases v,
{
    let ghost n = v@.len() as int;
    let ghost views = expr_views(v@);
    proof {
        lemma_expr_views(v@);
    }
    let mut rest = v;
    let mut out: Vec<Expr> = Vec::new();
    while rest.len() > 0
        invariant
            n == v@.len(),
            rest@.len() + out@.len() == n,
            rest@ == v@.take(rest@.len() as int),
            forall|i: int| 0 <= i < out@.len() ==> (#[trigger] out@[i])@ == shift_expr(
                v@[n - 1 - i]@,
                off,
            ),
        decreases rest@.len(),
    {
        let x = rest.pop().unwrap();
        assert(x == v@[rest@.len() as int]);
        let y = offset_expr(x, off);
        out.push(y);
    }
    let r = reversed(out);
    proof {
        lemma_expr_views(r@);
        lemma_shift_exprs(views, off);
        assert(expr_views(r@) =~= shift_exprs(views, off));
    }
    r
}

/// Moves every span of a literal.
fn offset_lit(lit: Lit, off: u32) -> (r: Lit)
    ensures
        r@ == shift_lit(lit@, off),
    decreases lit,
{
    let span = lit.span;
    let kind = match lit.kind {
        LiteralKind::Array(items) => LiteralKind::Array(offset_exprs(items, off)),
        other => other,
    };
    Lit { span: span.with_offset(off), kind }
}

/// Moves every span of a type.
fn offset_type(ty: ScalarType, off: u32) -> (r: ScalarType)
    ensures
        r@ == shift_type(ty@, off),
    decreases ty,
{
    let span = ty.span;
    let kind = match ty.kind {
        ScalarTypeKind::Bit(w) => ScalarTypeKind::Bit(offset_opt(w, off)),
        ScalarTypeKind::Int(w) => ScalarTypeKind::Int(offset_opt(w, off)),
        ScalarTypeKind::UInt(w) => ScalarTypeKind::UInt(offset_opt(w, off)),
        ScalarTypeKind::Float(w) => ScalarTypeKind::Float(offset_opt(w, off)),
        ScalarTypeKind::Angle(w) => ScalarTypeKind::Angle(offset_opt(w, off)),
        ScalarTypeKind::Complex(w) => ScalarTypeKind::Complex(offset_opt(w, off)),
        ScalarTypeKind::BoolType => ScalarTypeKind::BoolType,
        ScalarTypeKind::Duration => ScalarTypeKind::Duration,
        ScalarTypeKind::Stretch => ScalarTypeKind::Stretch,
    };
    ScalarType { span: span.with_offset(off), kind }
}

/// Moves every span of the type of a scalar or of an array.
fn offset_typedef(ty: TypeDef, off: u32) -> (r: TypeDef)
    ensures
        r@ == shift_typedef(ty@, off),
    decreases ty,
{
    match ty {
        TypeDef::Scalar(ty) => TypeDef::Scalar(offset_type(ty, off)),
        TypeDef::Array(ty) => TypeDef::Array(
            ArrayType {
                span: ty.span.with_offset(off),
                base_type: offset_type(ty.base_type, off),
                dimensions: offset_exprs(ty.dimensions, off),
            },
        ),
    }
}

/// Moves every span of an index.
fn offset_element(index: IndexElement, off: u32) -> (r: IndexElement)
    ensures
        r@ == shift_element(index@, off),
    decreases index,
{
    match index {
        IndexElement::DiscreteSet(set) => IndexElement::DiscreteSet(
            DiscreteSet { span: set.span.with_offset(off), values: offset_exprs(set.values, off) },
        ),
        IndexElement::IndexSet(set) => IndexElement::IndexSet(
            IndexSet { span: set.span.with_offset(off), values: offset_items(set.values, off) },
        ),
    }
}

/// Moves every span of an index item.
fn offset_item(item: IndexSetItem, off: u32) -> (r: IndexSetItem)
    ensures
        r@ == shift_item(item@, off),
    decreases item,
{
    match item {
        IndexSetItem::RangeDefinition(range) => IndexSetItem::RangeDefinition(
            RangeDefinition {
                span: range.span.with_offset(off),
                start: offset_opt(range.start, off),
                end: offset_opt(range.end, off),
                step: offset_opt(range.step, off),
            },
        ),
        IndexSetItem::Expr(expr) => IndexSetItem::Expr(offset_expr(expr, off)),
        IndexSetItem::Missing(span) => IndexSetItem::Missing(span.with_offset(off)),
    }
}

/// Moves every span of a list of index items.
fn offset_items(v: Vec<IndexSetItem>, off: u32) -> (r: Vec<IndexSetItem>)
    ensures
        item_views(r@) == shift_items(item_views(v@), off),
    decreases v,
{
    let ghost n = v@.len() as int;
    let ghost views = item_views(v@);
    proof {
        lemma_item_views(v@);
    }
    let mut rest = v;
    let mut out: Vec<IndexSetItem> = Vec::new();
    while rest.len() > 0
        invariant
            n == v@.len(),
            rest@.len() + out@.len() == n,
            rest@ == v@.take(rest@.len() as int),
            forall|i: int| 0 <= i < out@.len() ==> (#[trigger] out@[i])@ == shift_item(
                v@[n - 1 - i]@,
                off,
            ),
        decreases rest@.len(),
    {
        let x = rest.pop().unwrap();
        assert(x == v@[rest@.len() as int]);
        let y = offset_item(x, off);
        out.push(y);
    }
    let r = reversed(out);
    proof {
        lemma_item_views(r@);
        lemma_shift_items(views, off);
        assert(item_views(r@) =~= shift_items(views, off));
    }
    r
}

/// Moves every span of a list of indices.
fn offset_elements(v: Vec<IndexElement>, off: u32) -> (r: Vec<IndexElement>)
    ensures
        element_views(r@) == shift_elements(element_views(v@), off),
{
    let ghost n = v@.len() as int;
    let ghost views = element_views(v@);
    proof {
        lemma_element_views(v@);
    }
    let mut rest = v;
    let mut out: Vec<IndexElement> = Vec::new();
    while rest.len() > 0
        invariant
            n == v@.len(),
            rest@.len() + out@.len() == n,
            rest@ == v@.take(rest@.len() as int),
            forall|i: int| 0 <= i < out@.len() ==> (#[trigger] out@[i])@ == shift_element(
                v@[n - 1 - i]@,
                off,
            ),
        decreases rest@.len(),
    {
        let x = rest.pop().unwrap();
        assert(x == v@[rest@.len() as int]);
        let y = offset_element(x, off);
        out.push(y);
    }
    let r = reversed(out);
    proof {
        lemma_element_views(r@);
        lemma_shift_elements(views, off);
        assert(element_views(r@) =~= shift_elements(views, off));
    }
    r
}

/// Moves every span of an operand.
fn offset_operand(operand: GateOperand, off: u32) -> (r: GateOperand)
    ensures
        r@ == shift_operand(operand@, off),
{
    let span = operand.span;
    let kind = match operand.kind {
        GateOperandKind::IndexedIdent(ident) => {
            let ident = *ident;
            GateOperandKind::IndexedIdent(
                Box::new(
                    IndexedIdent {
                        span: ident.span.with_offset(off),
                        index_span: ident.index_span.with_offset(off),
                        name: offset_ident(ident.name, off),
                        indices: offset_elements(ident.indices, off),
                    },
                ),
            )
        },
        GateOperandKind::HardwareQubit(qubit) => {
            let qubit = *qubit;
            GateOperandKind::HardwareQubit(
                Box::new(HardwareQubit { span: qubit.span.with_offset(off), name: qubit.name }),
            )
        },
    };
    GateOperand { span: span.with_offset(off), kind }
}

/// Moves every span of a value.
fn offset_value(value: ValueExpr, off: u32) -> (r: ValueExpr)
    ensures
        r@ == shift_value(value@, off),
{
    match value {
        ValueExpr::Expr(expr) => ValueExpr::Expr(offset_expr(expr, off)),
        ValueExpr::Measurement(measure) => ValueExpr::Measurement(
            MeasureExpr {
                span: measure.span.with_offset(off),
                measure_token_span: measure.measure_token_span.with_offset(off),
                operand: offset_operand(measure.operand, off),
            },
        ),
    }
}

/// Moves every span of the declaration of a constant.
fn offset_decl(decl: ConstantDeclStmt, off: u32) -> (r: ConstantDeclStmt)
    ensures
        r@ == shift_decl(decl@, off),
{
    let ty = match decl.ty {
        Some(ty) => Some(offset_type(ty, off)),
        None => None,
    };
    ConstantDeclStmt {
        span: decl.span.with_offset(off),
        ty,
        identifier: offset_ident(decl.identifier, off),
        init_expr: offset_value(decl.init_expr, off),
    }
}

/// Moves every span of a statement.
fn offset_stmt(stmt: Stmt, off: u32) -> (r: Stmt)
    ensures
        r@ == shift_stmt(stmt@, off),
{
    let span = stmt.span;
    let kind = match *stmt.kind {
        StmtKind::Include(inc) => StmtKind::Include(
            IncludeStmt { span: inc.span.with_offset(off), filename: inc.filename },
        ),
        StmtKind::ConstDecl(decl) => StmtKind::ConstDecl(offset_decl(decl, off)),
        StmtKind::ExprStmt(expr) => StmtKind::ExprStmt(offset_expr(expr, off)),
        StmtKind::Unparsed => StmtKind::Unparsed,
    };
    Stmt { span: span.with_offset(off), kind: Box::new(kind) }
}

/// Moves every span of a program forward by `off` bytes; offsets wrap at
/// 32 bits.
pub fn offset_program(program: Program, off: u32) -> (r: Program)
    ensures
        r@ == shift_program(program@, off),
{
    let span = program.span;
    let version = match program.version {
        Some(v) => Some(Version { major: v.major, minor: v.minor, span: v.span.with_offset(off) }),
        None => None,
    };
    let ghost v = program.statements@;
    let ghost n = v.len() as int;
    let ghost views = stmt_views(v);
    proof {
        lemma_stmt_views(v);
    }
    let mut rest = program.statements;
    let mut out: Vec<Stmt> = Vec::new();
    while rest.len() > 0
        invariant
            n == v.len(),
            rest@.len() + out@.len() == n,
            rest@ == v.take(rest@.len() as int),
            forall|i: int| 0 <= i < out@.len() ==> (#[trigger] out@[i])@ == shift_stmt(
                v[n - 1 - i]@,
                off,
            ),
        decreases rest@.len(),
    {
        let x = rest.pop().unwrap();
        assert(x == v[rest@.len() as int]);
        let y = offset_stmt(x, off);
        out.push(y);
    }
    let statements = reversed(out);
    proof {
        lemma_stmt_views(statements@);
        lemma_shift_stmts(views, off);
        assert(stmt_views(statements@) =~= shift_stmts(views, off));
    }
    Program { span: span.with_offset(off), statements, version }
}

} // verus!

//! The syntax tree, and the mathematical view of each of its nodes.
//!
//! A node's view holds what the node holds, with sequences in place of
//! vectors and of strings.

use crate::span::Span;
use num_bigint::BigInt;
use vstd::prelude::*;

verus! {

/// `num_bigint::BigInt`: an integer of any size. Nothing is known of a
/// value but what `lit_bigint` says of it.
#[verifier::external_type_specification]
#[verifier::external_body]
pub struct ExBigInt(BigInt);

/// A binary operator.
#[derive(Clone, Copy, Debug, PartialEq, Eq, Structural)]
pub enum BinOp {
    /// `+`
    Add,
    /// `&`
    AndB,
    /// `&&`
    AndL,
    /// `/`
    Div,
    /// `==`
    Eq,
    /// `**`
    Exp,
    /// `>`
    Gt,
    /// `>=`
    Gte,
    /// `<`
    Lt,
    /// `<=`
    Lte,
    /// `%`
    Mod,
    /// `*`
    Mul,
    /// `!=`
    Neq,
    /// `|`
    OrB,
    /// `||`
    OrL,
    /// `<<`
    Shl,
    /// `>>`
    Shr,
    /// `-`
    Sub,
    /// `^`
    XorB,
}

/// A unary operator.
#[derive(Clone, Copy, Debug, PartialEq, Eq, Structural)]
pub enum UnaryOp {
    /// `-`
    Neg,
    /// `~`
    NotB,
    /// `!`
    NotL,
}

/// The unit of a duration.
#[derive(Clone, Copy, Debug, PartialEq, Eq, Structural)]
pub enum TimeUnit {
    Dt,
    Ns,
    Us,
    Ms,
    S,
}

/// The version that a program declares.
#[derive(Clone, Copy, Debug, PartialEq, Eq, Structural)]
pub struct Version {
    pub major: u32,
    pub minor: Option<u32>,
    pub span: Span,
}

/// An identifier.
#[derive(Debug, PartialEq, Eq)]
pub struct Ident {
    pub span: Span,
    pub name: String,
}

/// What a value of `Ident` holds, as mathematical values.
pub struct IdentView {
    pub span: Span,
    pub name: Seq<char>,
}

impl View for Ident {
    type V = IdentView;

    open spec fn view(&self) -> IdentView {
        IdentView { span: self.span, name: self.name@ }
    }
}

/// A literal.
#[derive(Debug, PartialEq, Eq)]
pub struct Lit {
    pub span: Span,
    pub kind: LiteralKind,
}

/// The value of a literal. A floating-point value is held as its decimal
/// text, without underscores.
#[derive(Debug, PartialEq, Eq)]
pub enum LiteralKind {
    Array(Vec<Expr>),
    /// The value of the bits and their number.
    Bitstring(BigInt, u32),
    Bool(bool),
    Duration(String, TimeUnit),
    Float(String),
    Imaginary(String),
    Int(i64),
    /// An integer that does not fit into 64 bits.
    BigInt(BigInt),
    String(String),
}

/// What a value of `Lit` holds, as mathematical values.
pub struct LitView {
    pub span: Span,
    pub kind: LiteralKindView,
}

/// What a value of `LiteralKind` holds, as mathematical values.
pub enum LiteralKindView {
    Array(Seq<ExprView>),
    Bitstring(BigInt, u32),
    Bool(bool),
    Duration(Seq<char>, TimeUnit),
    Float(Seq<char>),
    Imaginary(Seq<char>),
    Int(i64),
    BigInt(BigInt),
    String(Seq<char>),
}

impl View for Lit {
    type V = LitView;

    open spec fn view(&self) -> LitView
        decreases self,
    {
        LitView {
            span: self.span,
            kind: match self.kind {
                LiteralKind::Array(items) => LiteralKindView::Array(expr_views(items@)),
                LiteralKind::Bitstring(value, width) => LiteralKindView::Bitstring(value, width),
                LiteralKind::Bool(value) => LiteralKindView::Bool(value),
                LiteralKind::Duration(value, unit) => LiteralKindView::Duration(value@, unit),
                LiteralKind::Float(value) => LiteralKindView::Float(value@),
                LiteralKind::Imaginary(value) => LiteralKindView::Imaginary(value@),
                LiteralKind::Int(value) => LiteralKindView::Int(value),
                LiteralKind::BigInt(value) => LiteralKindView::BigInt(value),
                LiteralKind::String(value) => LiteralKindView::String(value@),
            },
        }
    }
}

/// An expression.
#[derive(Debug, PartialEq, Eq)]
pub struct Expr {
    pub span: Span,
    pub kind: Box<ExprKind>,
}

/// The form of an expression.
#[derive(Debug, PartialEq, Eq)]
pub enum ExprKind {
    /// The place of an expression that is missing.
    Missing,
    Ident(Ident),
    UnaryOp(UnaryOp, Expr),
    BinaryOp(BinOp, Expr, Expr),
    Lit(Lit),
    FunctionCall(FunctionCall),
    Cast(Cast),
    IndexExpr(IndexExpr),
    Paren(Expr),
}

/// What a value of `Expr` holds, as mathematical values.
pub struct ExprView {
    pub span: Span,
    pub kind: Box<ExprKindView>,
}

/// What a value of `ExprKind` holds, as mathematical values.
pub enum ExprKindView {
    Missing,
    Ident(IdentView),
    UnaryOp(UnaryOp, ExprView),
    BinaryOp(BinOp, ExprView, ExprView),
    Lit(LitView),
    FunctionCall(FunctionCallView),
    Cast(CastView),
    IndexExpr(IndexExprView),
    Paren(ExprView),
}

impl View for Expr {
    type V = ExprView;

    open spec fn view(&self) -> ExprView
        decreases self,
    {
        ExprView {
            span: self.span,
            kind: Box::new(
                match *self.kind {
                    ExprKind::Missing => ExprKindView::Missing,
                    ExprKind::Ident(ident) => ExprKindView::Ident(ident.view()),
                    ExprKind::UnaryOp(op, expr) => ExprKindView::UnaryOp(op, expr.view()),
                    ExprKind::BinaryOp(op, lhs, rhs) => ExprKindView::BinaryOp(
                        op,
                        lhs.view(),
                        rhs.view(),
                    ),
                    ExprKind::Lit(lit) => ExprKindView::Lit(lit.view()),
                    ExprKind::FunctionCall(call) => ExprKindView::FunctionCall(call.view()),
                    ExprKind::Cast(cast) => ExprKindView::Cast(cast.view()),
                    ExprKind::IndexExpr(index) => ExprKindView::IndexExpr(index.view()),
                    ExprKind::Paren(expr) => ExprKindView::Paren(expr.view()),
                },
            ),
        }
    }
}

/// The views of a list of expressions.
pub open spec fn expr_views(items: Seq<Expr>) -> Seq<ExprView>
    decreases items,
{
    if items.len() == 0 {
        Seq::empty()
    } else {
        expr_views(items.drop_last()).push(items.last().view())
    }
}

/// The views of a list are the views of its entries.
pub proof fn lemma_expr_views(items: Seq<Expr>)
    ensures
        expr_views(items).len() == items.len(),
        forall|i: int| 0 <= i < items.len() ==> (#[trigger] expr_views(items)[i]) == items[i].view(),
    decreases items.len(),
{
    if items.len() > 0 {
        lemma_expr_views(items.drop_last());
        let rest = expr_views(items.drop_last());
        assert(expr_views(items) == rest.push(items.last().view()));
        assert forall|i: int| 0 <= i < items.len() implies (#[trigger] expr_views(items)[i])
            == items[i].view() by {
            if i < items.len() - 1 {
                assert(rest[i] == items.drop_last()[i].view());
            }
        }
    } else {
        assert(expr_views(items) == Seq::<ExprView>::empty());
    }
}

/// The call of a function.
#[derive(Debug, PartialEq, Eq)]
pub struct FunctionCall {
    pub span: Span,
    pub name: Ident,
    pub args: Vec<Expr>,
}

/// What a value of `FunctionCall` holds, as mathematical values.
pub struct FunctionCallView {
    pub span: Span,
    pub name: IdentView,
    pub args: Seq<ExprView>,
}

impl View for FunctionCall {
    type V = FunctionCallView;

    open spec fn view(&self) -> FunctionCallView
        decreases self,
    {
        FunctionCallView {
            span: self.span,
            name: self.name.view(),
            args: expr_views(self.args@),
        }
    }
}

/// A scalar type with the expression of its width, where it names one.
#[derive(Debug, PartialEq, Eq)]
pub struct ScalarType {
    pub span: Span,
    pub kind: ScalarTypeKind,
}

/// The kinds of scalar types.
#[derive(Debug, PartialEq, Eq)]
pub enum ScalarTypeKind {
    Bit(Option<Expr>),
    Int(Option<Expr>),
    UInt(Option<Expr>),
    Float(Option<Expr>),
    Angle(Option<Expr>),
    /// A complex number, with the width of its floating-point parts.
    Complex(Option<Expr>),
    BoolType,
    Duration,
    Stretch,
}

/// What a value of `ScalarType` holds, as mathematical values.
pub struct ScalarTypeView {
    pub span: Span,
    pub kind: ScalarTypeKindView,
}

/// What a value of `ScalarTypeKind` holds, as mathematical values.
pub enum ScalarTypeKindView {
    Bit(Option<ExprView>),
    Int(Option<ExprView>),
    UInt(Option<ExprView>),
    Float(Option<ExprView>),
    Angle(Option<ExprView>),
    Complex(Option<ExprView>),
    BoolType,
    Duration,
    Stretch,
}

impl View for ScalarType {
    type V = ScalarTypeView;

    open spec fn view(&self) -> ScalarTypeView
        decreases self,
    {
        ScalarTypeView {
            span: self.span,
            kind: match self.kind {
                ScalarTypeKind::Bit(Some(e)) => ScalarTypeKindView::Bit(Some(e.view())),
                ScalarTypeKind::Bit(None) => ScalarTypeKindView::Bit(None),
                ScalarTypeKind::Int(Some(e)) => ScalarTypeKindView::Int(Some(e.view())),
                ScalarTypeKind::Int(None) => ScalarTypeKindView::Int(None),
                ScalarTypeKind::UInt(Some(e)) => ScalarTypeKindView::UInt(Some(e.view())),
                ScalarTypeKind::UInt(None) => ScalarTypeKindView::UInt(None),
                ScalarTypeKind::Float(Some(e)) => ScalarTypeKindView::Float(Some(e.view())),
                ScalarTypeKind::Float(None) => ScalarTypeKindView::Float(None),
                ScalarTypeKind::Angle(Some(e)) => ScalarTypeKindView::Angle(Some(e.view())),
                ScalarTypeKind::Angle(None) => ScalarTypeKindView::Angle(None),
                ScalarTypeKind::Complex(Some(e)) => ScalarTypeKindView::Complex(Some(e.view())),
                ScalarTypeKind::Complex(None) => ScalarTypeKindView::Complex(None),
                ScalarTypeKind::BoolType => ScalarTypeKindView::BoolType,
                ScalarTypeKind::Duration => ScalarTypeKindView::Duration,
                ScalarTypeKind::Stretch => ScalarTypeKindView::Stretch,
            },
        }
    }
}

/// The type of an array: the type of its entries and its dimensions.
#[derive(Debug, PartialEq, Eq)]
pub struct ArrayType {
    pub span: Span,
    pub base_type: ScalarType,
    pub dimensions: Vec<Expr>,
}

/// What a value of `ArrayType` holds, as mathematical values.
pub struct ArrayTypeView {
    pub span: Span,
    pub base_type: ScalarTypeView,
    pub dimensions: Seq<ExprView>,
}

impl View for ArrayType {
    type V = ArrayTypeView;

    open spec fn view(&self) -> ArrayTypeView
        decreases self,
    {
        ArrayTypeView {
            span: self.span,
            base_type: self.base_type.view(),
            dimensions: expr_views(self.dimensions@),
        }
    }
}

/// A type: that of a scalar or that of an array.
#[derive(Debug, PartialEq, Eq)]
pub enum TypeDef {
    Scalar(ScalarType),
    Array(ArrayType),
}

/// What a value of `TypeDef` holds, as mathematical values.
pub enum TypeDefView {
    Scalar(ScalarTypeView),
    Array(ArrayTypeView),
}

impl TypeDefView {
    /// The place of the type in the source.
    pub open spec fn span(self) -> Span {
        match self {
            TypeDefView::Scalar(ty) => ty.span,
            TypeDefView::Array(ty) => ty.span,
        }
    }
}

impl View for TypeDef {
    type V = TypeDefView;

    open spec fn view(&self) -> TypeDefView
        decreases self,
    {
        match self {
            TypeDef::Scalar(ty) => TypeDefView::Scalar(ty.view()),
            TypeDef::Array(ty) => TypeDefView::Array(ty.view()),
        }
    }
}

impl TypeDef {
    /// The place of the type in the source.
    pub fn span(&self) -> (r: Span)
        ensures
            r == self@.span(),
    {
        match self {
            TypeDef::Scalar(ty) => ty.span,
            TypeDef::Array(ty) => ty.span,
        }
    }
}

/// A cast of an expression to a type.
#[derive(Debug, PartialEq, Eq)]
pub struct Cast {
    pub span: Span,
    pub ty: TypeDef,
    pub arg: Expr,
}

/// What a value of `Cast` holds, as mathematical values.
pub struct CastView {
    pub span: Span,
    pub ty: TypeDefView,
    pub arg: ExprView,
}

impl View for Cast {
    type V = CastView;

    open spec fn view(&self) -> CastView
        decreases self,
    {
        CastView { span: self.span, ty: self.ty.view(), arg: self.arg.view() }
    }
}

/// A range `start : step : end`, each part of which may be missing.
#[derive(Debug, PartialEq, Eq)]
pub struct RangeDefinition {
    pub span: Span,
    pub start: Option<Expr>,
    pub end: Option<Expr>,
    pub step: Option<Expr>,
}

/// What a value of `RangeDefinition` holds, as mathematical values.
pub struct RangeDefinitionView {
    pub span: Span,
    pub start: Option<ExprView>,
    pub end: Option<ExprView>,
    pub step: Option<ExprView>,
}

impl View for RangeDefinition {
    type V = RangeDefinitionView;

    open spec fn view(&self) -> RangeDefinitionView
        decreases self,
    {
        RangeDefinitionView {
            span: self.span,
            start: match self.start {
                Some(e) => Some(e.view()),
                None => None,
            },
            end: match self.end {
                Some(e) => Some(e.view()),
                None => None,
            },
            step: match self.step {
                Some(e) => Some(e.view()),
                None => None,
            },
        }
    }
}

/// One item between the brackets of an index.
#[derive(Debug, PartialEq, Eq)]
pub enum IndexSetItem {
    RangeDefinition(RangeDefinition),
    Expr(Expr),
    /// The place of an item that is missing.
    Missing(Span),
}

/// What a value of `IndexSetItem` holds, as mathematical values.
pub enum IndexSetItemView {
    RangeDefinition(RangeDefinitionView),
    Expr(ExprView),
    Missing(Span),
}

impl View for IndexSetItem {
    type V = IndexSetItemView;

    open spec fn view(&self) -> IndexSetItemView
        decreases self,
    {
        match self {
            IndexSetItem::RangeDefinition(range) => IndexSetItemView::RangeDefinition(range.view()),
            IndexSetItem::Expr(expr) => IndexSetItemView::Expr(expr.view()),
            IndexSetItem::Missing(span) => IndexSetItemView::Missing(*span),
        }
    }
}

/// The views of a list of index items.
pub open spec fn item_views(items: Seq<IndexSetItem>) -> Seq<IndexSetItemView>
    decreases items,
{
    if items.len() == 0 {
        Seq::empty()
    } else {
        item_views(items.drop_last()).push(items.last().view())
    }
}

/// A set of values in braces.
#[derive(Debug, PartialEq, Eq)]
pub struct DiscreteSet {
    pub span: Span,
    pub values: Vec<Expr>,
}

/// What a value of `DiscreteSet` holds, as mathematical values.
pub struct DiscreteSetView {
    pub span: Span,
    pub values: Seq<ExprView>,
}

impl View for DiscreteSet {
    type V = DiscreteSetView;

    open spec fn view(&self) -> DiscreteSetView
        decreases self,
    {
        DiscreteSetView { span: self.span, values: expr_views(self.values@) }
    }
}

/// A list of expressions and ranges.
#[derive(Debug, PartialEq, Eq)]
pub struct IndexSet {
    pub span: Span,
    pub values: Vec<IndexSetItem>,
}

/// What a value of `IndexSet` holds, as mathematical values.
pub struct IndexSetView {
    pub span: Span,
    pub values: Seq<IndexSetItemView>,
}

impl View for IndexSet {
    type V = IndexSetView;

    open spec fn view(&self) -> IndexSetView
        decreases self,
    {
        IndexSetView { span: self.span, values: item_views(self.values@) }
    }
}

/// What stands between the brackets of an index.
#[derive(Debug, PartialEq, Eq)]
pub enum IndexElement {
    DiscreteSet(DiscreteSet),
    IndexSet(IndexSet),
}

/// What a value of `IndexElement` holds, as mathematical values.
pub enum IndexElementView {
    DiscreteSet(DiscreteSetView),
    IndexSet(IndexSetView),
}

impl View for IndexElement {
    type V = IndexElementView;

    open spec fn view(&self) -> IndexElementView
        decreases self,
    {
        match self {
            IndexElement::DiscreteSet(set) => IndexElementView::DiscreteSet(set.view()),
            IndexElement::IndexSet(set) => IndexElementView::IndexSet(set.view()),
        }
    }
}

/// The views of a list of index elements.
pub open spec fn element_views(items: Seq<IndexElement>) -> Seq<IndexElementView>
    decreases items.len(),
{
    if items.len() == 0 {
        Seq::empty()
    } else {
        element_views(items.drop_last()).push(items.last().view())
    }
}

/// An expression with an index applied to it.
#[derive(Debug, PartialEq, Eq)]
pub struct IndexExpr {
    pub span: Span,
    pub collection: Expr,
    pub index: IndexElement,
}

/// What a value of `IndexExpr` holds, as mathematical values.
pub struct IndexExprView {
    pub span: Span,
    pub collection: ExprView,
    pub index: IndexElementView,
}

impl View for IndexExpr {
    type V = IndexExprView;

    open spec fn view(&self) -> IndexExprView
        decreases self,
    {
        IndexExprView {
            span: self.span,
            collection: self.collection.view(),
            index: self.index.view(),
        }
    }
}

/// A hardware qubit, named by its number.
#[derive(Debug, PartialEq, Eq)]
pub struct HardwareQubit {
    pub span: Span,
    pub name: String,
}

/// What a value of `HardwareQubit` holds, as mathematical values.
pub struct HardwareQubitView {
    pub span: Span,
    pub name: Seq<char>,
}

impl View for HardwareQubit {
    type V = HardwareQubitView;

    open spec fn view(&self) -> HardwareQubitView {
        HardwareQubitView { span: self.span, name: self.name@ }
    }
}

/// An identifier with any number of indices applied to it.
#[derive(Debug, PartialEq, Eq)]
pub struct IndexedIdent {
    pub span: Span,
    /// The span of the indices, empty at zero where there is none.
    pub index_span: Span,
    pub name: Ident,
    pub indices: Vec<IndexElement>,
}

/// What a value of `IndexedIdent` holds, as mathematical values.
pub struct IndexedIdentView {
    pub span: Span,
    pub index_span: Span,
    pub name: IdentView,
    pub indices: Seq<IndexElementView>,
}

impl View for IndexedIdent {
    type V = IndexedIdentView;

    open spec fn view(&self) -> IndexedIdentView {
        IndexedIdentView {
            span: self.span,
            index_span: self.index_span,
            name: self.name.view(),
            indices: element_views(self.indices@),
        }
    }
}

/// The operand of a gate or of a measurement.
#[derive(Debug, PartialEq, Eq)]
pub struct GateOperand {
    pub span: Span,
    pub kind: GateOperandKind,
}

/// The kinds of operands.
#[derive(Debug, PartialEq, Eq)]
pub enum GateOperandKind {
    IndexedIdent(Box<IndexedIdent>),
    HardwareQubit(Box<HardwareQubit>),
}

/// What a value of `GateOperand` holds, as mathematical values.
pub struct GateOperandView {
    pub span: Span,
    pub kind: GateOperandKindView,
}

/// What a value of `GateOperandKind` holds, as mathematical values.
pub enum GateOperandKindView {
    IndexedIdent(IndexedIdentView),
    HardwareQubit(HardwareQubitView),
}

impl View for GateOperand {
    type V = GateOperandView;

    open spec fn view(&self) -> GateOperandView {
        GateOperandView {
            span: self.span,
            kind: match self.kind {
                GateOperandKind::IndexedIdent(ident) => GateOperandKindView::IndexedIdent(
                    ident.view(),
                ),
                GateOperandKind::HardwareQubit(qubit) => GateOperandKindView::HardwareQubit(
                    qubit.view(),
                ),
            },
        }
    }
}

/// A measurement of an operand.
#[derive(Debug, PartialEq, Eq)]
pub struct MeasureExpr {
    pub span: Span,
    /// The span of the word `measure`.
    pub measure_token_span: Span,
    pub operand: GateOperand,
}

/// What a value of `MeasureExpr` holds, as mathematical values.
pub struct MeasureExprView {
    pub span: Span,
    pub measure_token_span: Span,
    pub operand: GateOperandView,
}

impl View for MeasureExpr {
    type V = MeasureExprView;

    open spec fn view(&self) -> MeasureExprView {
        MeasureExprView {
            span: self.span,
            measure_token_span: self.measure_token_span,
            operand: self.operand.view(),
        }
    }
}

/// What a declaration, an assignment or a `return` takes as its value.
#[derive(Debug, PartialEq, Eq)]
pub enum ValueExpr {
    Expr(Expr),
    Measurement(MeasureExpr),
}

/// What a value of `ValueExpr` holds, as mathematical values.
pub enum ValueExprView {
    Expr(ExprView),
    Measurement(MeasureExprView),
}

impl View for ValueExpr {
    type V = ValueExprView;

    open spec fn view(&self) -> ValueExprView {
        match self {
            ValueExpr::Expr(expr) => ValueExprView::Expr(expr.view()),
            ValueExpr::Measurement(measure) => ValueExprView::Measurement(measure.view()),
        }
    }
}

/// The inclusion of another source.
#[derive(Debug, PartialEq, Eq)]
pub struct IncludeStmt {
    pub span: Span,
    pub filename: String,
}

/// What a value of `IncludeStmt` holds, as mathematical values.
pub struct IncludeStmtView {
    pub span: Span,
    pub filename: Seq<char>,
}

impl View for IncludeStmt {
    type V = IncludeStmtView;

    open spec fn view(&self) -> IncludeStmtView {
        IncludeStmtView { span: self.span, filename: self.filename@ }
    }
}

/// The declaration of a constant: `const`, an optional type, the name,
/// `=`, and the value.
#[derive(Debug, PartialEq, Eq)]
pub struct ConstantDeclStmt {
    pub span: Span,
    pub ty: Option<ScalarType>,
    pub identifier: Ident,
    pub init_expr: ValueExpr,
}

/// What a value of `ConstantDeclStmt` holds, as mathematical values.
pub struct ConstantDeclStmtView {
    pub span: Span,
    pub ty: Option<ScalarTypeView>,
    pub identifier: IdentView,
    pub init_expr: ValueExprView,
}

impl View for ConstantDeclStmt {
    type V = ConstantDeclStmtView;

    open spec fn view(&self) -> ConstantDeclStmtView {
        ConstantDeclStmtView {
            span: self.span,
            ty: match self.ty {
                Some(ty) => Some(ty.view()),
                None => None,
            },
            identifier: self.identifier.view(),
            init_expr: self.init_expr.view(),
        }
    }
}

/// A statement.
#[derive(Debug, PartialEq, Eq)]
pub struct Stmt {
    pub span: Span,
    pub kind: Box<StmtKind>,
}

/// The kinds of statements.
#[derive(Debug, PartialEq, Eq)]
pub enum StmtKind {
    Include(IncludeStmt),
    ConstDecl(ConstantDeclStmt),
    ExprStmt(Expr),
    /// Tokens that are no statement.
    Unparsed,
}

/// What a value of `Stmt` holds, as mathematical values.
pub struct StmtView {
    pub span: Span,
    pub kind: StmtKindView,
}

/// What a value of `StmtKind` holds, as mathematical values.
pub enum StmtKindView {
    Include(IncludeStmtView),
    ConstDecl(ConstantDeclStmtView),
    ExprStmt(ExprView),
    Unparsed,
}

impl View for Stmt {
    type V = StmtView;

    open spec fn view(&self) -> StmtView {
        StmtView {
            span: self.span,
            kind: match *self.kind {
                StmtKind::Include(inc) => StmtKindView::Include(inc.view()),
                StmtKind::ConstDecl(decl) => StmtKindView::ConstDecl(decl.view()),
                StmtKind::ExprStmt(expr) => StmtKindView::ExprStmt(expr.view()),
                StmtKind::Unparsed => StmtKindView::Unparsed,
            },
        }
    }
}

/// The views of a list of statements.
pub open spec fn stmt_views(items: Seq<Stmt>) -> Seq<StmtView>
    decreases items.len(),
{
    if items.len() == 0 {
        Seq::empty()
    } else {
        stmt_views(items.drop_last()).push(items.last().view())
    }
}

/// The views of a list are the views of its entries.
pub proof fn lemma_stmt_views(items: Seq<Stmt>)
    ensures
        stmt_views(items).len() == items.len(),
        forall|i: int| 0 <= i < items.len() ==> (#[trigger] stmt_views(items)[i]) == items[i].view(),
    decreases items.len(),
{
    if items.len() > 0 {
        lemma_stmt_views(items.drop_last());
        let rest = stmt_views(items.drop_last());
        assert forall|i: int| 0 <= i < items.len() implies (#[trigger] stmt_views(items)[i])
            == items[i].view() by {
            if i < items.len() - 1 {
                assert(rest[i] == items.drop_last()[i].view());
            }
        }
    }
}

/// One source as it was parsed: its statements in order, and the version
/// it declares.
#[derive(Debug, PartialEq, Eq)]
pub struct Program {
    pub span: Span,
    pub statements: Vec<Stmt>,
    pub version: Option<Version>,
}

/// What a value of `Program` holds, as mathematical values.
pub struct ProgramView {
    pub span: Span,
    pub statements: Seq<StmtView>,
    pub version: Option<Version>,
}

impl View for Program {
    type V = ProgramView;

    open spec fn view(&self) -> ProgramView {
        ProgramView {
            span: self.span,
            statements: stmt_views(self.statements@),
            version: self.version,
        }
    }
}

} // verus!

use qasm3_front::lex::{ClosedBinOp, Delim, TokenKind};
use qasm3_front::parser::ast::{
    BinOp, Expr, ExprKind, GateOperandKind, IndexElement, IndexSetItem, LiteralKind, ScalarType,
    ScalarTypeKind, TypeDef, UnaryOp, ValueExpr,
};
use qasm3_front::parser::error::{Error, ErrorKind};
use qasm3_front::parser::expr::{
    alias_expr, closed_bin_op, const_declaration_expr, declaration_expr, expr, expr_list,
    expr_or_measurement, expr_with_lhs, gate_operand, indexed_identifier, infix_op, lit_array,
    array_type, measure_expr, next_precedence, op_name, opt_type, prefix_op, scalar_or_array_type,
    scalar_type, version,
};
use qasm3_front::parser::grammar::{Assoc, InfixOp, OpKind, OpName, PrefixOp};
use qasm3_front::parser::scan::ParserContext;
use qasm3_front::span::Span;

fn show_scalar(ty: &ScalarType) -> String {
    let (name, width) = match &ty.kind {
        ScalarTypeKind::Bit(w) => ("bit", opt(w)),
        ScalarTypeKind::Int(w) => ("int", opt(w)),
        ScalarTypeKind::UInt(w) => ("uint", opt(w)),
        ScalarTypeKind::Float(w) => ("float", opt(w)),
        ScalarTypeKind::Angle(w) => ("angle", opt(w)),
        ScalarTypeKind::Complex(w) => ("complex", opt(w)),
        ScalarTypeKind::BoolType => ("bool", "_".to_string()),
        ScalarTypeKind::Duration => ("duration", "_".to_string()),
        ScalarTypeKind::Stretch => ("stretch", "_".to_string()),
    };
    format!("{name}[{width}]")
}

fn show_type(ty: &TypeDef) -> String {
    match ty {
        TypeDef::Scalar(ty) => show_scalar(ty),
        TypeDef::Array(ty) => {
            format!("array[{}, {}]", show_scalar(&ty.base_type), list(&ty.dimensions))
        }
    }
}

fn op(o: BinOp) -> &'static str {
    match o {
        BinOp::Add => "+",
        BinOp::AndB => "&",
        BinOp::AndL => "&&",
        BinOp::Div => "/",
        BinOp::Eq => "==",
        BinOp::Exp => "**",
        BinOp::Gt => ">",
        BinOp::Gte => ">=",
        BinOp::Lt => "<",
        BinOp::Lte => "<=",
        BinOp::Mod => "%",
        BinOp::Mul => "*",
        BinOp::Neq => "!=",
        BinOp::OrB => "|",
        BinOp::OrL => "||",
        BinOp::Shl => "<<",
        BinOp::Shr => ">>",
        BinOp::Sub => "-",
        BinOp::XorB => "^",
    }
}

fn list(items: &[Expr]) -> String {
    items.iter().map(show).collect::<Vec<_>>().join(" ")
}

fn opt(e: &Option<Expr>) -> String {
    e.as_ref().map_or("_".to_string(), show)
}

fn show_index(index: &IndexElement) -> String {
    match index {
        IndexElement::DiscreteSet(set) => format!("{{{}}}", list(&set.values)),
        IndexElement::IndexSet(set) => set
            .values
            .iter()
            .map(|item| match item {
                IndexSetItem::Expr(e) => show(e),
                IndexSetItem::RangeDefinition(r) => {
                    format!("{}:{}:{}", opt(&r.start), opt(&r.step), opt(&r.end))
                }
                IndexSetItem::Missing(_) => "?".to_string(),
            })
            .collect::<Vec<_>>()
            .join(", "),
    }
}

fn show(e: &Expr) -> String {
    match &*e.kind {
        ExprKind::Missing => "?".to_string(),
        ExprKind::Ident(id) => id.name.clone(),
        ExprKind::UnaryOp(o, x) => {
            let o = match o {
                UnaryOp::Neg => "-",
                UnaryOp::NotB => "~",
                UnaryOp::NotL => "!",
            };
            format!("({o} {})", show(x))
        }
        ExprKind::BinaryOp(o, l, r) => format!("({} {} {})", op(*o), show(l), show(r)),
        ExprKind::Lit(l) => match &l.kind {
            LiteralKind::Int(v) => format!("{v}"),
            LiteralKind::Bool(v) => format!("{v}"),
            LiteralKind::Float(v) => v.clone(),
            LiteralKind::String(v) => format!("{v:?}"),
            LiteralKind::Array(items) => format!("{{{}}}", list(items)),
            other => format!("{other:?}"),
        },
        ExprKind::FunctionCall(c) => format!("(call {} [{}])", c.name.name, list(&c.args)),
        ExprKind::Cast(c) => format!("(cast {} {})", show_type(&c.ty), show(&c.arg)),
        ExprKind::IndexExpr(i) => format!("(index {} [{}])", show(&i.collection), show_index(&i.index)),
        ExprKind::Paren(x) => format!("(paren {})", show(x)),
    }
}

fn parse(input: &str) -> (Result<Expr, Error>, ParserContext) {
    let mut s = ParserContext::new(input);
    let r = expr(&mut s);
    (r, s)
}

fn tree(input: &str) -> String {
    let (r, s) = parse(input);
    let e = r.unwrap_or_else(|e| panic!("{input}: {e:?}"));
    assert_eq!(s.peek().kind, TokenKind::Eof, "{input}");
    assert_eq!(s.into_errors(), vec![], "{input}");
    show(&e)
}

fn error(input: &str) -> ErrorKind {
    parse(input).0.unwrap_err().0
}

#[test]
fn multiplication_binds_tighter_than_addition() {
    assert_eq!(tree("a + b * c"), "(+ a (* b c))");
    assert_eq!(tree("a * b + c"), "(+ (* a b) c)");
    assert_eq!(tree("a + b / c - d % e"), "(- (+ a (/ b c)) (% d e))");
}

#[test]
fn exponentiation_groups_to_the_right() {
    assert_eq!(tree("a ** b ** c"), "(** a (** b c))");
    assert_eq!(tree("a ** b ** c ** d"), "(** a (** b (** c d)))");
    assert_eq!(tree("a * b ** c"), "(* a (** b c))");
}

#[test]
fn subtraction_groups_to_the_left() {
    assert_eq!(tree("a - b - c"), "(- (- a b) c)");
    assert_eq!(tree("a / b / c"), "(/ (/ a b) c)");
    assert_eq!(tree("a << b >> c"), "(>> (<< a b) c)");
    assert_eq!(tree("a == b != c"), "(!= (== a b) c)");
}

#[test]
fn index_applies_to_a_call() {
    assert_eq!(tree("f(x)[0]"), "(index (call f [x]) [0])");
    assert_eq!(tree("a[0][1]"), "(index (index a [0]) [1])");
    assert_eq!(tree("f(x, y + 1)"), "(call f [x (+ y 1)])");
    assert_eq!(tree("f()"), "(call f [])");
    assert_eq!(tree("f(x,)"), "(call f [x])");
    assert_eq!(tree("-f(x)[0] ** 2"), "(- (** (index (call f [x]) [0]) 2))");
}

#[test]
fn every_level_of_precedence() {
    assert_eq!(
        tree("a || b && c ^ d | e & f == g < h << i + j * k ** l"),
        "(|| a (&& b (^ c (| d (& e (== f (< g (<< h (+ i (* j (** k l)))))))))))"
    );
    assert_eq!(
        tree("a ** b * c + d << e < f == g & h | i ^ j && k || l"),
        "(|| (&& (^ (| (& (== (< (<< (+ (* (** a b) c) d) e) f) g) h) i) j) k) l)"
    );
    assert_eq!(tree("a <= b > c >= d"), "(>= (> (<= a b) c) d)");
}

#[test]
fn prefix_operators() {
    assert_eq!(tree("-a"), "(- a)");
    assert_eq!(tree("!a"), "(! a)");
    assert_eq!(tree("~a"), "(~ a)");
    assert_eq!(tree("- - a"), "(- (- a))");
    assert_eq!(tree("!~-a"), "(! (~ (- a)))");
    // tighter than multiplication, looser than exponentiation
    assert_eq!(tree("-a * b"), "(* (- a) b)");
    assert_eq!(tree("-a ** b"), "(- (** a b))");
    assert_eq!(tree("a - -b"), "(- a (- b))");
    assert_eq!(tree("-a[0]"), "(- (index a [0]))");
}

#[test]
fn parentheses() {
    assert_eq!(tree("(a + b) * c"), "(* (paren (+ a b)) c)");
    assert_eq!(tree("((a))"), "(paren (paren a))");
    assert_eq!(
        error("(a, b)"),
        ErrorKind::Convert("parenthesized expression", "expression list", Span { lo: 0, hi: 6 })
    );
    assert_eq!(
        error("(a,)"),
        ErrorKind::Convert("parenthesized expression", "expression list", Span { lo: 0, hi: 4 })
    );
    assert_eq!(
        error("()"),
        ErrorKind::Convert("parenthesized expression", "expression list", Span { lo: 0, hi: 2 })
    );
    assert_eq!(
        error("(a"),
        ErrorKind::Token(TokenKind::Close(Delim::Paren), TokenKind::Eof, Span { lo: 2, hi: 2 })
    );
}

#[test]
fn a_call_needs_an_identifier() {
    assert_eq!(error("1(x)"), ErrorKind::Convert("identifier", "", Span { lo: 0, hi: 1 }));
    assert_eq!(error("(f)(x)"), ErrorKind::Convert("identifier", "", Span { lo: 0, hi: 3 }));
    assert_eq!(error("f(x)(y)"), ErrorKind::Convert("identifier", "", Span { lo: 0, hi: 4 }));
    assert_eq!(error("a[0](y)"), ErrorKind::Convert("identifier", "", Span { lo: 0, hi: 4 }));
}

#[test]
fn literals_in_expressions() {
    assert_eq!(tree("1 + 0x10"), "(+ 1 16)");
    assert_eq!(tree("true && false"), "(&& true false)");
    assert_eq!(tree("1.5 * x"), "(* 1.5 x)");
    assert_eq!(tree("\"a\\tb\""), "\"a\\tb\"");
    assert_eq!(tree("pi * 2"), "(* pi 2)");
    let (r, mut s) = parse("\"a\\q\" + 1");
    assert_eq!(r.unwrap_err().0, ErrorKind::Escape('q', Span { lo: 3, hi: 4 }));
    // the cursor has passed the literal
    assert_eq!(s.peek().kind, TokenKind::ClosedBinOp(ClosedBinOp::Plus));
    s.advance();
}

#[test]
fn spans_of_expressions() {
    let (r, _) = parse("a + b * c");
    let e = r.unwrap();
    assert_eq!(e.span, Span { lo: 0, hi: 9 });
    match *e.kind {
        ExprKind::BinaryOp(BinOp::Add, l, r) => {
            assert_eq!(l.span, Span { lo: 0, hi: 1 });
            assert_eq!(r.span, Span { lo: 4, hi: 9 });
        }
        other => panic!("{other:?}"),
    }
    let (r, _) = parse("  -f(x)[0]");
    let e = r.unwrap();
    assert_eq!(e.span, Span { lo: 2, hi: 10 });
    match *e.kind {
        ExprKind::UnaryOp(UnaryOp::Neg, inner) => {
            assert_eq!(inner.span, Span { lo: 3, hi: 10 });
            match *inner.kind {
                ExprKind::IndexExpr(index) => {
                    assert_eq!(index.span, Span { lo: 3, hi: 10 });
                    assert_eq!(index.collection.span, Span { lo: 3, hi: 7 });
                }
                other => panic!("{other:?}"),
            }
        }
        other => panic!("{other:?}"),
    }
}

#[test]
fn indices() {
    assert_eq!(tree("a[1, 2]"), "(index a [1, 2])");
    assert_eq!(tree("a[1:2]"), "(index a [1:_:2])");
    assert_eq!(tree("a[1:2:3]"), "(index a [1:2:3])");
    assert_eq!(tree("a[:]"), "(index a [_:_:_])");
    assert_eq!(tree("a[:2:]"), "(index a [_:2:_])");
    assert_eq!(tree("a[::3]"), "(index a [_:_:3])");
    assert_eq!(tree("a[1:, :2]"), "(index a [1:_:_, _:_:2])");
    assert_eq!(tree("a[{1, 2, 3}]"), "(index a [{1 2 3}])");
    assert_eq!(tree("a[b + 1][c[0]]"), "(index (index a [(+ b 1)]) [(index c [0])])");
    assert_eq!(tree("a[]"), "(index a [])");
}

#[test]
fn a_missing_bracket_is_recorded() {
    let (r, s) = parse("a[1");
    assert_eq!(show(&r.unwrap()), "(index a [1])");
    assert_eq!(
        s.into_errors(),
        vec![Error(ErrorKind::Token(
            TokenKind::Close(Delim::Bracket),
            TokenKind::Eof,
            Span { lo: 3, hi: 3 }
        ), None)]
    );
}

#[test]
fn a_gap_in_a_list_is_recorded() {
    let (r, s) = parse("f(a,,b)");
    assert_eq!(show(&r.unwrap()), "(call f [a ? b])");
    assert_eq!(
        s.into_errors(),
        vec![Error(ErrorKind::MissingSeqEntry(Span { lo: 4, hi: 4 }), None)]
    );
    let (r, s) = parse("f(,a)");
    assert_eq!(show(&r.unwrap()), "(call f [? a])");
    assert_eq!(
        s.into_errors(),
        vec![Error(ErrorKind::MissingSeqEntry(Span { lo: 2, hi: 2 }), None)]
    );
}

#[test]
fn casts() {
    assert_eq!(tree("int(x)"), "(cast int[_] x)");
    assert_eq!(tree("int[32](x + 1)"), "(cast int[32] (+ x 1))");
    assert_eq!(tree("float[64](1) * 2"), "(* (cast float[64] 1) 2)");
    assert_eq!(tree("bool(x)"), "(cast bool[_] x)");
    assert_eq!(tree("complex[float[32]](x)"), "(cast complex[32] x)");
    assert_eq!(tree("complex[float](x)"), "(cast complex[_] x)");
    assert_eq!(tree("complex(x)"), "(cast complex[_] x)");
    assert_eq!(tree("uint[n * 2](x)"), "(cast uint[(* n 2)] x)");
    assert_eq!(tree("angle(bit[4](x))"), "(cast angle[_] (cast bit[4] x))");
    assert_eq!(tree("duration(x)"), "(cast duration[_] x)");
    assert_eq!(
        error("int x"),
        ErrorKind::Token(TokenKind::Open(Delim::Paren), TokenKind::Identifier, Span { lo: 4, hi: 5 })
    );
}

#[test]
fn what_is_no_expression() {
    assert_eq!(error(""), ErrorKind::Rule("expression", TokenKind::Eof, Span { lo: 0, hi: 0 }));
    assert_eq!(
        error("a +"),
        ErrorKind::Rule("expression", TokenKind::Eof, Span { lo: 3, hi: 3 })
    );
    assert_eq!(
        error("* a"),
        ErrorKind::Rule(
            "expression",
            TokenKind::ClosedBinOp(ClosedBinOp::Star),
            Span { lo: 0, hi: 1 }
        )
    );
    assert_eq!(
        error("a + ;"),
        ErrorKind::Rule("expression", TokenKind::Semicolon, Span { lo: 4, hi: 5 })
    );
    // `array` starts the type of a cast
    assert_eq!(
        error("array"),
        ErrorKind::Rule("scalar or array type", TokenKind::Eof, Span { lo: 5, hi: 5 })
    );
    assert_eq!(
        error("measure"),
        ErrorKind::Rule("expression", TokenKind::Measure, Span { lo: 0, hi: 7 })
    );
}

#[test]
fn an_expression_ends_where_no_operator_follows() {
    let (r, s) = parse("a + b c");
    assert_eq!(show(&r.unwrap()), "(+ a b)");
    assert_eq!(s.read(), "c");
    let (r, s) = parse("a ; b");
    assert_eq!(show(&r.unwrap()), "a");
    assert_eq!(s.peek().kind, TokenKind::Semicolon);
}

#[test]
fn operators_after_a_given_operand() {
    let mut s = ParserContext::new("a * b + c");
    let a = qasm3_front::parser::expr::expr_base(&mut s).unwrap();
    let e = expr_with_lhs(&mut s, a).unwrap();
    assert_eq!(show(&e), "(+ (* a b) c)");
}

#[test]
fn operator_tables() {
    let name = |k| OpName::Token(TokenKind::ClosedBinOp(k));
    let left = |op, precedence| Some(InfixOp { kind: OpKind::Binary(op, Assoc::Left), precedence });
    assert_eq!(infix_op(name(ClosedBinOp::BarBar)), left(BinOp::OrL, 1));
    assert_eq!(infix_op(name(ClosedBinOp::AmpAmp)), left(BinOp::AndL, 2));
    assert_eq!(infix_op(name(ClosedBinOp::Caret)), left(BinOp::XorB, 3));
    assert_eq!(infix_op(name(ClosedBinOp::Bar)), left(BinOp::OrB, 4));
    assert_eq!(infix_op(name(ClosedBinOp::Amp)), left(BinOp::AndB, 5));
    assert_eq!(infix_op(name(ClosedBinOp::LtLt)), left(BinOp::Shl, 8));
    assert_eq!(infix_op(name(ClosedBinOp::GtGt)), left(BinOp::Shr, 8));
    assert_eq!(infix_op(name(ClosedBinOp::Plus)), left(BinOp::Add, 9));
    assert_eq!(infix_op(name(ClosedBinOp::Minus)), left(BinOp::Sub, 9));
    assert_eq!(infix_op(name(ClosedBinOp::Star)), left(BinOp::Mul, 10));
    assert_eq!(infix_op(name(ClosedBinOp::Slash)), left(BinOp::Div, 10));
    assert_eq!(infix_op(name(ClosedBinOp::Percent)), left(BinOp::Mod, 10));
    assert_eq!(
        infix_op(name(ClosedBinOp::StarStar)),
        Some(InfixOp { kind: OpKind::Binary(BinOp::Exp, Assoc::Right), precedence: 12 })
    );
    let cmp = |k| OpName::Token(TokenKind::ComparisonOp(k));
    assert_eq!(infix_op(cmp(qasm3_front::lex::ComparisonOp::EqEq)), left(BinOp::Eq, 6));
    assert_eq!(infix_op(cmp(qasm3_front::lex::ComparisonOp::BangEq)), left(BinOp::Neq, 6));
    assert_eq!(infix_op(cmp(qasm3_front::lex::ComparisonOp::Lt)), left(BinOp::Lt, 7));
    assert_eq!(infix_op(cmp(qasm3_front::lex::ComparisonOp::LtEq)), left(BinOp::Lte, 7));
    assert_eq!(infix_op(cmp(qasm3_front::lex::ComparisonOp::Gt)), left(BinOp::Gt, 7));
    assert_eq!(infix_op(cmp(qasm3_front::lex::ComparisonOp::GtEq)), left(BinOp::Gte, 7));
    assert_eq!(
        infix_op(OpName::Token(TokenKind::Open(Delim::Paren))),
        Some(InfixOp { kind: OpKind::Funcall, precedence: 13 })
    );
    assert_eq!(
        infix_op(OpName::Token(TokenKind::Open(Delim::Bracket))),
        Some(InfixOp { kind: OpKind::Index, precedence: 13 })
    );
    assert_eq!(infix_op(OpName::Token(TokenKind::Open(Delim::Brace))), None);
    assert_eq!(infix_op(OpName::Token(TokenKind::Bang)), None);
    assert_eq!(infix_op(OpName::Keyword(qasm3_front::lex::Keyword::In)), None);

    let prefix = |kind| Some(PrefixOp { kind, precedence: 11 });
    assert_eq!(prefix_op(OpName::Token(TokenKind::Bang)), prefix(UnaryOp::NotL));
    assert_eq!(prefix_op(OpName::Token(TokenKind::Tilde)), prefix(UnaryOp::NotB));
    assert_eq!(prefix_op(name(ClosedBinOp::Minus)), prefix(UnaryOp::Neg));
    assert_eq!(prefix_op(name(ClosedBinOp::Plus)), None);
    assert_eq!(prefix_op(OpName::Keyword(qasm3_front::lex::Keyword::In)), None);

    assert_eq!(next_precedence(9, Assoc::Left), 10);
    assert_eq!(next_precedence(12, Assoc::Right), 12);
    assert_eq!(next_precedence(0, Assoc::Left), 1);

    let pairs = [
        (ClosedBinOp::Amp, BinOp::AndB),
        (ClosedBinOp::AmpAmp, BinOp::AndL),
        (ClosedBinOp::Bar, BinOp::OrB),
        (ClosedBinOp::BarBar, BinOp::OrL),
        (ClosedBinOp::Caret, BinOp::XorB),
        (ClosedBinOp::GtGt, BinOp::Shr),
        (ClosedBinOp::LtLt, BinOp::Shl),
        (ClosedBinOp::Minus, BinOp::Sub),
        (ClosedBinOp::Percent, BinOp::Mod),
        (ClosedBinOp::Plus, BinOp::Add),
        (ClosedBinOp::Slash, BinOp::Div),
        (ClosedBinOp::Star, BinOp::Mul),
        (ClosedBinOp::StarStar, BinOp::Exp),
    ];
    for (token, op) in pairs {
        assert_eq!(closed_bin_op(token), op);
    }

    let s = ParserContext::new("in +");
    assert_eq!(op_name(&s), OpName::Keyword(qasm3_front::lex::Keyword::In));
    let s = ParserContext::new("+ in");
    assert_eq!(op_name(&s), name(ClosedBinOp::Plus));
}

#[test]
fn array_literals() {
    let mut s = ParserContext::new("{1, {2, 3}, a + b}");
    let e = lit_array(&mut s).unwrap();
    assert_eq!(show(&e), "{1 {2 3} (+ a b)}");
    assert_eq!(e.span, Span { lo: 0, hi: 18 });
    let mut s = ParserContext::new("{}");
    assert_eq!(show(&lit_array(&mut s).unwrap()), "{}");
    let mut s = ParserContext::new("1");
    assert_eq!(
        lit_array(&mut s).unwrap_err().0,
        ErrorKind::Token(
            TokenKind::Open(Delim::Brace),
            TokenKind::Literal(qasm3_front::lex::Literal::Integer(qasm3_front::lex::Radix::Decimal)),
            Span { lo: 0, hi: 1 }
        )
    );
}

#[test]
fn values_of_declarations() {
    let value = |r: Result<ValueExpr, Error>| match r.unwrap() {
        ValueExpr::Expr(e) => show(&e),
        ValueExpr::Measurement(m) => match m.operand.kind {
            GateOperandKind::IndexedIdent(i) => format!("measure {}/{}", i.name.name, i.indices.len()),
            GateOperandKind::HardwareQubit(q) => format!("measure ${}", q.name),
        },
    };
    assert_eq!(value(declaration_expr(&mut ParserContext::new("a + 1"))), "(+ a 1)");
    assert_eq!(value(declaration_expr(&mut ParserContext::new("{1, 2}"))), "{1 2}");
    assert_eq!(value(declaration_expr(&mut ParserContext::new("measure q"))), "measure q/0");
    assert_eq!(value(declaration_expr(&mut ParserContext::new("measure q[0][1]"))), "measure q/2");
    assert_eq!(value(declaration_expr(&mut ParserContext::new("measure $3"))), "measure $3");
    assert_eq!(value(const_declaration_expr(&mut ParserContext::new("pi * 2"))), "(* pi 2)");
    assert_eq!(value(const_declaration_expr(&mut ParserContext::new("{1}"))), "{1}");
    // a const cannot be measured
    assert_eq!(
        const_declaration_expr(&mut ParserContext::new("measure q")).unwrap_err().0,
        ErrorKind::Token(TokenKind::Open(Delim::Brace), TokenKind::Measure, Span { lo: 0, hi: 7 })
    );
    assert_eq!(value(expr_or_measurement(&mut ParserContext::new("measure q"))), "measure q/0");
    assert_eq!(value(expr_or_measurement(&mut ParserContext::new("a"))), "a");
    assert!(expr_or_measurement(&mut ParserContext::new("{1}")).is_err());
}

#[test]
fn measurements_and_operands() {
    let m = measure_expr(&mut ParserContext::new("measure q[1]")).unwrap();
    assert_eq!(m.span, Span { lo: 0, hi: 12 });
    assert_eq!(m.measure_token_span, Span { lo: 0, hi: 7 });
    assert_eq!(m.operand.span, Span { lo: 8, hi: 12 });
    let i = indexed_identifier(&mut ParserContext::new("q[1][2:3]")).unwrap();
    assert_eq!(i.name.name, "q");
    assert_eq!(i.indices.len(), 2);
    assert_eq!(i.span, Span { lo: 0, hi: 9 });
    assert_eq!(i.index_span, Span { lo: 1, hi: 9 });
    let i = indexed_identifier(&mut ParserContext::new("q")).unwrap();
    assert_eq!(i.index_span, Span { lo: 0, hi: 0 });
    let g = gate_operand(&mut ParserContext::new("$12")).unwrap();
    match g.kind {
        GateOperandKind::HardwareQubit(q) => assert_eq!(q.name, "12"),
        other => panic!("{other:?}"),
    }
    assert!(gate_operand(&mut ParserContext::new("1")).is_err());
    assert!(measure_expr(&mut ParserContext::new("q")).is_err());
}

#[test]
fn aliases_and_lists() {
    let mut s = ParserContext::new("a ++ b[1:2] ++ c;");
    let parts = alias_expr(&mut s).unwrap();
    assert_eq!(list(&parts), "a (index b [1:_:2]) c");
    assert_eq!(s.peek().kind, TokenKind::Semicolon);
    let mut s = ParserContext::new("a ++");
    assert!(alias_expr(&mut s).is_err());
    let mut s = ParserContext::new("a, b + 1, c)");
    assert_eq!(list(&expr_list(&mut s).unwrap()), "a (+ b 1) c");
    assert_eq!(s.peek().kind, TokenKind::Close(Delim::Paren));
    let mut s = ParserContext::new(")");
    assert_eq!(expr_list(&mut s).unwrap().len(), 0);
}

#[test]
fn types_and_versions() {
    let t = scalar_type(&mut ParserContext::new("int[8]")).unwrap();
    assert_eq!(t.span, Span { lo: 0, hi: 6 });
    assert!(matches!(t.kind, ScalarTypeKind::Int(Some(_))));
    let t = scalar_type(&mut ParserContext::new("stretch")).unwrap();
    assert_eq!(t.kind, ScalarTypeKind::Stretch);
    assert!(scalar_type(&mut ParserContext::new("x")).is_err());
    let v = version(&mut ParserContext::new("3.1;")).unwrap().unwrap();
    assert_eq!((v.major, v.minor, v.span), (3, Some(1), Span { lo: 0, hi: 3 }));
    assert_eq!(version(&mut ParserContext::new("x")), Ok(None));
    assert!(version(&mut ParserContext::new("0x3")).is_err());
}

#[test]
fn casts_to_arrays() {
    assert_eq!(tree("array[int[8], 2, 3](x)"), "(cast array[int[8], 2 3] x)");
    assert_eq!(tree("array[float, n](x) + 1"), "(+ (cast array[float[_], n] x) 1)");
    assert_eq!(tree("array[complex[float[32]], 4](a)"), "(cast array[complex[32], 4] a)");
    assert_eq!(tree("array[bool, 2 * n, m](a)"), "(cast array[bool[_], (* 2 n) m] a)");
    let mut s = ParserContext::new("array[uint[4], 2, 3](x)");
    let e = expr(&mut s).unwrap();
    assert_eq!(e.span, Span { lo: 0, hi: 23 });
    match &*e.kind {
        ExprKind::Cast(c) => {
            assert_eq!(c.span, Span { lo: 0, hi: 23 });
            assert_eq!(c.ty.span(), Span { lo: 0, hi: 20 });
            match &c.ty {
                TypeDef::Array(a) => {
                    assert_eq!(a.base_type.span, Span { lo: 6, hi: 13 });
                    assert_eq!(a.dimensions.len(), 2);
                    assert_eq!(a.dimensions[1].span, Span { lo: 18, hi: 19 });
                }
                other => panic!("{other:?}"),
            }
        }
        other => panic!("{other:?}"),
    }
}

#[test]
fn what_is_no_type() {
    // the entries of an array are no bits
    assert_eq!(
        array_type(&mut ParserContext::new("array[bit, 2]")).unwrap_err().0,
        ErrorKind::Rule(
            "array type",
            TokenKind::Type(qasm3_front::lex::TypeName::Bit),
            Span { lo: 6, hi: 9 }
        )
    );
    assert_eq!(
        array_type(&mut ParserContext::new("int")).unwrap_err().0,
        ErrorKind::Token(
            TokenKind::Type(qasm3_front::lex::TypeName::Array),
            TokenKind::Type(qasm3_front::lex::TypeName::Int),
            Span { lo: 0, hi: 3 }
        )
    );
    // the dimensions are closed by a bracket
    assert_eq!(
        array_type(&mut ParserContext::new("array[int, 2")).unwrap_err().0,
        ErrorKind::Token(TokenKind::Close(Delim::Bracket), TokenKind::Eof, Span { lo: 12, hi: 12 })
    );
    assert_eq!(
        scalar_or_array_type(&mut ParserContext::new("x")).unwrap_err().0,
        ErrorKind::Rule("scalar or array type", TokenKind::Identifier, Span { lo: 0, hi: 1 })
    );
    assert_eq!(
        error("array[int, 2"),
        ErrorKind::Rule("scalar or array type", TokenKind::Eof, Span { lo: 12, hi: 12 })
    );
    assert_eq!(opt_type(&mut ParserContext::new("x")), Ok(None));
    let mut s = ParserContext::new("array[angle[4], 1] y");
    let ty = opt_type(&mut s).unwrap().unwrap();
    assert_eq!(show_type(&ty), "array[angle[4], 1]");
    assert_eq!(s.peek().kind, TokenKind::Identifier);
    let ty = scalar_or_array_type(&mut ParserContext::new("duration")).unwrap();
    assert_eq!(show_type(&ty), "duration[_]");
}

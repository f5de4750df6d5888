use qasm3_front::parser::ast as syntax;
use qasm3_front::parser::ast::BinOp;
use qasm3_front::parser::error::ErrorKind;
use qasm3_front::parser::parse;
use qasm3_front::parser::{parse_source, QasmParseResult};
use qasm3_front::io::InMemorySourceResolver;
use qasm3_front::lex::TokenKind;
use qasm3_front::semantic::ast::{Expr, ExprKind, FloatBits, LiteralKind};
use qasm3_front::semantic::symbols::{IOKind, Symbol, SymbolId, SymbolTable, PI_BITS};
use qasm3_front::semantic::types::Type;
use qasm3_front::span::Span;
use qasm3_front::types::Type as TargetType;
use std::rc::Rc;

// What analysis makes of an expression of constants: an identifier stands
// for the const expression of its symbol.
fn lower(e: &syntax::Expr, table: &SymbolTable) -> Expr {
    match &*e.kind {
        syntax::ExprKind::Ident(id) => {
            let (_, symbol) = table.get_symbol_by_name(&id.name).expect("symbol");
            assert!(symbol.is_const());
            let value = symbol.get_const_expr();
            let kind = match &*value.kind {
                ExprKind::Lit(l) => ExprKind::Lit(*l),
                other => panic!("{other:?}"),
            };
            Expr { span: e.span, kind: Box::new(kind), ty: Type::Float(None, true) }
        }
        syntax::ExprKind::Lit(syntax::Lit { kind: syntax::LiteralKind::Int(v), .. }) => Expr {
            span: e.span,
            kind: Box::new(ExprKind::Lit(LiteralKind::Int(*v))),
            ty: Type::Int(None, true),
        },
        syntax::ExprKind::BinaryOp(op, l, r) => {
            let (l, r) = (lower(l, table), lower(r, table));
            Expr { span: e.span, kind: Box::new(ExprKind::BinaryOp(*op, l, r)), ty: Type::Float(None, true) }
        }
        other => panic!("{other:?}"),
    }
}

#[test]
fn const_declaration_of_pi_times_two() {
    let mut table = SymbolTable::new();
    let (program, errors) = parse("const pi2 = pi * 2;");
    assert!(errors.is_empty());
    assert_eq!(program.statements.len(), 1);
    assert_eq!(program.statements[0].span, Span { lo: 0, hi: 19 });
    let decl = match &*program.statements[0].kind {
        syntax::StmtKind::ConstDecl(decl) => decl,
        other => panic!("{other:?}"),
    };
    assert_eq!(decl.span, Span { lo: 0, hi: 19 });
    assert_eq!(decl.ty, None);
    let name = &decl.identifier;
    let value = match &decl.init_expr {
        syntax::ValueExpr::Expr(e) => e,
        other => panic!("{other:?}"),
    };
    match &*value.kind {
        syntax::ExprKind::BinaryOp(BinOp::Mul, l, r) => {
            match &*l.kind {
                syntax::ExprKind::Ident(id) => assert_eq!(id.name, "pi"),
                other => panic!("{other:?}"),
            }
            match &*r.kind {
                syntax::ExprKind::Lit(lit) => assert_eq!(lit.kind, syntax::LiteralKind::Int(2)),
                other => panic!("{other:?}"),
            }
        }
        other => panic!("{other:?}"),
    }
    assert_eq!(name.name, "pi2");
    assert_eq!(name.span, Span { lo: 6, hi: 9 });
    assert_eq!(value.span, Span { lo: 12, hi: 18 });

    assert!(table.is_current_scope_global());
    let lowered = lower(value, &table);
    let symbol = Symbol::new(
        &name.name,
        name.span,
        Type::Float(None, true),
        TargetType::Double(true),
        IOKind::Default,
    )
    .with_const_expr(Rc::new(lowered));
    assert_eq!(table.insert_symbol(symbol), Ok(SymbolId(8)));

    let (id, pi2) = table.get_symbol_by_name("pi2").unwrap();
    assert_eq!(id, SymbolId(8));
    assert!(pi2.is_const());
    assert!(pi2.ty.is_const());
    match &*pi2.get_const_expr().kind {
        ExprKind::BinaryOp(BinOp::Mul, l, r) => {
            assert_eq!(*l.kind, ExprKind::Lit(LiteralKind::Float(FloatBits(PI_BITS))));
            assert_eq!(*r.kind, ExprKind::Lit(LiteralKind::Int(2)));
        }
        other => panic!("{other:?}"),
    }
    // the value is that of pi, twice
    let pi = f64::from_bits(PI_BITS);
    assert_eq!(pi * 2.0, std::f64::consts::TAU);
}

fn decl_of(stmt: &syntax::Stmt) -> &syntax::ConstantDeclStmt {
    match &*stmt.kind {
        syntax::StmtKind::ConstDecl(decl) => decl,
        other => panic!("{other:?}"),
    }
}

#[test]
fn const_declaration_with_a_type() {
    let (program, errors) = parse("const uint[8] n = 3;
const float f = n;");
    assert!(errors.is_empty());
    assert_eq!(program.statements.len(), 2);
    let n = decl_of(&program.statements[0]);
    assert_eq!(n.span, Span { lo: 0, hi: 20 });
    assert_eq!(n.identifier.name, "n");
    assert_eq!(n.identifier.span, Span { lo: 14, hi: 15 });
    let ty = n.ty.as_ref().unwrap();
    assert_eq!(ty.span, Span { lo: 6, hi: 13 });
    assert!(matches!(ty.kind, syntax::ScalarTypeKind::UInt(_)));
    let f = decl_of(&program.statements[1]);
    assert_eq!(f.span, Span { lo: 21, hi: 39 });
    assert!(matches!(f.ty.as_ref().unwrap().kind, syntax::ScalarTypeKind::Float(_)));
    assert_eq!(f.identifier.name, "f");
}

#[test]
fn const_declaration_of_an_array_literal() {
    let (program, errors) = parse("const a = {1, 2};");
    assert!(errors.is_empty());
    let decl = decl_of(&program.statements[0]);
    match &decl.init_expr {
        syntax::ValueExpr::Expr(e) => match &*e.kind {
            syntax::ExprKind::Lit(lit) => match &lit.kind {
                syntax::LiteralKind::Array(items) => assert_eq!(items.len(), 2),
                other => panic!("{other:?}"),
            },
            other => panic!("{other:?}"),
        },
        other => panic!("{other:?}"),
    }
}

#[test]
fn const_declaration_takes_no_measurement() {
    let (program, errors) = parse("const c = measure q;
x;");
    assert_eq!(program.statements.len(), 2);
    assert_eq!(*program.statements[0].kind, syntax::StmtKind::Unparsed);
    assert_eq!(errors.len(), 1);
    assert!(matches!(
        errors[0].0,
        ErrorKind::Token(TokenKind::Open(_), TokenKind::Measure, Span { lo: 10, hi: 17 })
    ));
}

#[test]
fn const_declaration_without_a_name_or_a_value() {
    let (program, errors) = parse("const = 1;");
    assert_eq!(*program.statements[0].kind, syntax::StmtKind::Unparsed);
    assert_eq!(errors.len(), 1);
    assert_eq!(errors[0].0, ErrorKind::Rule("identifier", TokenKind::Eq, Span { lo: 6, hi: 7 }));

    let (program, errors) = parse("const x;");
    assert_eq!(*program.statements[0].kind, syntax::StmtKind::Unparsed);
    assert_eq!(errors.len(), 1);
    assert_eq!(
        errors[0].0,
        ErrorKind::Token(TokenKind::Eq, TokenKind::Semicolon, Span { lo: 7, hi: 8 })
    );

    let (program, errors) = parse("const x = 1");
    assert_eq!(decl_of(&program.statements[0]).identifier.name, "x");
    assert_eq!(errors.len(), 1);
    assert_eq!(
        errors[0].0,
        ErrorKind::Token(TokenKind::Semicolon, TokenKind::Eof, Span { lo: 11, hi: 11 })
    );
}

#[test]
fn const_declaration_in_an_included_source_is_moved() {
    let mut resolver = InMemorySourceResolver::new(vec![(
        "a.inc".to_string(),
        "const bit b = 1;".to_string(),
    )]);
    let r: QasmParseResult = parse_source("include \"a.inc\";\n", "root.qasm", &mut resolver);
    assert!(!r.has_errors());
    let a = &r.source.includes()[0];
    let decl = decl_of(&a.program().statements[0]);
    assert_eq!(decl.span, Span { lo: 17, hi: 33 });
    assert_eq!(decl.ty.as_ref().unwrap().span, Span { lo: 23, hi: 26 });
    assert_eq!(decl.identifier.span, Span { lo: 27, hi: 28 });
    match &decl.init_expr {
        syntax::ValueExpr::Expr(e) => assert_eq!(e.span, Span { lo: 31, hi: 32 }),
        other => panic!("{other:?}"),
    }
}

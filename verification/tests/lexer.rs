use qasm3_front::lex::{
    ClosedBinOp, ComparisonOp, Delim, Keyword, Literal, Radix, TimingLiteralKind, Token,
    TokenKind, TypeName,
};
use qasm3_front::lexer::tokenize;
use qasm3_front::parser::scan::ParserContext;
use qasm3_front::span::Span;

fn kinds(input: &str) -> Vec<TokenKind> {
    tokenize(input).0.iter().map(|t| t.kind).collect()
}

fn lit(l: Literal) -> TokenKind {
    TokenKind::Literal(l)
}

#[test]
fn tokens_of_an_expression() {
    let (tokens, texts) = tokenize("a + 0x1F");
    assert_eq!(
        tokens,
        vec![
            Token { kind: TokenKind::Identifier, span: Span { lo: 0, hi: 1 } },
            Token { kind: TokenKind::ClosedBinOp(ClosedBinOp::Plus), span: Span { lo: 2, hi: 3 } },
            Token {
                kind: lit(Literal::Integer(Radix::Hexadecimal)),
                span: Span { lo: 4, hi: 8 }
            },
            Token { kind: TokenKind::Eof, span: Span { lo: 8, hi: 8 } },
        ]
    );
    assert_eq!(texts, ["a", "+", "0x1F", ""]);
}

#[test]
fn the_empty_source_has_the_end_alone() {
    assert_eq!(tokenize("").0, vec![Token { kind: TokenKind::Eof, span: Span { lo: 0, hi: 0 } }]);
    assert_eq!(
        tokenize("  \n\t ").0,
        vec![Token { kind: TokenKind::Eof, span: Span { lo: 5, hi: 5 } }]
    );
}

#[test]
fn comments_separate_tokens() {
    let (tokens, texts) = tokenize("a // one\n/* two\n */ b /* open");
    assert_eq!(texts, ["a", "b", ""]);
    assert_eq!(tokens[1].span, Span { lo: 20, hi: 21 });
    assert_eq!(tokens[2].span, Span { lo: 29, hi: 29 });
    assert_eq!(kinds("a/b"), [
        TokenKind::Identifier,
        TokenKind::ClosedBinOp(ClosedBinOp::Slash),
        TokenKind::Identifier,
        TokenKind::Eof
    ]);
}

#[test]
fn spans_count_bytes() {
    let (tokens, texts) = tokenize("π + τ2");
    assert_eq!(texts, ["π", "+", "τ2", ""]);
    assert_eq!(tokens[0].span, Span { lo: 0, hi: 2 });
    assert_eq!(tokens[1].span, Span { lo: 3, hi: 4 });
    assert_eq!(tokens[2].span, Span { lo: 5, hi: 8 });
    assert_eq!(tokens[3].span, Span { lo: 8, hi: 8 });
}

#[test]
fn numbers() {
    assert_eq!(kinds("12 1_000 0b1_0 0o17 0XfF")[..5], [
        lit(Literal::Integer(Radix::Decimal)),
        lit(Literal::Integer(Radix::Decimal)),
        lit(Literal::Integer(Radix::Binary)),
        lit(Literal::Integer(Radix::Octal)),
        lit(Literal::Integer(Radix::Hexadecimal)),
    ]);
    assert_eq!(kinds("1.5 1. .5 1e3 1.5E-3 1e+2")[..6], [lit(Literal::Float); 6]);
    assert_eq!(tokenize("1e").1, ["1", "e", ""]);
    assert_eq!(tokenize("1e+").1, ["1", "e", "+", ""]);
    assert_eq!(kinds("2im 2.5im")[..2], [lit(Literal::Imaginary); 2]);
    assert_eq!(kinds("1dt 2ns 3us 3µs 4ms 5s 1.5ns")[..7], [
        lit(Literal::Timing(TimingLiteralKind::Dt)),
        lit(Literal::Timing(TimingLiteralKind::Ns)),
        lit(Literal::Timing(TimingLiteralKind::Us)),
        lit(Literal::Timing(TimingLiteralKind::Us)),
        lit(Literal::Timing(TimingLiteralKind::Ms)),
        lit(Literal::Timing(TimingLiteralKind::S)),
        lit(Literal::Timing(TimingLiteralKind::Ns)),
    ]);
    // a unit that goes on is no unit
    assert_eq!(tokenize("5sx").1, ["5", "sx", ""]);
    assert_eq!(tokenize("2imx").1, ["2", "imx", ""]);
}

#[test]
fn strings_and_bitstrings() {
    assert_eq!(kinds("\"abc\" 'x' \"0101\" \"01_1\" '01' \"\" \"_\"")[..7], [
        lit(Literal::String),
        lit(Literal::String),
        lit(Literal::Bitstring),
        lit(Literal::Bitstring),
        lit(Literal::String),
        lit(Literal::String),
        lit(Literal::Bitstring),
    ]);
    assert_eq!(tokenize(r#""a\"b" c"#).1, [r#""a\"b""#, "c", ""]);
    assert_eq!(tokenize("\"open").1, ["\"open", ""]);
    assert_eq!(tokenize("\"open\\").1, ["\"open\\", ""]);
}

#[test]
fn words() {
    assert_eq!(kinds("OPENQASM include true false measure const gate def")[..8], [
        TokenKind::Keyword(Keyword::OpenQASM),
        TokenKind::Keyword(Keyword::Include),
        TokenKind::Keyword(Keyword::True),
        TokenKind::Keyword(Keyword::False),
        TokenKind::Measure,
        TokenKind::Keyword(Keyword::Const),
        TokenKind::Keyword(Keyword::Gate),
        TokenKind::Keyword(Keyword::Def),
    ]);
    assert_eq!(kinds("int uint float angle bit bool complex duration stretch array")[..10], [
        TokenKind::Type(TypeName::Int),
        TokenKind::Type(TypeName::UInt),
        TokenKind::Type(TypeName::Float),
        TokenKind::Type(TypeName::Angle),
        TokenKind::Type(TypeName::Bit),
        TokenKind::Type(TypeName::Bool),
        TokenKind::Type(TypeName::Complex),
        TokenKind::Type(TypeName::Duration),
        TokenKind::Type(TypeName::Stretch),
        TokenKind::Type(TypeName::Array),
    ]);
    assert_eq!(kinds("pi gphase U _x x1 openqasm True intx")[..8], [TokenKind::Identifier; 8]);
    assert_eq!(kinds("$0 $12 $")[..3], [
        TokenKind::HardwareQubit,
        TokenKind::HardwareQubit,
        TokenKind::Unknown
    ]);
}

#[test]
fn operators_and_punctuation() {
    assert_eq!(kinds("+ - * / % ** & | ^ && || << >>")[..13], [
        TokenKind::ClosedBinOp(ClosedBinOp::Plus),
        TokenKind::ClosedBinOp(ClosedBinOp::Minus),
        TokenKind::ClosedBinOp(ClosedBinOp::Star),
        TokenKind::ClosedBinOp(ClosedBinOp::Slash),
        TokenKind::ClosedBinOp(ClosedBinOp::Percent),
        TokenKind::ClosedBinOp(ClosedBinOp::StarStar),
        TokenKind::ClosedBinOp(ClosedBinOp::Amp),
        TokenKind::ClosedBinOp(ClosedBinOp::Bar),
        TokenKind::ClosedBinOp(ClosedBinOp::Caret),
        TokenKind::ClosedBinOp(ClosedBinOp::AmpAmp),
        TokenKind::ClosedBinOp(ClosedBinOp::BarBar),
        TokenKind::ClosedBinOp(ClosedBinOp::LtLt),
        TokenKind::ClosedBinOp(ClosedBinOp::GtGt),
    ]);
    assert_eq!(kinds("+= -= *= /= %= **= &= |= ^= <<= >>=")[..11], [
        TokenKind::BinOpEq(ClosedBinOp::Plus),
        TokenKind::BinOpEq(ClosedBinOp::Minus),
        TokenKind::BinOpEq(ClosedBinOp::Star),
        TokenKind::BinOpEq(ClosedBinOp::Slash),
        TokenKind::BinOpEq(ClosedBinOp::Percent),
        TokenKind::BinOpEq(ClosedBinOp::StarStar),
        TokenKind::BinOpEq(ClosedBinOp::Amp),
        TokenKind::BinOpEq(ClosedBinOp::Bar),
        TokenKind::BinOpEq(ClosedBinOp::Caret),
        TokenKind::BinOpEq(ClosedBinOp::LtLt),
        TokenKind::BinOpEq(ClosedBinOp::GtGt),
    ]);
    assert_eq!(kinds("== != < <= > >= = ! ~")[..9], [
        TokenKind::ComparisonOp(ComparisonOp::EqEq),
        TokenKind::ComparisonOp(ComparisonOp::BangEq),
        TokenKind::ComparisonOp(ComparisonOp::Lt),
        TokenKind::ComparisonOp(ComparisonOp::LtEq),
        TokenKind::ComparisonOp(ComparisonOp::Gt),
        TokenKind::ComparisonOp(ComparisonOp::GtEq),
        TokenKind::Eq,
        TokenKind::Bang,
        TokenKind::Tilde,
    ]);
    assert_eq!(kinds("( ) [ ] { } , ; : . @ -> ++ # ?")[..15], [
        TokenKind::Open(Delim::Paren),
        TokenKind::Close(Delim::Paren),
        TokenKind::Open(Delim::Bracket),
        TokenKind::Close(Delim::Bracket),
        TokenKind::Open(Delim::Brace),
        TokenKind::Close(Delim::Brace),
        TokenKind::Comma,
        TokenKind::Semicolon,
        TokenKind::Colon,
        TokenKind::Dot,
        TokenKind::At,
        TokenKind::Arrow,
        TokenKind::PlusPlus,
        TokenKind::Unknown,
        TokenKind::Unknown,
    ]);
}

#[test]
fn cursor_walks_the_tokens() {
    let mut s = ParserContext::new("a b");
    assert_eq!(s.peek().kind, TokenKind::Identifier);
    assert_eq!(s.read(), "a");
    assert_eq!(s.span(0), Span { lo: 0, hi: 0 });
    s.advance();
    assert_eq!(s.read(), "b");
    assert_eq!(s.span(0), Span { lo: 0, hi: 1 });
    s.advance();
    assert_eq!(s.peek().kind, TokenKind::Eof);
    assert_eq!(s.span(2), Span { lo: 2, hi: 3 });
    // the cursor stays at the end
    s.advance();
    assert_eq!(s.peek(), Token { kind: TokenKind::Eof, span: Span { lo: 3, hi: 3 } });
    assert_eq!(s.span(0), Span { lo: 0, hi: 3 });
    assert!(s.into_errors().is_empty());
}

#[test]
fn cursor_over_given_tokens() {
    let eof = Token { kind: TokenKind::Eof, span: Span { lo: 1, hi: 1 } };
    let a = Token { kind: TokenKind::Identifier, span: Span { lo: 0, hi: 1 } };
    assert!(ParserContext::from_tokens(vec![a, eof], vec!["a".to_string(), String::new()]).is_some());
    // no end of input
    assert!(ParserContext::from_tokens(vec![a], vec!["a".to_string()]).is_none());
    // no text for a token
    assert!(ParserContext::from_tokens(vec![a, eof], vec!["a".to_string()]).is_none());
    assert!(ParserContext::from_tokens(vec![], vec![]).is_none());
    // a token beyond 4 GiB
    let far = Token { kind: TokenKind::Identifier, span: Span { lo: u32::MAX, hi: u32::MAX } };
    assert!(ParserContext::from_tokens(vec![far, eof], vec!["a".to_string(), String::new()]).is_none());
}

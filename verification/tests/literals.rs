use num_bigint::BigInt;
use qasm3_front::lex::{Keyword, Literal, Radix, TimingLiteralKind, Token, TokenKind};
use qasm3_front::parser::ast::{LiteralKind, TimeUnit, Version};
use qasm3_front::parser::error::{Error, ErrorKind};
use qasm3_front::parser::lit::{lit_int, lit_token, unescape, version_token};
use qasm3_front::span::Span;
use qasm3_front::text::to_digit;

fn token(kind: TokenKind) -> Token {
    Token { kind, span: Span { lo: 10, hi: 20 } }
}

fn literal(lit: Literal) -> Token {
    token(TokenKind::Literal(lit))
}

fn kind_of(lexeme: &str, lit: Literal) -> LiteralKind {
    let l = lit_token(lexeme, literal(lit)).unwrap().unwrap();
    assert_eq!(l.span, Span { lo: 10, hi: 20 });
    l.kind
}

fn error_of(lexeme: &str, lit: Literal) -> ErrorKind {
    lit_token(lexeme, literal(lit)).unwrap_err().0
}

#[test]
fn lit_int_reads_each_base() {
    assert_eq!(lit_int("0", 10), Some(0));
    assert_eq!(lit_int("123", 10), Some(123));
    assert_eq!(lit_int("1_000_000", 10), Some(1_000_000));
    assert_eq!(lit_int("ff", 16), Some(255));
    assert_eq!(lit_int("FF", 16), Some(255));
    assert_eq!(lit_int("1F_a0", 16), Some(0x1fa0));
    assert_eq!(lit_int("1010", 2), Some(10));
    assert_eq!(lit_int("17", 8), Some(15));
    assert_eq!(lit_int("", 10), Some(0));
    assert_eq!(lit_int("___", 10), Some(0));
}

#[test]
fn lit_int_rejects_what_is_no_digit_of_the_base() {
    assert_eq!(lit_int("12a", 10), None);
    assert_eq!(lit_int("2", 2), None);
    assert_eq!(lit_int("8", 8), None);
    assert_eq!(lit_int("g", 16), None);
    assert_eq!(lit_int("1.5", 10), None);
    assert_eq!(lit_int("-1", 10), None);
    assert_eq!(lit_int("٣", 10), None);
}

#[test]
fn lit_int_at_the_limits_of_64_bits() {
    assert_eq!(lit_int("9223372036854775807", 10), Some(i64::MAX));
    // one more than the greatest value is kept as the least one
    assert_eq!(lit_int("9223372036854775808", 10), Some(i64::MIN));
    assert_eq!(lit_int("9223372036854775809", 10), None);
    assert_eq!(lit_int("18446744073709551616", 10), None);
    assert_eq!(lit_int("7fffffffffffffff", 16), Some(i64::MAX));
    assert_eq!(lit_int("8000000000000000", 16), Some(i64::MIN));
    assert_eq!(lit_int("8000000000000001", 16), None);
    assert_eq!(lit_int("ffffffffffffffff", 16), None);
    assert_eq!(
        lit_int("111111111111111111111111111111111111111111111111111111111111111", 2),
        Some(i64::MAX)
    );
    assert_eq!(lit_int("777777777777777777777", 8), Some(i64::MAX));
    // zeros before the number change nothing
    assert_eq!(lit_int("0000000000000000001", 10), Some(1));
    assert_eq!(lit_int("0000000000000000000001", 10), Some(1));
    assert_eq!(lit_int("000000000000000000009223372036854775807", 10), Some(i64::MAX));
    assert_eq!(lit_int("000000000000000000009223372036854775808", 10), Some(i64::MIN));
    assert_eq!(lit_int("0_0000000000000000000000000000000000000", 16), Some(0));
}

#[test]
fn lit_int_never_wraps() {
    // 2^64 + 2^63 and other numbers that are the least 64-bit integer
    // when they are cut to 64 bits
    assert_eq!(lit_int("18000000000000000", 16), None);
    assert_eq!(lit_int("28000000000000000", 16), None);
    assert_eq!(lit_int("27670116110564327424", 10), None);
    assert_eq!(lit_int("10000000000000000", 16), None);
    assert_eq!(lit_int("100000000000000000000000000000000", 16), None);
    assert_eq!(
        lit_int("11000000000000000000000000000000000000000000000000000000000000000", 2),
        None
    );
    assert_eq!(lit_int("3000000000000000000000", 8), None);
    // a character that is no digit, wherever it stands
    assert_eq!(lit_int("99999999999999999999999999999x", 10), None);
    assert_eq!(lit_int("x99999999999999999999999999999", 10), None);
}

#[test]
fn lit_int_value_can_be_written_back() {
    for value in [0i64, 1, 9, 10, 255, 4096, 123_456_789, i64::MAX] {
        assert_eq!(lit_int(&format!("{value}"), 10), Some(value));
        assert_eq!(lit_int(&format!("{value:x}"), 16), Some(value));
        assert_eq!(lit_int(&format!("{value:X}"), 16), Some(value));
        assert_eq!(lit_int(&format!("{value:o}"), 8), Some(value));
        assert_eq!(lit_int(&format!("{value:b}"), 2), Some(value));
    }
}

#[test]
fn digits_of_a_base() {
    assert_eq!(to_digit('0', 10), Some(0));
    assert_eq!(to_digit('9', 10), Some(9));
    assert_eq!(to_digit('a', 16), Some(10));
    assert_eq!(to_digit('F', 16), Some(15));
    assert_eq!(to_digit('z', 36), Some(35));
    assert_eq!(to_digit('a', 10), None);
    assert_eq!(to_digit('1', 1), None);
    assert_eq!(to_digit('_', 36), None);
    for c in ['0', '7', 'a', 'Z', 'g', '/', ':', '@', '[', '`', '{', 'é'] {
        for radix in [2u32, 8, 10, 16, 36] {
            assert_eq!(to_digit(c, radix), c.to_digit(radix), "{c} {radix}");
        }
    }
}

#[test]
fn integer_tokens() {
    assert_eq!(kind_of("42", Literal::Integer(Radix::Decimal)), LiteralKind::Int(42));
    assert_eq!(kind_of("0x2A", Literal::Integer(Radix::Hexadecimal)), LiteralKind::Int(42));
    assert_eq!(kind_of("0b10_1010", Literal::Integer(Radix::Binary)), LiteralKind::Int(42));
    assert_eq!(kind_of("0o52", Literal::Integer(Radix::Octal)), LiteralKind::Int(42));
    assert_eq!(
        kind_of("9223372036854775808", Literal::Integer(Radix::Decimal)),
        LiteralKind::Int(i64::MIN)
    );
}

#[test]
fn integer_tokens_fall_back_to_big_integers() {
    assert_eq!(
        kind_of("9223372036854775809", Literal::Integer(Radix::Decimal)),
        LiteralKind::BigInt(BigInt::from(9223372036854775809u64))
    );
    assert_eq!(
        kind_of("0xFFFF_FFFF_FFFF_FFFF_FF", Literal::Integer(Radix::Hexadecimal)),
        LiteralKind::BigInt(BigInt::from(0xffffffffffffffffffu128))
    );
    assert_eq!(
        kind_of("0x18000000000000000", Literal::Integer(Radix::Hexadecimal)),
        LiteralKind::BigInt(BigInt::from((1u128 << 64) + (1u128 << 63)))
    );
    assert_eq!(
        kind_of("0x8000000000000001", Literal::Integer(Radix::Hexadecimal)),
        LiteralKind::BigInt(BigInt::from((1u128 << 63) + 1))
    );
}

#[test]
fn integer_tokens_with_zeros_before_the_number() {
    assert_eq!(
        kind_of("0000000000000000000001", Literal::Integer(Radix::Decimal)),
        LiteralKind::Int(1)
    );
    assert_eq!(
        kind_of("0x0000000000000000000000FF", Literal::Integer(Radix::Hexadecimal)),
        LiteralKind::Int(255)
    );
    assert_eq!(
        kind_of("0x08000000000000000", Literal::Integer(Radix::Hexadecimal)),
        LiteralKind::Int(i64::MIN)
    );
    assert_eq!(kind_of("0x1F", Literal::Integer(Radix::Hexadecimal)), LiteralKind::Int(31));
}

#[test]
fn big_integers_keep_their_value() {
    for (text, value) in [
        ("9223372036854775809", BigInt::from(9223372036854775809u64)),
        ("18446744073709551616", BigInt::from(1u128 << 64)),
        ("1_000_000_000_000_000_000_000", BigInt::from(10u128.pow(21))),
    ] {
        assert_eq!(kind_of(text, Literal::Integer(Radix::Decimal)), LiteralKind::BigInt(value));
    }
    // an underscore before the first digit is no big integer
    assert_eq!(
        error_of("0x_FFFFFFFFFFFFFFFFFF", Literal::Integer(Radix::Hexadecimal)),
        ErrorKind::Lit("integer", Span { lo: 10, hi: 20 })
    );
}

#[test]
fn integer_tokens_that_are_no_integers() {
    assert_eq!(
        error_of("12a", Literal::Integer(Radix::Decimal)),
        ErrorKind::Lit("integer", Span { lo: 10, hi: 20 })
    );
    assert_eq!(
        error_of("0b102", Literal::Integer(Radix::Binary)),
        ErrorKind::Lit("integer", Span { lo: 10, hi: 20 })
    );
}

#[test]
fn float_tokens() {
    assert_eq!(kind_of("1.5", Literal::Float), LiteralKind::Float("1.5".to_string()));
    assert_eq!(kind_of("1_000.5", Literal::Float), LiteralKind::Float("1000.5".to_string()));
    assert_eq!(kind_of("1e10", Literal::Float), LiteralKind::Float("1e10".to_string()));
    assert_eq!(kind_of("1.", Literal::Float), LiteralKind::Float("1.".to_string()));
    assert_eq!(kind_of(".5E-3", Literal::Float), LiteralKind::Float(".5E-3".to_string()));
    for bad in ["", ".", "e5", "1e", "1e+", "1.2.3", "abc", "1.5x", "+"] {
        assert_eq!(
            error_of(bad, Literal::Float),
            ErrorKind::Lit("floating-point", Span { lo: 10, hi: 20 }),
            "{bad}"
        );
    }
}

#[test]
fn float_text_is_what_the_machine_reads_as_a_float() {
    let samples = [
        "0", "1", "1.5", "1.", ".5", "1e5", "1E5", "1e+5", "1e-5", "1.e5", ".5e5", "+1", "-1.5",
        "inf", "-inf", "+Infinity", "NaN", "nan", "", ".", "e", "e5", "1e", "1e+", "1.2.3", "abc",
        "1x", "--1", "+-1", "infinit", "in", "1 ", " 1", "1_0", "0x10", "+", "-", ".e5", "1e5.0",
    ];
    for text in samples {
        let ours = lit_token(text, literal(Literal::Float)).is_ok();
        let expected = !text.contains('_') && text.parse::<f64>().is_ok();
        if !text.contains('_') {
            assert_eq!(ours, expected, "{text:?}");
        }
    }
    match kind_of("2.5", Literal::Float) {
        LiteralKind::Float(text) => assert_eq!(text.parse::<f64>().unwrap(), 2.5),
        other => panic!("{other:?}"),
    }
}

#[test]
fn string_tokens() {
    assert_eq!(kind_of("\"abc\"", Literal::String), LiteralKind::String("abc".to_string()));
    assert_eq!(kind_of("'abc'", Literal::String), LiteralKind::String("abc".to_string()));
    assert_eq!(kind_of("\"\"", Literal::String), LiteralKind::String(String::new()));
    assert_eq!(
        kind_of(r#""a\nb\t\"c\"\\""#, Literal::String),
        LiteralKind::String("a\nb\t\"c\"\\".to_string())
    );
    assert_eq!(kind_of("\"π\"", Literal::String), LiteralKind::String("π".to_string()));
}

#[test]
fn string_token_with_a_wrong_escape() {
    // the token starts at 10; the quote is byte 10, `a` byte 11, the
    // backslash byte 12 and `q` byte 13
    assert_eq!(
        error_of(r#""a\qb""#, Literal::String),
        ErrorKind::Escape('q', Span { lo: 13, hi: 14 })
    );
    assert_eq!(
        error_of(r#""\x""#, Literal::String),
        ErrorKind::Escape('x', Span { lo: 12, hi: 13 })
    );
    // `π` takes two bytes
    assert_eq!(
        error_of("\"π\\0\"", Literal::String),
        ErrorKind::Escape('0', Span { lo: 14, hi: 15 })
    );
    // the first wrong escape is reported
    assert_eq!(
        error_of(r#""\n\a\b""#, Literal::String),
        ErrorKind::Escape('a', Span { lo: 14, hi: 15 })
    );
}

#[test]
fn unescape_replaces_each_escape() {
    assert_eq!(unescape(r"\\"), Ok("\\".to_string()));
    assert_eq!(unescape(r"\'"), Ok("'".to_string()));
    assert_eq!(unescape(r#"\""#), Ok("\"".to_string()));
    assert_eq!(unescape(r"\n"), Ok("\n".to_string()));
    assert_eq!(unescape(r"\r"), Ok("\r".to_string()));
    assert_eq!(unescape(r"\t"), Ok("\t".to_string()));
    assert_eq!(unescape(""), Ok(String::new()));
    assert_eq!(unescape("plain"), Ok("plain".to_string()));
    assert_eq!(unescape(r"a\\n"), Ok("a\\n".to_string()));
    assert_eq!(unescape(r"x\ty\nz"), Ok("x\ty\nz".to_string()));
}

#[test]
fn unescape_fails_at_the_first_wrong_escape() {
    assert_eq!(unescape(r"\q"), Err(0));
    assert_eq!(unescape(r"ab\q"), Err(2));
    assert_eq!(unescape(r"\n\0"), Err(2));
    assert_eq!(unescape(r"\N"), Err(0));
    assert_eq!(unescape("π\\q"), Err(2));
    assert_eq!(unescape("ab\\"), Err(2));
    for c in ['a', 'b', '0', 'x', 'u', ' ', 'N', 'T', 'é'] {
        assert_eq!(unescape(&format!("ab\\{c}cd")), Err(2), "{c}");
    }
}

#[test]
fn bitstring_tokens() {
    assert_eq!(kind_of("\"0101\"", Literal::Bitstring), LiteralKind::Bitstring(BigInt::from(5), 4));
    assert_eq!(
        kind_of("\"01_01\"", Literal::Bitstring),
        LiteralKind::Bitstring(BigInt::from(5), 4)
    );
    assert_eq!(kind_of("\"0\"", Literal::Bitstring), LiteralKind::Bitstring(BigInt::from(0), 1));
    assert_eq!(
        kind_of("\"1111111111111111111111111111111111111111111111111111111111111111111\"", Literal::Bitstring),
        LiteralKind::Bitstring(BigInt::from((1u128 << 67) - 1), 67)
    );
    for bad in ["\"012\"", "\"\"", "\"_01\"", "\"ab\""] {
        assert_eq!(
            error_of(bad, Literal::Bitstring),
            ErrorKind::Lit("bitstring", Span { lo: 10, hi: 20 }),
            "{bad}"
        );
    }
}

#[test]
fn imaginary_and_timing_tokens() {
    assert_eq!(kind_of("2.5im", Literal::Imaginary), LiteralKind::Imaginary("2.5".to_string()));
    assert_eq!(kind_of("1_0im", Literal::Imaginary), LiteralKind::Imaginary("10".to_string()));
    assert_eq!(
        error_of("im", Literal::Imaginary),
        ErrorKind::Lit("imaginary", Span { lo: 10, hi: 20 })
    );
    let units = [
        (TimingLiteralKind::Dt, TimeUnit::Dt, "dt"),
        (TimingLiteralKind::Ns, TimeUnit::Ns, "ns"),
        (TimingLiteralKind::Us, TimeUnit::Us, "us"),
        (TimingLiteralKind::Ms, TimeUnit::Ms, "ms"),
        (TimingLiteralKind::S, TimeUnit::S, "s"),
    ];
    for (kind, unit, text) in units {
        assert_eq!(
            kind_of(&format!("1_0.5{text}"), Literal::Timing(kind)),
            LiteralKind::Duration("10.5".to_string(), unit)
        );
    }
    assert_eq!(
        error_of("1.2.3ns", Literal::Timing(TimingLiteralKind::Ns)),
        ErrorKind::Lit("timing", Span { lo: 10, hi: 20 })
    );
    assert_eq!(
        error_of("ns", Literal::Timing(TimingLiteralKind::Ns)),
        ErrorKind::Lit("timing", Span { lo: 10, hi: 20 })
    );
    // a numeral of another script belongs to the number, which is then no
    // number
    assert_eq!(
        error_of("1\u{0663}ns", Literal::Timing(TimingLiteralKind::Ns)),
        ErrorKind::Lit("timing", Span { lo: 10, hi: 20 })
    );
    assert_eq!(
        error_of("2\u{00B2}im", Literal::Imaginary),
        ErrorKind::Lit("imaginary", Span { lo: 10, hi: 20 })
    );
    // what follows the number is not looked at
    assert_eq!(
        kind_of("15xyz", Literal::Timing(TimingLiteralKind::S)),
        LiteralKind::Duration("15".to_string(), TimeUnit::S)
    );
}

#[test]
fn boolean_tokens_and_tokens_that_are_no_literals() {
    let t = lit_token("true", token(TokenKind::Keyword(Keyword::True))).unwrap().unwrap();
    assert_eq!(t.kind, LiteralKind::Bool(true));
    let f = lit_token("false", token(TokenKind::Keyword(Keyword::False))).unwrap().unwrap();
    assert_eq!(f.kind, LiteralKind::Bool(false));
    assert_eq!(lit_token("x", token(TokenKind::Identifier)), Ok(None));
    assert_eq!(lit_token("(", token(TokenKind::Semicolon)), Ok(None));
    assert_eq!(lit_token("", token(TokenKind::Eof)), Ok(None));
}

#[test]
fn version_tokens() {
    let span = Span { lo: 10, hi: 20 };
    assert_eq!(
        version_token("3.0", literal(Literal::Float)),
        Ok(Some(Version { major: 3, minor: Some(0), span }))
    );
    assert_eq!(
        version_token("12.34", literal(Literal::Float)),
        Ok(Some(Version { major: 12, minor: Some(34), span }))
    );
    assert_eq!(
        version_token("3", literal(Literal::Integer(Radix::Decimal))),
        Ok(Some(Version { major: 3, minor: None, span }))
    );
    assert_eq!(
        version_token("4294967295", literal(Literal::Integer(Radix::Decimal))),
        Ok(Some(Version { major: u32::MAX, minor: None, span }))
    );
    assert_eq!(version_token("x", token(TokenKind::Identifier)), Ok(None));
    assert_eq!(version_token("\"3\"", literal(Literal::String)), Ok(None));
}

#[test]
fn version_tokens_that_are_no_versions() {
    let span = Span { lo: 10, hi: 20 };
    let err = |what: &'static str| Err(Error(ErrorKind::Lit(what, span), None));
    assert_eq!(version_token("3.0.1", literal(Literal::Float)), err("version"));
    assert_eq!(version_token("30", literal(Literal::Float)), err("version"));
    assert_eq!(version_token("a.0", literal(Literal::Float)), err("version major"));
    assert_eq!(version_token(".0", literal(Literal::Float)), err("version major"));
    assert_eq!(version_token("3.x", literal(Literal::Float)), err("version minor"));
    assert_eq!(version_token("3.", literal(Literal::Float)), err("version minor"));
    assert_eq!(version_token("3.4294967296", literal(Literal::Float)), err("version minor"));
    assert_eq!(version_token("0x3", literal(Literal::Integer(Radix::Hexadecimal))), err("version"));
    assert_eq!(version_token("3_0", literal(Literal::Integer(Radix::Decimal))), err("version"));
    assert_eq!(
        version_token("4294967296", literal(Literal::Integer(Radix::Decimal))),
        err("version")
    );
}

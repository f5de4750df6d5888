//! What holds of the values of literals.

use crate::lex::Literal;
use crate::lex::Radix;
use crate::lex::Token;
use crate::lex::TokenKind;
use crate::parser::ast::LitView;
use crate::parser::ast::LiteralKindView;
use crate::parser::error::Error;
use crate::parser::error::ErrorKind;
use crate::parser::lit::big_int_from_str_radix;
use crate::parser::lit::escaped;
use crate::parser::lit::int_digits;
use crate::parser::lit::is_big_int_text;
use crate::parser::lit::digits_of_base;
use crate::parser::lit::number_of;
use crate::parser::lit::unsigned_part;
use crate::parser::lit::lit_int_spec;
use crate::parser::lit::lit_token_spec;
use crate::parser::lit::shorten_spec;
use crate::parser::lit::unescape_from;
use crate::parser::lit::unescape_spec;
use crate::span::Span;
use crate::text::byte_len;
use crate::text::digit_of;
use vstd::prelude::*;

verus! {

/// An escape by itself is the one character that it stands for: `\\` is
/// a backslash, `\'` and `\"` are the quotes, `\n`, `\r` and `\t` the line
/// feed, the carriage return and the tab.
pub proof fn lemma_unescape_escape(c: char)
    requires
        escaped(c) is Some,
    ensures
        unescape_spec(seq!['\\', c]) == Ok::<Seq<char>, nat>(seq![escaped(c)->0]),
        escaped('\\') == Some('\\'),
        escaped('\'') == Some('\''),
        escaped('"') == Some('"'),
        escaped('n') == Some('\n'),
        escaped('r') == Some('\r'),
        escaped('t') == Some('\t'),
{
    let s = seq!['\\', c];
    reveal_with_fuel(unescape_from, 3);
    assert(unescape_from(s, 2) == Ok::<Seq<char>, int>(Seq::empty()));
    assert(seq![escaped(c)->0] + Seq::<char>::empty() =~= seq![escaped(c)->0]);
}

/// Whether no character of `s` is a backslash.
pub open spec fn no_backslash(s: Seq<char>) -> bool {
    forall|i: int| 0 <= i < s.len() ==> s[i] != '\\'
}

/// Text without a backslash is left as it is, up to the first backslash.
proof fn lemma_unescape_prefix(s: Seq<char>, k: int, i: int)
    requires
        0 <= i <= k <= s.len(),
        forall|j: int| 0 <= j < k ==> s[j] != '\\',
        unescape_from(s, k) is Err,
    ensures
        unescape_from(s, i) == unescape_from(s, k),
    decreases k - i,
{
    if i < k {
        lemma_unescape_prefix(s, k, i + 1);
    }
}

/// A backslash followed by a character that is none of `\`, `'`, `"`,
/// `n`, `r` and `t` is an error at that backslash: unescaping fails with
/// the offset in bytes of the first such backslash.
pub proof fn lemma_unescape_rejects(before: Seq<char>, c: char, after: Seq<char>)
    requires
        no_backslash(before),
        escaped(c) is None,
    ensures
        unescape_spec(before + seq!['\\', c] + after) == Err::<Seq<char>, nat>(byte_len(before)),
{
    let s = before + seq!['\\', c] + after;
    let k = before.len() as int;
    assert(s[k] == '\\');
    assert(s[k + 1] == c);
    assert(unescape_from(s, k) == Err::<Seq<char>, int>(k));
    assert forall|j: int| 0 <= j < k implies s[j] != '\\' by {
        assert(s[j] == before[j]);
    }
    lemma_unescape_prefix(s, k, 0);
    assert(s.take(k) =~= before);
}

/// The error of a string literal with a wrong escape names the character
/// after the backslash, and its span is the byte after the backslash:
/// the byte at the start of the token, plus the quote, plus what stands
/// before the backslash, plus the backslash.
pub proof fn lemma_string_escape_error(
    quote: char,
    before: Seq<char>,
    c: char,
    after: Seq<char>,
    span: Span,
)
    requires
        no_backslash(before),
        escaped(c) is None,
    ensures
        ({
            let lexeme = seq![quote] + before + seq!['\\', c] + after + seq![quote];
            let token = Token { kind: TokenKind::Literal(Literal::String), span };
            let lo = span.lo + 1 + byte_len(before) + 1;
            lit_token_spec(lexeme, token) == Err::<Option<LitView>, Error>(
                Error(ErrorKind::Escape(c, Span { lo: lo as u32, hi: (lo + 1) as u32 }), None),
            )
        }),
{
    let lexeme = seq![quote] + before + seq!['\\', c] + after + seq![quote];
    let inner = before + seq!['\\', c] + after;
    assert(shorten_spec(lexeme) =~= inner);
    lemma_unescape_rejects(before, c, after);
    let k = before.len() as int;
    assert(inner[k + 1] == c);
    assert(inner.take(k) =~= before);
    assert(unescape_from(inner, 0) == Err::<Seq<char>, int>(k)) by {
        assert(inner[k] == '\\');
        assert(unescape_from(inner, k) == Err::<Seq<char>, int>(k));
        assert forall|j: int| 0 <= j < k implies inner[j] != '\\' by {
            assert(inner[j] == before[j]);
        }
        lemma_unescape_prefix(inner, k, 0);
    }
}

/// An integer literal that fits into 64 bits has the value that its
/// digits denote in its base, so that writing the value in that base
/// gives the same number again. Zeros before the number change nothing.
pub proof fn lemma_lit_int_is_the_number(s: Seq<char>, radix: u32)
    requires
        digits_of_base(s, radix),
        number_of(s, radix) <= i64::MAX,
    ensures
        lit_int_spec(s, radix) == Some(number_of(s, radix) as i64),
        lit_int_spec(s, radix)->0 == number_of(s, radix),
{
}

/// An integer literal that does not fit into 64 bits: the one number
/// that is one more than the greatest 64-bit integer is held as the
/// least 64-bit integer, and every greater number is given up.
pub proof fn lemma_lit_int_overflow(s: Seq<char>, radix: u32)
    requires
        digits_of_base(s, radix),
        number_of(s, radix) > i64::MAX,
    ensures
        number_of(s, radix) == 0x8000_0000_0000_0000 ==> lit_int_spec(s, radix) == Some(i64::MIN),
        number_of(s, radix) != 0x8000_0000_0000_0000 ==> lit_int_spec(s, radix) is None,
{
}

/// A text with a character that is neither a digit of the base nor an
/// underscore is no 64-bit integer.
pub proof fn lemma_lit_int_rejects(s: Seq<char>, radix: u32, i: int)
    requires
        0 <= i < s.len(),
        s[i] != '_',
        digit_of(s[i], radix) is None,
    ensures
        lit_int_spec(s, radix) is None,
{
}

/// An integer token whose digits start with a digit and are digits of
/// the base and underscores is never an error. It is held in 64 bits
/// where its number is at most the greatest 64-bit integer, or one more,
/// and is a big integer in every other case, and only then.
pub proof fn lemma_integer_falls_back(lexeme: Seq<char>, radix: Radix, span: Span)
    requires
        int_digits(lexeme, radix).len() > 0,
        int_digits(lexeme, radix)[0] != '_',
        digits_of_base(int_digits(lexeme, radix), radix.spec_value()),
    ensures
        ({
            let token = Token { kind: TokenKind::Literal(Literal::Integer(radix)), span };
            let digits = int_digits(lexeme, radix);
            let number = number_of(digits, radix.spec_value());
            lit_token_spec(lexeme, token) == Ok::<Option<LitView>, Error>(
                Some(
                    LitView {
                        span,
                        kind: if number <= i64::MAX {
                            LiteralKindView::Int(number as i64)
                        } else if number == 0x8000_0000_0000_0000 {
                            LiteralKindView::Int(i64::MIN)
                        } else {
                            LiteralKindView::BigInt(
                                big_int_from_str_radix(digits, radix.spec_value()),
                            )
                        },
                    },
                ),
            )
        }),
{
    let digits = int_digits(lexeme, radix);
    assert(digit_of(digits[0], radix.spec_value()) is Some);
    assert(unsigned_part(digits) == digits);
    assert(is_big_int_text(digits, radix.spec_value()));
}

} // verus!

//! The values of literal tokens.

use crate::lex::Literal;
use crate::lex::Radix;
use crate::lex::TimingLiteralKind;
use crate::lex::Token;
use crate::lex::TokenKind;
use crate::lex::Keyword;
use crate::parser::ast::Lit;
use crate::parser::ast::LitView;
use crate::parser::ast::LiteralKind;
use crate::parser::ast::LiteralKindView;
use crate::parser::ast::TimeUnit;
use crate::parser::ast::Version;
use crate::parser::error::Error;
use crate::parser::error::ErrorKind;
use crate::span::Span;
use crate::text::byte_len;
use crate::text::is_dec_digit;
use crate::text::string_of;
use crate::text::chars_of;
use crate::text::digit_of;
use crate::text::lemma_byte_len_push;
use crate::text::lemma_byte_len_take;
use crate::text::len_utf8;
use crate::text::string_push;
use crate::text::to_digit;
use num_bigint::BigInt;
use num_traits::Num;
use vstd::prelude::*;

verus! {

/// Whether every character of `s` is a digit of the base or an
/// underscore.
pub open spec fn digits_of_base(s: Seq<char>, radix: u32) -> bool {
    forall|i: int| 0 <= i < s.len() ==> s[i] == '_' || digit_of(#[trigger] s[i], radix) is Some
}

/// The number that the digits of `s` denote in base `radix`, the first
/// digit counting most. Underscores do not count.
pub open spec fn number_of(s: Seq<char>, radix: u32) -> nat
    decreases s.len(),
{
    if s.len() == 0 {
        0
    } else if s.last() == '_' {
        number_of(s.drop_last(), radix)
    } else {
        (number_of(s.drop_last(), radix) * radix + (match digit_of(s.last(), radix) {
            Some(d) => d as nat,
            None => 0nat,
        })) as nat
    }
}

/// The value of the integer literal `s` in base `radix`, if it is held in
/// 64 bits: the number that its digits denote where that is at most the
/// greatest 64-bit integer, and the least 64-bit integer where the number
/// is one more than the greatest. Every greater number, and every text
/// with a character that is neither a digit of the base nor an
/// underscore, has none.
pub open spec fn lit_int_spec(s: Seq<char>, radix: u32) -> Option<i64> {
    if !digits_of_base(s, radix) {
        None
    } else if number_of(s, radix) <= i64::MAX {
        Some(number_of(s, radix) as i64)
    } else if number_of(s, radix) == 0x8000_0000_0000_0000 {
        Some(i64::MIN)
    } else {
        None
    }
}

/// Digits that follow do not make a number smaller.
pub proof fn lemma_number_grows(s: Seq<char>, k: int, radix: u32)
    requires
        0 <= k <= s.len(),
        radix >= 1,
    ensures
        number_of(s.take(k), radix) <= number_of(s, radix),
    decreases s.len() - k,
{
    if k < s.len() {
        lemma_number_grows(s, k + 1, radix);
        assert(s.take(k + 1).drop_last() =~= s.take(k));
        let n = number_of(s.take(k), radix);
        assert(n <= n * radix) by (nonlinear_arith)
            requires
                radix >= 1,
                n >= 0,
        ;
    } else {
        assert(s.take(k) =~= s);
    }
}

/// The value of the integer literal `chars[from..]` in base `radix`.
pub fn lit_int_chars(chars: &Vec<char>, from: usize, radix: u32) -> (r: Option<i64>)
    requires
        from <= chars@.len(),
        2 <= radix <= 36,
    ensures
        r == lit_int_spec(chars@.skip(from as int), radix),
{
    let ghost s = chars@.skip(from as int);
    let mut value: u128 = 0;
    let mut i = from;
    proof {
        assert(s.take(0) =~= Seq::<char>::empty());
    }
    while i < chars.len()
        invariant
            from <= i <= chars@.len(),
            2 <= radix <= 36,
            s == chars@.skip(from as int),
            digits_of_base(s.take(i - from), radix),
            value == number_of(s.take(i - from), radix),
            value <= 0x8000_0000_0000_0000,
        decreases chars@.len() - i,
    {
        let c = chars[i];
        proof {
            assert(s[i - from] == c);
            assert(s.take(i - from + 1).drop_last() =~= s.take(i - from));
            assert(s.take(i - from + 1).last() == c);
        }
        if c != '_' {
            let digit = match to_digit(c, radix) {
                Some(digit) => digit,
                None => {
                    proof {
                        assert(digit_of(s[i - from], radix) is None);
                    }
                    return None;
                },
            };
            assert(value * (radix as u128) + (digit as u128) <= 0x8000_0000_0000_0000 * 36 + 35)
                by (nonlinear_arith)
                requires
                    value <= 0x8000_0000_0000_0000,
                    radix <= 36,
                    digit < 36,
            ;
            value = value * (radix as u128) + (digit as u128);
            if value > 0x8000_0000_0000_0000 {
                proof {
                    lemma_number_grows(s, i - from + 1, radix);
                }
                return None;
            }
        }
        proof {
            assert forall|k: int| 0 <= k < i - from + 1 implies s.take(i - from + 1)[k] == '_'
                || digit_of(#[trigger] s.take(i - from + 1)[k], radix) is Some by {
                if k < i - from {
                    assert(s.take(i - from)[k] == s.take(i - from + 1)[k]);
                }
            }
        }
        i += 1;
    }
    proof {
        assert(s.take(i - from) =~= s);
    }
    if value <= i64::MAX as u128 {
        Some(value as i64)
    } else {
        Some(i64::MIN)
    }
}

/// The value of the integer literal `lexeme` in base `radix`, if it is
/// held in 64 bits: the number that its digits denote, and the least
/// 64-bit integer for the one number that is one more than the greatest.
/// Underscores do not count; a character that is no digit of the base,
/// and every greater number, give `None`.
pub fn lit_int(lexeme: &str, radix: u32) -> (r: Option<i64>)
    requires
        2 <= radix <= 36,
    ensures
        r == lit_int_spec(lexeme@, radix),
{
    let chars = chars_of(lexeme);
    proof {
        assert(chars@.skip(0) =~= chars@);
    }
    lit_int_chars(&chars, 0, radix)
}

/// The text without its sign, if it starts with one.
pub open spec fn unsigned_part(s: Seq<char>) -> Seq<char> {
    if s.len() > 0 && (s[0] == '-' || s[0] == '+') {
        s.skip(1)
    } else {
        s
    }
}

/// Whether `s` is an integer in base `radix`: an optional sign, then
/// digits of the base and underscores, of which the first is a digit.
pub open spec fn is_big_int_text(s: Seq<char>, radix: u32) -> bool {
    let body = unsigned_part(s);
    &&& body.len() > 0
    &&& body[0] != '_'
    &&& forall|i: int| 0 <= i < body.len() ==> body[i] == '_' || digit_of(#[trigger] body[i], radix) is Some
}

/// The integer that `BigInt::from_str_radix` makes of a text.
pub uninterp spec fn big_int_from_str_radix(s: Seq<char>, radix: u32) -> BigInt;

/// `BigInt::from_str_radix`: the integer that the text denotes in base
/// `radix`. It succeeds on an optional sign followed by digits of the base
/// and underscores that start with a digit, and on nothing else.
#[verifier::external_body]
pub(crate) fn lit_bigint(lexeme: &str, radix: u32) -> (r: Option<BigInt>)
    requires
        2 <= radix <= 36,
    ensures
        r is Some <==> is_big_int_text(lexeme@, radix),
        r matches Some(value) ==> value == big_int_from_str_radix(lexeme@, radix),
{
    match BigInt::from_str_radix(lexeme, radix) {
        Ok(value) => Some(value),
        Err(_) => None,
    }
}

/// What the character after a backslash stands for, if the two are an
/// escape.
pub open spec fn escaped(c: char) -> Option<char> {
    if c == '\\' {
        Some('\\')
    } else if c == '\'' {
        Some('\'')
    } else if c == '"' {
        Some('"')
    } else if c == 'n' {
        Some('\n')
    } else if c == 'r' {
        Some('\r')
    } else if c == 't' {
        Some('\t')
    } else {
        None
    }
}

/// The text `s[i..]` with each escape replaced by the character it stands
/// for; or the index of the first backslash that starts no escape, because
/// no character or a wrong one follows it.
pub open spec fn unescape_from(s: Seq<char>, i: int) -> Result<Seq<char>, int>
    decreases s.len() - i,
{
    if i < 0 || i >= s.len() {
        Ok(Seq::empty())
    } else if s[i] != '\\' {
        match unescape_from(s, i + 1) {
            Ok(rest) => Ok(seq![s[i]] + rest),
            Err(at) => Err(at),
        }
    } else if i + 1 < s.len() && escaped(s[i + 1]) is Some {
        match unescape_from(s, i + 2) {
            Ok(rest) => Ok(seq![escaped(s[i + 1])->0] + rest),
            Err(at) => Err(at),
        }
    } else {
        Err(i)
    }
}

/// The text `s` with each escape replaced by the character it stands for;
/// or the offset in bytes of the first backslash that starts no escape.
pub open spec fn unescape_spec(s: Seq<char>) -> Result<Seq<char>, nat> {
    match unescape_from(s, 0) {
        Ok(text) => Ok(text),
        Err(at) => Err(byte_len(s.take(at))),
    }
}

/// Where unescaping fails, it fails at a backslash.
pub proof fn lemma_unescape_err(s: Seq<char>, i: int)
    requires
        0 <= i,
        unescape_from(s, i) is Err,
    ensures
        i <= unescape_from(s, i)->Err_0 < s.len(),
        s[unescape_from(s, i)->Err_0] == '\\',
    decreases s.len() - i,
{
    if i < s.len() {
        if s[i] != '\\' {
            lemma_unescape_err(s, i + 1);
        } else if i + 1 < s.len() && escaped(s[i + 1]) is Some {
            lemma_unescape_err(s, i + 2);
        }
    }
}

/// The unescaped characters of `chars[from..to]`, or the index of the
/// first backslash that starts no escape.
pub fn unescape_chars(chars: &Vec<char>, from: usize, to: usize) -> (r: Result<String, usize>)
    requires
        from <= to <= chars@.len(),
    ensures
        match unescape_from(chars@.subrange(from as int, to as int), 0) {
            Ok(text) => r matches Ok(s) && s@ == text,
            Err(at) => r == Err::<String, usize>((at + from) as usize) && from <= at + from < to,
        },
{
    let ghost s = chars@.subrange(from as int, to as int);
    let mut buf = String::new();
    let mut i = from;
    while i < to
        invariant
            from <= i <= to <= chars@.len(),
            s == chars@.subrange(from as int, to as int),
            unescape_from(s, i - from) is Err ==> unescape_from(s, 0) == unescape_from(s, i - from),
            unescape_from(s, i - from) matches Ok(rest) ==> unescape_from(s, 0) == Ok::<
                Seq<char>,
                int,
            >(buf@ + rest),
        decreases to - i,
    {
        let ch = chars[i];
        proof {
            assert(s[i - from] == ch);
        }
        if ch == '\\' {
            if i + 1 < to {
                let escape = chars[i + 1];
                proof {
                    assert(s[i - from + 1] == escape);
                }
                let mapped = if escape == '\\' {
                    '\\'
                } else if escape == '\'' {
                    '\''
                } else if escape == '"' {
                    '"'
                } else if escape == 'n' {
                    '\n'
                } else if escape == 'r' {
                    '\r'
                } else if escape == 't' {
                    '\t'
                } else {
                    return Err(i);
                };
                let ghost before = buf@;
                string_push(&mut buf, mapped);
                proof {
                    if unescape_from(s, i - from + 2) is Ok {
                        let rest = unescape_from(s, i - from + 2)->Ok_0;
                        assert(before + (seq![mapped] + rest) =~= buf@ + rest);
                    }
                }
                i += 2;
            } else {
                return Err(i);
            }
        } else {
            let ghost before = buf@;
            string_push(&mut buf, ch);
            proof {
                if unescape_from(s, i - from + 1) is Ok {
                    let rest = unescape_from(s, i - from + 1)->Ok_0;
                    assert(before + (seq![ch] + rest) =~= buf@ + rest);
                }
            }
            i += 1;
        }
    }
    proof {
        assert(buf@ + Seq::<char>::empty() =~= buf@);
    }
    Ok(buf)
}

/// The offset in bytes of the character `at` of `chars[from..]`.
pub fn byte_offset(chars: &Vec<char>, from: usize, at: usize) -> (r: usize)
    requires
        from <= at <= chars@.len(),
        byte_len(chars@.subrange(from as int, at as int)) <= usize::MAX,
    ensures
        r == byte_len(chars@.subrange(from as int, at as int)),
{
    let mut offset: usize = 0;
    let mut i = from;
    proof {
        assert(chars@.subrange(from as int, from as int) =~= Seq::<char>::empty());
    }
    while i < at
        invariant
            from <= i <= at <= chars@.len(),
            offset == byte_len(chars@.subrange(from as int, i as int)),
            byte_len(chars@.subrange(from as int, at as int)) <= usize::MAX,
        decreases at - i,
    {
        proof {
            let whole = chars@.subrange(from as int, at as int);
            let part = chars@.subrange(from as int, i as int);
            lemma_byte_len_push(part, chars@[i as int]);
            assert(part.push(chars@[i as int]) =~= chars@.subrange(from as int, i + 1));
            lemma_byte_len_take(whole, i + 1 - from);
            assert(whole.take(i + 1 - from) =~= chars@.subrange(from as int, i + 1));
        }
        offset += len_utf8(chars[i]);
        i += 1;
    }
    offset
}

/// The text `s` with each of the escapes `\\`, `\'`, `\"`, `\n`, `\r` and
/// `\t` replaced by the character it stands for; or the offset in bytes of
/// the first backslash that starts no escape.
pub fn unescape(s: &str) -> (r: Result<String, usize>)
    ensures
        match unescape_spec(s@) {
            Ok(text) => r matches Ok(out) && out@ == text,
            Err(at) => r == Err::<String, usize>(at as usize),
        },
{
    let chars = chars_of(s);
    let n = chars.len();
    proof {
        assert(chars@.subrange(0, n as int) =~= chars@);
    }
    match unescape_chars(&chars, 0, n) {
        Ok(out) => Ok(out),
        Err(at) => {
            let bytes = s.as_bytes();
            let total = bytes.len();
            proof {
                lemma_byte_len_take(s@, at as int);
                assert(chars@.subrange(0, at as int) =~= s@.take(at as int));
                assert(byte_len(s@) == bytes@.len());
            }
            Err(byte_offset(&chars, 0, at))
        },
    }
}

/// The text without its underscores.
pub open spec fn strip_underscores(s: Seq<char>) -> Seq<char>
    decreases s.len(),
{
    if s.len() == 0 {
        Seq::empty()
    } else if s.last() == '_' {
        strip_underscores(s.drop_last())
    } else {
        strip_underscores(s.drop_last()).push(s.last())
    }
}

/// The characters of `chars` that are no underscores.
fn without_underscores(chars: &Vec<char>) -> (r: Vec<char>)
    ensures
        r@ == strip_underscores(chars@),
{
    let mut out: Vec<char> = Vec::new();
    let mut i: usize = 0;
    while i < chars.len()
        invariant
            i <= chars@.len(),
            out@ == strip_underscores(chars@.take(i as int)),
        decreases chars@.len() - i,
    {
        proof {
            assert(chars@.take(i + 1).drop_last() =~= chars@.take(i as int));
        }
        if chars[i] != '_' {
            out.push(chars[i]);
        }
        i += 1;
    }
    proof {
        assert(chars@.take(i as int) =~= chars@);
    }
    out
}

/// The end of the run of decimal digits that starts at `i`.
pub open spec fn digits_end(s: Seq<char>, i: int) -> int
    decreases s.len() - i,
{
    if 0 <= i < s.len() && is_dec_digit(s[i]) {
        digits_end(s, i + 1)
    } else {
        i
    }
}

/// The end of the run of decimal digits that starts at `i`.
fn scan_digits(chars: &Vec<char>, i: usize) -> (r: usize)
    requires
        i <= chars@.len(),
    ensures
        r == digits_end(chars@, i as int),
        i <= r <= chars@.len(),
{
    let mut j = i;
    while j < chars.len() && 48 <= chars[j] as u32 && chars[j] as u32 <= 57
        invariant
            i <= j <= chars@.len(),
            digits_end(chars@, i as int) == digits_end(chars@, j as int),
        decreases chars@.len() - j,
    {
        j += 1;
    }
    j
}

/// Whether `char::is_numeric` holds of a character.
pub uninterp spec fn is_numeric(c: char) -> bool;

/// `char::is_numeric`: whether the character is a numeral of some
/// script. The digits `0` to `9` are.
#[verifier::external_body]
fn char_is_numeric(c: char) -> (r: bool)
    ensures
        r == is_numeric(c),
        is_dec_digit(c) ==> r,
{
    c.is_numeric()
}

/// Whether a character belongs to the number at the start of a literal
/// that ends in a unit: numerals and dots do.
pub open spec fn belongs_to_number(c: char, numeric: bool) -> bool {
    numeric || c == '.'
}

/// Whether the character `c`, which is a numeral or not as `numeric`
/// says, belongs to the number at the start of a literal.
pub fn in_number(c: char, numeric: bool) -> (r: bool)
    ensures
        r == belongs_to_number(c, numeric),
{
    numeric || c == '.'
}

/// The end of the run of numerals and dots that starts at `i`.
pub open spec fn numeric_end(s: Seq<char>, i: int) -> int
    decreases s.len() - i,
{
    if 0 <= i < s.len() && belongs_to_number(s[i], is_numeric(s[i])) {
        numeric_end(s, i + 1)
    } else {
        i
    }
}

/// The leading run of numerals and dots of a text.
pub open spec fn numeric_prefix(s: Seq<char>) -> Seq<char> {
    s.take(numeric_end(s, 0))
}

/// The end of the leading run of numerals and dots.
fn scan_numeric(chars: &Vec<char>) -> (r: usize)
    ensures
        r == numeric_end(chars@, 0),
        r <= chars@.len(),
{
    let mut j: usize = 0;
    while j < chars.len() && in_number(chars[j], char_is_numeric(chars[j]))
        invariant
            j <= chars@.len(),
            numeric_end(chars@, 0) == numeric_end(chars@, j as int),
        decreases chars@.len() - j,
    {
        j += 1;
    }
    j
}

/// The lower-case letter of an upper-case one; every other character
/// itself.
pub open spec fn lower(c: char) -> u32 {
    if 65 <= c as u32 <= 90 {
        (c as u32 + 32) as u32
    } else {
        c as u32
    }
}

/// Whether `s` is one of the words `inf`, `infinity` and `nan`, in any
/// case.
pub open spec fn is_special_float(s: Seq<char>) -> bool {
    ||| s.len() == 3 && lower(s[0]) == 'i' as u32 && lower(s[1]) == 'n' as u32 && lower(s[2])
        == 'f' as u32
    ||| s.len() == 3 && lower(s[0]) == 'n' as u32 && lower(s[1]) == 'a' as u32 && lower(s[2])
        == 'n' as u32
    ||| s.len() == 8 && lower(s[0]) == 'i' as u32 && lower(s[1]) == 'n' as u32 && lower(s[2])
        == 'f' as u32 && lower(s[3]) == 'i' as u32 && lower(s[4]) == 'n' as u32 && lower(s[5])
        == 'i' as u32 && lower(s[6]) == 't' as u32 && lower(s[7]) == 'y' as u32
}

/// Whether `s[start..]` is a decimal number: digits with at most one dot
/// among them, at least one digit in all, and then, if anything, an
/// exponent: `e` or `E`, an optional sign, and at least one digit.
pub open spec fn is_number_text(s: Seq<char>, start: int) -> bool {
    let int_end = digits_end(s, start);
    let has_dot = int_end < s.len() && s[int_end] == '.';
    let frac_end = if has_dot {
        digits_end(s, int_end + 1)
    } else {
        int_end
    };
    let digits = if has_dot {
        frac_end - start - 1
    } else {
        frac_end - start
    };
    let exp_start = if frac_end + 1 < s.len() && (s[frac_end + 1] == '+' || s[frac_end + 1] == '-') {
        frac_end + 2
    } else {
        frac_end + 1
    };
    &&& digits > 0
    &&& (frac_end == s.len() || ((s[frac_end] == 'e' || s[frac_end] == 'E') && digits_end(
        s,
        exp_start,
    ) > exp_start && digits_end(s, exp_start) == s.len()))
}

/// Whether `s` is the text of a 64-bit floating-point number: an optional
/// sign, then a decimal number or one of the words `inf`, `infinity` and
/// `nan`.
pub open spec fn is_float_text(s: Seq<char>) -> bool {
    let start: int = if s.len() > 0 && (s[0] == '+' || s[0] == '-') {
        1
    } else {
        0
    };
    is_special_float(s.skip(start)) || is_number_text(s, start)
}

/// The lower-case letter of an upper-case one; every other character
/// itself.
fn to_lower(c: char) -> (r: u32)
    ensures
        r == lower(c),
{
    let v = c as u32;
    if 65 <= v && v <= 90 {
        v + 32
    } else {
        v
    }
}

/// Whether `chars` is the text of a 64-bit floating-point number.
pub fn is_float(chars: &Vec<char>) -> (r: bool)
    ensures
        r == is_float_text(chars@),
{
    let n = chars.len();
    let start: usize = if n > 0 && (chars[0] == '+' || chars[0] == '-') {
        1
    } else {
        0
    };
    let ghost rest = chars@.skip(start as int);
    if n - start == 3 {
        let a = to_lower(chars[start]);
        let b = to_lower(chars[start + 1]);
        let c = to_lower(chars[start + 2]);
        proof {
            assert(rest[0] == chars@[start as int] && rest[1] == chars@[start + 1] && rest[2]
                == chars@[start + 2]);
        }
        if (a == 'i' as u32 && b == 'n' as u32 && c == 'f' as u32) || (a == 'n' as u32 && b
            == 'a' as u32 && c == 'n' as u32) {
            return true;
        }
    }
    if n - start == 8 {
        proof {
            assert(forall|k: int| 0 <= k < 8 ==> rest[k] == chars@[start + k]);
        }
        if to_lower(chars[start]) == 'i' as u32 && to_lower(chars[start + 1]) == 'n' as u32
            && to_lower(chars[start + 2]) == 'f' as u32 && to_lower(chars[start + 3]) == 'i' as u32
            && to_lower(chars[start + 4]) == 'n' as u32 && to_lower(chars[start + 5]) == 'i' as u32
            && to_lower(chars[start + 6]) == 't' as u32 && to_lower(chars[start + 7]) == 'y' as u32 {
            return true;
        }
    }
    assert(!is_special_float(rest));
    let int_end = scan_digits(chars, start);
    let has_dot = int_end < n && chars[int_end] == '.';
    let frac_end = if has_dot {
        scan_digits(chars, int_end + 1)
    } else {
        int_end
    };
    let digits = if has_dot {
        frac_end - start - 1
    } else {
        frac_end - start
    };
    if digits == 0 {
        return false;
    }
    if frac_end == n {
        return true;
    }
    if chars[frac_end] != 'e' && chars[frac_end] != 'E' {
        return false;
    }
    let exp_start = if frac_end + 1 < n && (chars[frac_end + 1] == '+' || chars[frac_end + 1] == '-') {
        frac_end + 2
    } else {
        frac_end + 1
    };
    let exp_end = scan_digits(chars, exp_start);
    exp_end > exp_start && exp_end == n
}

/// The number that the decimal digits of `s` denote.
pub open spec fn digits_value(s: Seq<char>) -> nat
    decreases s.len(),
{
    if s.len() == 0 {
        0
    } else if is_dec_digit(s.last()) {
        digits_value(s.drop_last()) * 10 + (s.last() as u32 - 48) as nat
    } else {
        digits_value(s.drop_last()) * 10
    }
}

/// Whether every character of `s` is a decimal digit.
pub open spec fn all_digits(s: Seq<char>) -> bool {
    forall|i: int| 0 <= i < s.len() ==> is_dec_digit(#[trigger] s[i])
}

/// The unsigned 32-bit number that `s` denotes: an optional `+`, then
/// at least one decimal digit, and a value that fits.
pub open spec fn parse_u32_spec(s: Seq<char>) -> Option<u32> {
    let body = if s.len() > 0 && s[0] == '+' {
        s.skip(1)
    } else {
        s
    };
    if body.len() > 0 && all_digits(body) && digits_value(body) <= u32::MAX {
        Some(digits_value(body) as u32)
    } else {
        None
    }
}

/// Digits that follow do not make a number smaller.
proof fn lemma_digits_value_grows(s: Seq<char>, i: int)
    requires
        0 <= i <= s.len(),
    ensures
        digits_value(s.take(i)) <= digits_value(s),
    decreases s.len() - i,
{
    if i < s.len() {
        lemma_digits_value_grows(s, i + 1);
        assert(s.take(i + 1).drop_last() =~= s.take(i));
    } else {
        assert(s.take(i) =~= s);
    }
}

/// The unsigned 32-bit number that `chars[from..to]` denotes.
pub fn parse_u32(chars: &Vec<char>, from: usize, to: usize) -> (r: Option<u32>)
    requires
        from <= to <= chars@.len(),
    ensures
        r == parse_u32_spec(chars@.subrange(from as int, to as int)),
{
    let ghost s = chars@.subrange(from as int, to as int);
    let start = if from < to && chars[from] == '+' {
        from + 1
    } else {
        from
    };
    let ghost body = chars@.subrange(start as int, to as int);
    proof {
        if start > from {
            assert(s[0] == '+');
            assert(s.skip(1) =~= body);
        } else {
            if s.len() > 0 {
                assert(s[0] == chars@[from as int]);
            }
            assert(s =~= body);
        }
    }
    if start == to {
        return None;
    }
    let mut value: u64 = 0;
    let mut i = start;
    proof {
        assert(body.take(0) =~= Seq::<char>::empty());
    }
    while i < to
        invariant
            start <= i <= to <= chars@.len(),
            body == chars@.subrange(start as int, to as int),
            parse_u32_spec(chars@.subrange(from as int, to as int)) == (if body.len() > 0
                && all_digits(body) && digits_value(body) <= u32::MAX {
                Some(digits_value(body) as u32)
            } else {
                None
            }),
            all_digits(body.take(i - start)),
            value == digits_value(body.take(i - start)),
            value <= u32::MAX,
        decreases to - i,
    {
        let v = chars[i] as u32;
        proof {
            assert(body[i - start] == chars@[i as int]);
            assert(body.take(i - start + 1).drop_last() =~= body.take(i - start));
        }
        if v < 48 || v > 57 {
            proof {
                assert(!is_dec_digit(body[i - start]));
            }
            return None;
        }
        value = value * 10 + (v - 48) as u64;
        if value > u32::MAX as u64 {
            proof {
                lemma_digits_value_grows(body, i - start + 1);
            }
            return None;
        }
        i += 1;
    }
    proof {
        assert(body.take(i - start) =~= body);
    }
    Some(value as u32)
}

/// The first index from `i` on at which `s` holds a dot, or the length of
/// `s` if there is none.
pub open spec fn dot_from(s: Seq<char>, i: int) -> int
    decreases s.len() - i,
{
    if 0 <= i < s.len() && s[i] != '.' {
        dot_from(s, i + 1)
    } else if i > s.len() {
        s.len() as int
    } else {
        i
    }
}

/// The first index from `i` on at which `chars` holds a dot.
fn find_dot(chars: &Vec<char>, i: usize) -> (r: usize)
    requires
        i <= chars@.len(),
    ensures
        r == dot_from(chars@, i as int),
        i <= r <= chars@.len(),
{
    let mut j = i;
    while j < chars.len() && chars[j] != '.'
        invariant
            i <= j <= chars@.len(),
            dot_from(chars@, i as int) == dot_from(chars@, j as int),
        decreases chars@.len() - j,
    {
        j += 1;
    }
    j
}

/// The two numbers of a version `major.minor`. The text has exactly one
/// dot, with an unsigned 32-bit number on either side of it.
pub open spec fn split_version_spec(s: Seq<char>, span: Span) -> Result<(u32, u32), Error> {
    let dot = dot_from(s, 0);
    if dot >= s.len() || dot_from(s, dot + 1) < s.len() {
        Err(Error(ErrorKind::Lit("version", span), None))
    } else if parse_u32_spec(s.take(dot)) is None {
        Err(Error(ErrorKind::Lit("version major", span), None))
    } else if parse_u32_spec(s.skip(dot + 1)) is None {
        Err(Error(ErrorKind::Lit("version minor", span), None))
    } else {
        Ok((parse_u32_spec(s.take(dot))->0, parse_u32_spec(s.skip(dot + 1))->0))
    }
}

/// The two numbers of a version `major.minor`.
fn split_and_parse_numbers(chars: &Vec<char>, token: Token) -> (r: Result<(u32, u32), Error>)
    ensures
        r == split_version_spec(chars@, token.span),
{
    let n = chars.len();
    let dot = find_dot(chars, 0);
    if dot >= n {
        return Err(Error::new(ErrorKind::Lit("version", token.span)));
    }
    if find_dot(chars, dot + 1) < n {
        return Err(Error::new(ErrorKind::Lit("version", token.span)));
    }
    proof {
        assert(chars@.subrange(0, dot as int) =~= chars@.take(dot as int));
        assert(chars@.subrange(dot + 1, n as int) =~= chars@.skip(dot + 1));
    }
    let left = match parse_u32(chars, 0, dot) {
        Some(v) => v,
        None => {
            return Err(Error::new(ErrorKind::Lit("version major", token.span)));
        },
    };
    let right = match parse_u32(chars, dot + 1, n) {
        Some(v) => v,
        None => {
            return Err(Error::new(ErrorKind::Lit("version minor", token.span)));
        },
    };
    Ok((left, right))
}

/// The version that a token declares. A floating-point token gives a
/// major and a minor number, a decimal integer token a major number
/// alone, and a token that is no number gives no version.
pub open spec fn version_token_spec(lexeme: Seq<char>, token: Token) -> Result<
    Option<Version>,
    Error,
> {
    match token.kind {
        TokenKind::Literal(Literal::Float) => match split_version_spec(lexeme, token.span) {
            Ok(pair) => Ok(Some(Version { major: pair.0, minor: Some(pair.1), span: token.span })),
            Err(e) => Err(e),
        },
        TokenKind::Literal(Literal::Integer(radix)) => if radix != Radix::Decimal {
            Err(Error(ErrorKind::Lit("version", token.span), None))
        } else {
            match parse_u32_spec(lexeme) {
                Some(major) => Ok(Some(Version { major, minor: None, span: token.span })),
                None => Err(Error(ErrorKind::Lit("version", token.span), None)),
            }
        },
        _ => Ok(None),
    }
}

/// The version that a token declares.
pub fn version_token(lexeme: &str, token: Token) -> (r: Result<Option<Version>, Error>)
    ensures
        r == version_token_spec(lexeme@, token),
{
    match token.kind {
        TokenKind::Literal(literal) => {
            match literal {
                Literal::Float => {
                    let chars = chars_of(lexeme);
                    match split_and_parse_numbers(&chars, token) {
                        Ok((major, minor)) => Ok(
                            Some(Version { major, minor: Some(minor), span: token.span }),
                        ),
                        Err(e) => Err(e),
                    }
                },
                Literal::Integer(radix) => {
                    if radix != Radix::Decimal {
                        return Err(Error::new(ErrorKind::Lit("version", token.span)));
                    }
                    let chars = chars_of(lexeme);
                    proof {
                        assert(chars@.subrange(0, chars@.len() as int) =~= chars@);
                    }
                    match parse_u32(&chars, 0, chars.len()) {
                        Some(major) => Ok(Some(Version { major, minor: None, span: token.span })),
                        None => Err(Error::new(ErrorKind::Lit("version", token.span))),
                    }
                },
                _ => Ok(None),
            }
        },
        _ => Ok(None),
    }
}

/// The unit that a kind of timing literal names.
pub open spec fn time_unit(kind: TimingLiteralKind) -> TimeUnit {
    match kind {
        TimingLiteralKind::Dt => TimeUnit::Dt,
        TimingLiteralKind::Ns => TimeUnit::Ns,
        TimingLiteralKind::Us => TimeUnit::Us,
        TimingLiteralKind::Ms => TimeUnit::Ms,
        TimingLiteralKind::S => TimeUnit::S,
    }
}

/// The number at the start of a literal that ends in a unit: the leading
/// run of numerals and dots of the text without its underscores.
pub open spec fn leading_number(lexeme: Seq<char>) -> Seq<char> {
    numeric_prefix(strip_underscores(lexeme))
}

/// The number at the start of a literal that ends in a unit, if it is
/// the text of a floating-point number.
fn leading_float(lexeme: &str) -> (r: Option<String>)
    ensures
        is_float_text(leading_number(lexeme@)) ==> (r matches Some(text) && text@
            == leading_number(lexeme@)),
        !is_float_text(leading_number(lexeme@)) ==> r is None,
{
    let chars = chars_of(lexeme);
    let cleaned = without_underscores(&chars);
    let end = scan_numeric(&cleaned);
    let mut prefix: Vec<char> = Vec::new();
    let mut i: usize = 0;
    while i < end
        invariant
            i <= end <= cleaned@.len(),
            prefix@ == cleaned@.take(i as int),
        decreases end - i,
    {
        prefix.push(cleaned[i]);
        proof {
            assert(cleaned@.take(i + 1) =~= cleaned@.take(i as int).push(cleaned@[i as int]));
        }
        i += 1;
    }
    if is_float(&prefix) {
        proof {
            assert(prefix@.subrange(0, prefix@.len() as int) =~= prefix@);
        }
        Some(string_of(&prefix, 0, prefix.len()))
    } else {
        None
    }
}

/// The value of a timing literal: the number at its start with the unit
/// of the token.
pub open spec fn timing_literal_spec(lexeme: Seq<char>, token: Token, kind: TimingLiteralKind) -> Result<
    Option<LitView>,
    Error,
> {
    if is_float_text(leading_number(lexeme)) {
        Ok(
            Some(
                LitView {
                    span: token.span,
                    kind: LiteralKindView::Duration(leading_number(lexeme), time_unit(kind)),
                },
            ),
        )
    } else {
        Err(Error(ErrorKind::Lit("timing", token.span), None))
    }
}

/// The view of what the reading of a literal gave.
pub open spec fn lit_result_view(r: Result<Option<Lit>, Error>) -> Result<Option<LitView>, Error> {
    match r {
        Ok(Some(lit)) => Ok(Some(lit@)),
        Ok(None) => Ok(None),
        Err(e) => Err(e),
    }
}

/// The value of a timing literal.
fn timing_literal(lexeme: &str, token: Token, kind: TimingLiteralKind) -> (r: Result<
    Option<Lit>,
    Error,
>)
    ensures
        lit_result_view(r) == timing_literal_spec(lexeme@, token, kind),
{
    let value = match leading_float(lexeme) {
        Some(value) => value,
        None => {
            return Err(Error::new(ErrorKind::Lit("timing", token.span)));
        },
    };
    let unit = match kind {
        TimingLiteralKind::Dt => TimeUnit::Dt,
        TimingLiteralKind::Ns => TimeUnit::Ns,
        TimingLiteralKind::Us => TimeUnit::Us,
        TimingLiteralKind::Ms => TimeUnit::Ms,
        TimingLiteralKind::S => TimeUnit::S,
    };
    Ok(Some(Lit { span: token.span, kind: LiteralKind::Duration(value, unit) }))
}

/// The text without its first and its last character; nothing of a text
/// of fewer than two characters.
pub open spec fn shorten_spec(s: Seq<char>) -> Seq<char> {
    if s.len() >= 2 {
        s.subrange(1, s.len() - 1)
    } else {
        Seq::empty()
    }
}

/// The number of characters of `s` that are `0` or `1`.
pub open spec fn count_bits(s: Seq<char>) -> nat
    decreases s.len(),
{
    if s.len() == 0 {
        0
    } else {
        count_bits(s.drop_last()) + if s.last() == '0' || s.last() == '1' {
            1nat
        } else {
            0nat
        }
    }
}

/// The number of characters of `chars` that are `0` or `1`.
fn bit_count(chars: &Vec<char>) -> (r: usize)
    ensures
        r == count_bits(chars@),
{
    let mut count: usize = 0;
    let mut i: usize = 0;
    while i < chars.len()
        invariant
            i <= chars@.len(),
            count == count_bits(chars@.take(i as int)),
            count <= i,
        decreases chars@.len() - i,
    {
        proof {
            assert(chars@.take(i + 1).drop_last() =~= chars@.take(i as int));
        }
        if chars[i] == '0' || chars[i] == '1' {
            count += 1;
        }
        i += 1;
    }
    proof {
        assert(chars@.take(i as int) =~= chars@);
    }
    count
}

/// The first character of `digits_text` that matters to a literal of base
/// `radix`: the text after the two characters that name the base, if the
/// base is not ten.
pub open spec fn int_digits(lexeme: Seq<char>, radix: Radix) -> Seq<char> {
    if radix == Radix::Decimal {
        lexeme
    } else if lexeme.len() >= 2 {
        lexeme.skip(2)
    } else {
        Seq::empty()
    }
}

/// The value of a literal token, `None` of a token that is no literal.
///
/// - An integer is held in 64 bits where its number is at most the
///   greatest 64-bit integer, or one more; else as a big integer; it is
///   an error where its text is no integer.
/// - A floating-point number is the text without underscores.
/// - A string is the text between the quotes with its escapes replaced;
///   the error of a backslash that starts no escape names the character
///   after it, or the backslash itself if none follows, and the byte
///   after the backslash.
/// - A bitstring is the value in base two of the text between the quotes,
///   with the number of its bits.
/// - An imaginary number and a duration are the number at the start of
///   the text.
pub open spec fn lit_token_spec(lexeme: Seq<char>, token: Token) -> Result<Option<LitView>, Error> {
    match token.kind {
        TokenKind::Literal(Literal::Integer(radix)) => {
            let digits = int_digits(lexeme, radix);
            if lit_int_spec(digits, radix.spec_value()) is Some {
                Ok(
                    Some(
                        LitView {
                            span: token.span,
                            kind: LiteralKindView::Int(
                                lit_int_spec(digits, radix.spec_value())->0,
                            ),
                        },
                    ),
                )
            } else if is_big_int_text(digits, radix.spec_value()) {
                Ok(
                    Some(
                        LitView {
                            span: token.span,
                            kind: LiteralKindView::BigInt(
                                big_int_from_str_radix(digits, radix.spec_value()),
                            ),
                        },
                    ),
                )
            } else {
                Err(Error(ErrorKind::Lit("integer", token.span), None))
            }
        },
        TokenKind::Literal(Literal::Float) => {
            if is_float_text(strip_underscores(lexeme)) {
                Ok(
                    Some(
                        LitView {
                            span: token.span,
                            kind: LiteralKindView::Float(strip_underscores(lexeme)),
                        },
                    ),
                )
            } else {
                Err(Error(ErrorKind::Lit("floating-point", token.span), None))
            }
        },
        TokenKind::Literal(Literal::String) => {
            let inner = shorten_spec(lexeme);
            match unescape_from(inner, 0) {
                Ok(text) => Ok(
                    Some(LitView { span: token.span, kind: LiteralKindView::String(text) }),
                ),
                Err(at) => {
                    let ch = if at + 1 < inner.len() {
                        inner[at + 1]
                    } else {
                        '\\'
                    };
                    let lo = token.span.lo + byte_len(inner.take(at)) + 2;
                    Err(
                        Error(
                            ErrorKind::Escape(ch, Span { lo: lo as u32, hi: (lo + 1) as u32 }),
                            None,
                        ),
                    )
                },
            }
        },
        TokenKind::Literal(Literal::Bitstring) => {
            let inner = shorten_spec(lexeme);
            if count_bits(inner) <= u32::MAX && is_big_int_text(inner, 2) {
                Ok(
                    Some(
                        LitView {
                            span: token.span,
                            kind: LiteralKindView::Bitstring(
                                big_int_from_str_radix(inner, 2),
                                count_bits(inner) as u32,
                            ),
                        },
                    ),
                )
            } else {
                Err(Error(ErrorKind::Lit("bitstring", token.span), None))
            }
        },
        TokenKind::Literal(Literal::Imaginary) => {
            if is_float_text(leading_number(lexeme)) {
                Ok(
                    Some(
                        LitView {
                            span: token.span,
                            kind: LiteralKindView::Imaginary(leading_number(lexeme)),
                        },
                    ),
                )
            } else {
                Err(Error(ErrorKind::Lit("imaginary", token.span), None))
            }
        },
        TokenKind::Literal(Literal::Timing(kind)) => timing_literal_spec(lexeme, token, kind),
        TokenKind::Keyword(Keyword::True) => Ok(
            Some(LitView { span: token.span, kind: LiteralKindView::Bool(true) }),
        ),
        TokenKind::Keyword(Keyword::False) => Ok(
            Some(LitView { span: token.span, kind: LiteralKindView::Bool(false) }),
        ),
        _ => Ok(None),
    }
}

/// A text of one character takes the bytes of that character, which are
/// at least one.
proof fn lemma_single_width(c: char)
    ensures
        1 <= byte_len(seq![c]) <= 4,
{
    lemma_byte_len_push(Seq::<char>::empty(), c);
    assert(Seq::<char>::empty().push(c) =~= seq![c]);
    crate::text::lemma_utf8_width(c);
    assert(byte_len(Seq::<char>::empty()) == 0) by {
        reveal_with_fuel(vstd::utf8::encode_utf8, 1);
    }
}

/// The value of a literal token, `None` of a token that is no literal.
pub fn lit_token(lexeme: &str, token: Token) -> (r: Result<Option<Lit>, Error>)
    requires
        token.span.lo + byte_len(lexeme@) <= u32::MAX,
    ensures
        lit_result_view(r) == lit_token_spec(lexeme@, token),
{
    match token.kind {
        TokenKind::Literal(literal) => match literal {
            Literal::Integer(radix) => {
                let chars = chars_of(lexeme);
                let offset: usize = if radix == Radix::Decimal {
                    0
                } else if chars.len() >= 2 {
                    2
                } else {
                    chars.len()
                };
                proof {
                    assert(chars@.skip(offset as int) =~= int_digits(lexeme@, radix));
                }
                match lit_int_chars(&chars, offset, radix.value()) {
                    Some(value) => Ok(Some(Lit { kind: LiteralKind::Int(value), span: token.span })),
                    None => {
                        proof {
                            assert(chars@.subrange(offset as int, chars@.len() as int)
                                =~= chars@.skip(offset as int));
                        }
                        let digits = string_of(&chars, offset, chars.len());
                        match lit_bigint(digits.as_str(), radix.value()) {
                            Some(value) => Ok(
                                Some(Lit { kind: LiteralKind::BigInt(value), span: token.span }),
                            ),
                            None => Err(Error::new(ErrorKind::Lit("integer", token.span))),
                        }
                    },
                }
            },
            Literal::Float => {
                let chars = chars_of(lexeme);
                let cleaned = without_underscores(&chars);
                if is_float(&cleaned) {
                    proof {
                        assert(cleaned@.subrange(0, cleaned@.len() as int) =~= cleaned@);
                    }
                    let text = string_of(&cleaned, 0, cleaned.len());
                    Ok(Some(Lit { kind: LiteralKind::Float(text), span: token.span }))
                } else {
                    Err(Error::new(ErrorKind::Lit("floating-point", token.span)))
                }
            },
            Literal::String => {
                let chars = chars_of(lexeme);
                let n = chars.len();
                let (from, to) = if n >= 2 {
                    (1usize, n - 1)
                } else {
                    (0usize, 0usize)
                };
                let ghost inner = shorten_spec(lexeme@);
                proof {
                    assert(chars@.subrange(from as int, to as int) =~= inner);
                }
                match unescape_chars(&chars, from, to) {
                    Ok(string) => Ok(
                        Some(Lit { kind: LiteralKind::String(string), span: token.span }),
                    ),
                    Err(at) => {
                        let ch = if at + 1 < to {
                            chars[at + 1]
                        } else {
                            '\\'
                        };
                        proof {
                            // the quote and what stands before the backslash,
                            // the backslash, and the closing quote all are
                            // bytes of the token
                            let k = at - from;
                            lemma_unescape_err(inner, 0);
                            assert(chars@.subrange(from as int, at as int) =~= inner.take(k));
                            assert(lexeme@.take(at as int) =~= seq![lexeme@[0]] + inner.take(k));
                            crate::text::lemma_encode_concat(seq![lexeme@[0]], inner.take(k));
                            lemma_single_width(lexeme@[0]);
                            lemma_byte_len_take(lexeme@, at as int);
                            let rest = lexeme@.skip(at as int);
                            assert(rest.take(1) =~= seq!['\\']);
                            lemma_single_width('\\');
                            lemma_byte_len_take(rest, 1);
                            let last = rest.skip(1);
                            assert(last.take(1) =~= seq![last[0]]);
                            lemma_single_width(last[0]);
                            lemma_byte_len_take(last, 1);
                        }
                        let index = byte_offset(&chars, from, at);
                        let lo: u32 = token.span.lo + (index as u32) + 2;
                        Err(Error::new(ErrorKind::Escape(ch, Span { lo, hi: lo + 1 })))
                    },
                }
            },
            Literal::Bitstring => {
                let chars = chars_of(lexeme);
                let n = chars.len();
                let (from, to) = if n >= 2 {
                    (1usize, n - 1)
                } else {
                    (0usize, 0usize)
                };
                proof {
                    assert(chars@.subrange(from as int, to as int) =~= shorten_spec(lexeme@));
                }
                let inner = string_of(&chars, from, to);
                let inner_chars = chars_of(inner.as_str());
                let count = bit_count(&inner_chars);
                if count > u32::MAX as usize {
                    return Err(Error::new(ErrorKind::Lit("bitstring", token.span)));
                }
                match lit_bigint(inner.as_str(), 2) {
                    Some(value) => Ok(
                        Some(
                            Lit {
                                span: token.span,
                                kind: LiteralKind::Bitstring(value, count as u32),
                            },
                        ),
                    ),
                    None => Err(Error::new(ErrorKind::Lit("bitstring", token.span))),
                }
            },
            Literal::Imaginary => {
                match leading_float(lexeme) {
                    Some(value) => Ok(
                        Some(Lit { kind: LiteralKind::Imaginary(value), span: token.span }),
                    ),
                    None => Err(Error::new(ErrorKind::Lit("imaginary", token.span))),
                }
            },
            Literal::Timing(kind) => timing_literal(lexeme, token, kind),
        },
        TokenKind::Keyword(Keyword::True) => Ok(
            Some(Lit { kind: LiteralKind::Bool(true), span: token.span }),
        ),
        TokenKind::Keyword(Keyword::False) => Ok(
            Some(Lit { kind: LiteralKind::Bool(false), span: token.span }),
        ),
        _ => Ok(None),
    }
}

} // verus!

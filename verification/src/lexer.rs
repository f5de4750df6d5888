//! The tokenizer: from the characters of a source to its tokens.

use crate::lex::ClosedBinOp;
use crate::lex::ComparisonOp;
use crate::lex::Delim;
use crate::lex::Keyword;
use crate::lex::Literal;
use crate::lex::Radix;
use crate::lex::TimingLiteralKind;
use crate::lex::Token;
use crate::lex::TokenKind;
use crate::lex::TypeName;
use crate::parser::scan::texts;
use crate::parser::scan::Input;
use crate::span::Span;
use crate::text::lemma_encode_concat;
use crate::text::byte_len;
use crate::text::chars_of;
use crate::text::lemma_byte_len_push;
use crate::text::lemma_byte_len_take;
use crate::text::len_utf8;
use crate::text::str_eq;
use crate::text::string_of;
use vstd::prelude::*;

verus! {

/// The code that stands for "no character".
pub const NONE: u32 = 0xFFFF_FFFF;

/// The code of the character `i` of `s`, or `NONE` outside of `s`.
pub open spec fn code(s: Seq<char>, i: int) -> u32 {
    if 0 <= i < s.len() {
        s[i] as u32
    } else {
        NONE
    }
}

/// The code of the character `i + k` of `chars`.
fn code_at(chars: &Vec<char>, i: usize, k: usize) -> (r: u32)
    requires
        i <= chars@.len(),
    ensures
        r == code(chars@, i + k),
        r != NONE ==> i + k < chars@.len(),
{
    if k < chars.len() - i {
        chars[i + k] as u32
    } else {
        NONE
    }
}

/// The classes of characters that runs are made of.
#[derive(Clone, Copy, Debug, PartialEq, Eq, Structural)]
pub enum CharClass {
    /// Letters, digits, `_` and every character outside of ASCII.
    Ident,
    /// The decimal digits.
    Digit,
    /// The decimal digits and `_`.
    Dec,
    /// The hexadecimal digits and `_`.
    Hex,
    /// The digits `0` and `1`, and `_`.
    Bin,
    /// The digits `0` to `7`, and `_`.
    Oct,
    /// Everything but a line feed.
    Line,
}

/// Whether `c` is a space, a tab, a line feed or a carriage return.
pub open spec fn is_space(c: u32) -> bool {
    c == 32 || c == 9 || c == 10 || c == 13
}

/// Whether `c` is a decimal digit.
pub open spec fn is_digit(c: u32) -> bool {
    48 <= c <= 57
}

/// Whether an identifier may start with `c`.
pub open spec fn is_ident_start(c: u32) -> bool {
    (65 <= c <= 90) || (97 <= c <= 122) || c == 95 || (128 <= c && c != NONE)
}

/// Whether `c` belongs to the class.
pub open spec fn in_class(c: u32, class: CharClass) -> bool {
    match class {
        CharClass::Ident => is_ident_start(c) || is_digit(c),
        CharClass::Digit => is_digit(c),
        CharClass::Dec => is_digit(c) || c == 95,
        CharClass::Hex => is_digit(c) || (65 <= c <= 70) || (97 <= c <= 102) || c == 95,
        CharClass::Bin => c == 48 || c == 49 || c == 95,
        CharClass::Oct => (48 <= c <= 55) || c == 95,
        CharClass::Line => c != 10 && c != NONE,
    }
}

/// Whether `c` belongs to the class.
fn has_class(c: u32, class: CharClass) -> (r: bool)
    ensures
        r == in_class(c, class),
{
    let digit = 48 <= c && c <= 57;
    match class {
        CharClass::Ident => (65 <= c && c <= 90) || (97 <= c && c <= 122) || c == 95 || (128 <= c
            && c != NONE) || digit,
        CharClass::Digit => digit,
        CharClass::Dec => digit || c == 95,
        CharClass::Hex => digit || (65 <= c && c <= 70) || (97 <= c && c <= 102) || c == 95,
        CharClass::Bin => c == 48 || c == 49 || c == 95,
        CharClass::Oct => (48 <= c && c <= 55) || c == 95,
        CharClass::Line => c != 10 && c != NONE,
    }
}

/// The end of the run of characters of the class that starts at `i`.
pub open spec fn run_end(s: Seq<char>, i: int, class: CharClass) -> int
    decreases s.len() - i,
{
    if 0 <= i < s.len() && in_class(code(s, i), class) {
        run_end(s, i + 1, class)
    } else {
        i
    }
}

/// The end of the run of characters of the class that starts at `i`.
fn scan_run(chars: &Vec<char>, i: usize, class: CharClass) -> (r: usize)
    requires
        i <= chars@.len(),
    ensures
        r == run_end(chars@, i as int, class),
        i <= r <= chars@.len(),
{
    let mut j = i;
    while j < chars.len() && has_class(chars[j] as u32, class)
        invariant
            i <= j <= chars@.len(),
            run_end(chars@, i as int, class) == run_end(chars@, j as int, class),
        decreases chars@.len() - j,
    {
        j += 1;
    }
    j
}

/// The end of a block comment whose text starts at `i`: after the first
/// `*/`, or at the end of the source.
pub open spec fn block_end(s: Seq<char>, i: int) -> int
    decreases s.len() - i,
{
    if i < 0 || i >= s.len() {
        s.len() as int
    } else if code(s, i) == 42 && code(s, i + 1) == 47 {
        i + 2
    } else {
        block_end(s, i + 1)
    }
}

/// The end of a block comment whose text starts at `i`.
fn scan_block(chars: &Vec<char>, i: usize) -> (r: usize)
    requires
        i <= chars@.len(),
    ensures
        r == block_end(chars@, i as int),
        i <= r <= chars@.len(),
{
    let mut j = i;
    while j < chars.len()
        invariant
            i <= j <= chars@.len(),
            block_end(chars@, i as int) == block_end(chars@, j as int),
        decreases chars@.len() - j,
    {
        if chars[j] as u32 == 42 && code_at(chars, j, 1) == 47 {
            return j + 2;
        }
        j += 1;
    }
    j
}

/// The start of the first token from `i` on: after spaces, line comments
/// and block comments.
pub open spec fn skip_trivia(s: Seq<char>, i: int) -> int
    decreases s.len() - i,
{
    if i < 0 || i >= s.len() {
        i
    } else if is_space(code(s, i)) {
        skip_trivia(s, i + 1)
    } else if code(s, i) == 47 && code(s, i + 1) == 47 {
        let end = run_end(s, i + 2, CharClass::Line);
        if i < end <= s.len() {
            skip_trivia(s, end)
        } else {
            i
        }
    } else if code(s, i) == 47 && code(s, i + 1) == 42 {
        let end = block_end(s, i + 2);
        if i < end <= s.len() {
            skip_trivia(s, end)
        } else {
            i
        }
    } else {
        i
    }
}

/// The start of the first token from `i` on.
fn scan_trivia(chars: &Vec<char>, i: usize) -> (r: usize)
    requires
        i <= chars@.len(),
    ensures
        r == skip_trivia(chars@, i as int),
        i <= r <= chars@.len(),
{
    let mut j = i;
    while j < chars.len()
        invariant
            i <= j <= chars@.len(),
            skip_trivia(chars@, i as int) == skip_trivia(chars@, j as int),
        decreases chars@.len() - j,
    {
        let c = chars[j] as u32;
        if c == 32 || c == 9 || c == 10 || c == 13 {
            j += 1;
        } else if c == 47 && code_at(chars, j, 1) == 47 {
            j = scan_run(chars, j + 2, CharClass::Line);
        } else if c == 47 && code_at(chars, j, 1) == 42 {
            j = scan_block(chars, j + 2);
        } else {
            return j;
        }
    }
    j
}

/// The kind of the token that the word `text` is: a keyword, the name of
/// a type, or an identifier.
pub open spec fn word_kind(text: Seq<char>) -> TokenKind {
    if text == "OPENQASM"@ {
        TokenKind::Keyword(Keyword::OpenQASM)
    } else if text == "include"@ {
        TokenKind::Keyword(Keyword::Include)
    } else if text == "true"@ {
        TokenKind::Keyword(Keyword::True)
    } else if text == "false"@ {
        TokenKind::Keyword(Keyword::False)
    } else if text == "measure"@ {
        TokenKind::Measure
    } else if text == "barrier"@ {
        TokenKind::Keyword(Keyword::Barrier)
    } else if text == "box"@ {
        TokenKind::Keyword(Keyword::Box)
    } else if text == "break"@ {
        TokenKind::Keyword(Keyword::Break)
    } else if text == "cal"@ {
        TokenKind::Keyword(Keyword::Cal)
    } else if text == "case"@ {
        TokenKind::Keyword(Keyword::Case)
    } else if text == "const"@ {
        TokenKind::Keyword(Keyword::Const)
    } else if text == "continue"@ {
        TokenKind::Keyword(Keyword::Continue)
    } else if text == "creg"@ {
        TokenKind::Keyword(Keyword::CReg)
    } else if text == "ctrl"@ {
        TokenKind::Keyword(Keyword::Ctrl)
    } else if text == "def"@ {
        TokenKind::Keyword(Keyword::Def)
    } else if text == "defcal"@ {
        TokenKind::Keyword(Keyword::DefCal)
    } else if text == "defcalgrammar"@ {
        TokenKind::Keyword(Keyword::DefCalGrammar)
    } else if text == "default"@ {
        TokenKind::Keyword(Keyword::Default)
    } else if text == "delay"@ {
        TokenKind::Keyword(Keyword::Delay)
    } else if text == "else"@ {
        TokenKind::Keyword(Keyword::Else)
    } else if text == "end"@ {
        TokenKind::Keyword(Keyword::End)
    } else if text == "extern"@ {
        TokenKind::Keyword(Keyword::Extern)
    } else if text == "for"@ {
        TokenKind::Keyword(Keyword::For)
    } else if text == "gate"@ {
        TokenKind::Keyword(Keyword::Gate)
    } else if text == "if"@ {
        TokenKind::Keyword(Keyword::If)
    } else if text == "in"@ {
        TokenKind::Keyword(Keyword::In)
    } else if text == "input"@ {
        TokenKind::Keyword(Keyword::Input)
    } else if text == "inv"@ {
        TokenKind::Keyword(Keyword::Inv)
    } else if text == "let"@ {
        TokenKind::Keyword(Keyword::Let)
    } else if text == "mutable"@ {
        TokenKind::Keyword(Keyword::Mutable)
    } else if text == "negctrl"@ {
        TokenKind::Keyword(Keyword::NegCtrl)
    } else if text == "output"@ {
        TokenKind::Keyword(Keyword::Output)
    } else if text == "pow"@ {
        TokenKind::Keyword(Keyword::Pow)
    } else if text == "pragma"@ {
        TokenKind::Keyword(Keyword::Pragma)
    } else if text == "qreg"@ {
        TokenKind::Keyword(Keyword::QReg)
    } else if text == "qubit"@ {
        TokenKind::Keyword(Keyword::Qubit)
    } else if text == "readonly"@ {
        TokenKind::Keyword(Keyword::ReadOnly)
    } else if text == "reset"@ {
        TokenKind::Keyword(Keyword::Reset)
    } else if text == "return"@ {
        TokenKind::Keyword(Keyword::Return)
    } else if text == "switch"@ {
        TokenKind::Keyword(Keyword::Switch)
    } else if text == "void"@ {
        TokenKind::Keyword(Keyword::Void)
    } else if text == "while"@ {
        TokenKind::Keyword(Keyword::While)
    } else if text == "angle"@ {
        TokenKind::Type(TypeName::Angle)
    } else if text == "array"@ {
        TokenKind::Type(TypeName::Array)
    } else if text == "bit"@ {
        TokenKind::Type(TypeName::Bit)
    } else if text == "bool"@ {
        TokenKind::Type(TypeName::Bool)
    } else if text == "complex"@ {
        TokenKind::Type(TypeName::Complex)
    } else if text == "duration"@ {
        TokenKind::Type(TypeName::Duration)
    } else if text == "float"@ {
        TokenKind::Type(TypeName::Float)
    } else if text == "int"@ {
        TokenKind::Type(TypeName::Int)
    } else if text == "stretch"@ {
        TokenKind::Type(TypeName::Stretch)
    } else if text == "uint"@ {
        TokenKind::Type(TypeName::UInt)
    } else {
        TokenKind::Identifier
    }
}

/// The kind of the token that the word `text` is.
fn kind_of_word(text: &str) -> (r: TokenKind)
    ensures
        r == word_kind(text@),
{
    if str_eq(text, "OPENQASM") {
        TokenKind::Keyword(Keyword::OpenQASM)
    } else if str_eq(text, "include") {
        TokenKind::Keyword(Keyword::Include)
    } else if str_eq(text, "true") {
        TokenKind::Keyword(Keyword::True)
    } else if str_eq(text, "false") {
        TokenKind::Keyword(Keyword::False)
    } else if str_eq(text, "measure") {
        TokenKind::Measure
    } else if str_eq(text, "barrier") {
        TokenKind::Keyword(Keyword::Barrier)
    } else if str_eq(text, "box") {
        TokenKind::Keyword(Keyword::Box)
    } else if str_eq(text, "break") {
        TokenKind::Keyword(Keyword::Break)
    } else if str_eq(text, "cal") {
        TokenKind::Keyword(Keyword::Cal)
    } else if str_eq(text, "case") {
        TokenKind::Keyword(Keyword::Case)
    } else if str_eq(text, "const") {
        TokenKind::Keyword(Keyword::Const)
    } else if str_eq(text, "continue") {
        TokenKind::Keyword(Keyword::Continue)
    } else if str_eq(text, "creg") {
        TokenKind::Keyword(Keyword::CReg)
    } else if str_eq(text, "ctrl") {
        TokenKind::Keyword(Keyword::Ctrl)
    } else if str_eq(text, "def") {
        TokenKind::Keyword(Keyword::Def)
    } else if str_eq(text, "defcal") {
        TokenKind::Keyword(Keyword::DefCal)
    } else if str_eq(text, "defcalgrammar") {
        TokenKind::Keyword(Keyword::DefCalGrammar)
    } else if str_eq(text, "default") {
        TokenKind::Keyword(Keyword::Default)
    } else if str_eq(text, "delay") {
        TokenKind::Keyword(Keyword::Delay)
    } else if str_eq(text, "else") {
        TokenKind::Keyword(Keyword::Else)
    } else if str_eq(text, "end") {
        TokenKind::Keyword(Keyword::End)
    } else if str_eq(text, "extern") {
        TokenKind::Keyword(Keyword::Extern)
    } else if str_eq(text, "for") {
        TokenKind::Keyword(Keyword::For)
    } else if str_eq(text, "gate") {
        TokenKind::Keyword(Keyword::Gate)
    } else if str_eq(text, "if") {
        TokenKind::Keyword(Keyword::If)
    } else if str_eq(text, "in") {
        TokenKind::Keyword(Keyword::In)
    } else if str_eq(text, "input") {
        TokenKind::Keyword(Keyword::Input)
    } else if str_eq(text, "inv") {
        TokenKind::Keyword(Keyword::Inv)
    } else if str_eq(text, "let") {
        TokenKind::Keyword(Keyword::Let)
    } else if str_eq(text, "mutable") {
        TokenKind::Keyword(Keyword::Mutable)
    } else if str_eq(text, "negctrl") {
        TokenKind::Keyword(Keyword::NegCtrl)
    } else if str_eq(text, "output") {
        TokenKind::Keyword(Keyword::Output)
    } else if str_eq(text, "pow") {
        TokenKind::Keyword(Keyword::Pow)
    } else if str_eq(text, "pragma") {
        TokenKind::Keyword(Keyword::Pragma)
    } else if str_eq(text, "qreg") {
        TokenKind::Keyword(Keyword::QReg)
    } else if str_eq(text, "qubit") {
        TokenKind::Keyword(Keyword::Qubit)
    } else if str_eq(text, "readonly") {
        TokenKind::Keyword(Keyword::ReadOnly)
    } else if str_eq(text, "reset") {
        TokenKind::Keyword(Keyword::Reset)
    } else if str_eq(text, "return") {
        TokenKind::Keyword(Keyword::Return)
    } else if str_eq(text, "switch") {
        TokenKind::Keyword(Keyword::Switch)
    } else if str_eq(text, "void") {
        TokenKind::Keyword(Keyword::Void)
    } else if str_eq(text, "while") {
        TokenKind::Keyword(Keyword::While)
    } else if str_eq(text, "angle") {
        TokenKind::Type(TypeName::Angle)
    } else if str_eq(text, "array") {
        TokenKind::Type(TypeName::Array)
    } else if str_eq(text, "bit") {
        TokenKind::Type(TypeName::Bit)
    } else if str_eq(text, "bool") {
        TokenKind::Type(TypeName::Bool)
    } else if str_eq(text, "complex") {
        TokenKind::Type(TypeName::Complex)
    } else if str_eq(text, "duration") {
        TokenKind::Type(TypeName::Duration)
    } else if str_eq(text, "float") {
        TokenKind::Type(TypeName::Float)
    } else if str_eq(text, "int") {
        TokenKind::Type(TypeName::Int)
    } else if str_eq(text, "stretch") {
        TokenKind::Type(TypeName::Stretch)
    } else if str_eq(text, "uint") {
        TokenKind::Type(TypeName::UInt)
    } else {
        TokenKind::Identifier
    }
}

/// The unit or the `im` that follows a number at `m`, with its length,
/// if one follows that no character of an identifier continues.
pub open spec fn suffix_at(s: Seq<char>, m: int) -> Option<(Literal, int)> {
    let a = code(s, m);
    let b = code(s, m + 1);
    let two = !in_class(code(s, m + 2), CharClass::Ident);
    if a == 105 && b == 109 && two {
        Some((Literal::Imaginary, 2int))
    } else if a == 100 && b == 116 && two {
        Some((Literal::Timing(TimingLiteralKind::Dt), 2int))
    } else if a == 110 && b == 115 && two {
        Some((Literal::Timing(TimingLiteralKind::Ns), 2int))
    } else if (a == 117 || a == 181) && b == 115 && two {
        Some((Literal::Timing(TimingLiteralKind::Us), 2int))
    } else if a == 109 && b == 115 && two {
        Some((Literal::Timing(TimingLiteralKind::Ms), 2int))
    } else if a == 115 && !in_class(b, CharClass::Ident) {
        Some((Literal::Timing(TimingLiteralKind::S), 1int))
    } else {
        None
    }
}

/// The unit or the `im` that follows a number at `m`, with its length.
fn scan_suffix(chars: &Vec<char>, m: usize) -> (r: Option<(Literal, usize)>)
    requires
        m <= chars@.len(),
    ensures
        match suffix_at(chars@, m as int) {
            Some((lit, len)) => r == Some((lit, len as usize)) && m + len <= chars@.len(),
            None => r is None,
        },
{
    let a = code_at(chars, m, 0);
    let b = code_at(chars, m, 1);
    let two = !has_class(code_at(chars, m, 2), CharClass::Ident);
    if a == 105 && b == 109 && two {
        Some((Literal::Imaginary, 2))
    } else if a == 100 && b == 116 && two {
        Some((Literal::Timing(TimingLiteralKind::Dt), 2))
    } else if a == 110 && b == 115 && two {
        Some((Literal::Timing(TimingLiteralKind::Ns), 2))
    } else if (a == 117 || a == 181) && b == 115 && two {
        Some((Literal::Timing(TimingLiteralKind::Us), 2))
    } else if a == 109 && b == 115 && two {
        Some((Literal::Timing(TimingLiteralKind::Ms), 2))
    } else if a == 115 && !has_class(b, CharClass::Ident) {
        Some((Literal::Timing(TimingLiteralKind::S), 1))
    } else {
        None
    }
}

/// The number that starts at `j`, with its end: an integer with the
/// prefix of its base, or a decimal number with an optional fraction, an
/// optional exponent, and an optional unit or `im`.
pub open spec fn number_at(s: Seq<char>, j: int) -> (TokenKind, int) {
    let c0 = code(s, j);
    let c1 = code(s, j + 1);
    if c0 == 48 && (c1 == 120 || c1 == 88) {
        (TokenKind::Literal(Literal::Integer(Radix::Hexadecimal)), run_end(s, j + 2, CharClass::Hex))
    } else if c0 == 48 && (c1 == 98 || c1 == 66) {
        (TokenKind::Literal(Literal::Integer(Radix::Binary)), run_end(s, j + 2, CharClass::Bin))
    } else if c0 == 48 && (c1 == 111 || c1 == 79) {
        (TokenKind::Literal(Literal::Integer(Radix::Octal)), run_end(s, j + 2, CharClass::Oct))
    } else {
        let int_end = run_end(s, j, CharClass::Dec);
        let has_dot = code(s, int_end) == 46;
        let frac_end = if has_dot {
            run_end(s, int_end + 1, CharClass::Dec)
        } else {
            int_end
        };
        let e = code(s, frac_end);
        let sign = code(s, frac_end + 1) == 43 || code(s, frac_end + 1) == 45;
        let first = if sign {
            frac_end + 2
        } else {
            frac_end + 1
        };
        let has_exp = (e == 101 || e == 69) && is_digit(code(s, first));
        let end = if has_exp {
            run_end(s, first, CharClass::Digit)
        } else {
            frac_end
        };
        match suffix_at(s, end) {
            Some((lit, len)) => (TokenKind::Literal(lit), end + len),
            None => if has_dot || has_exp {
                (TokenKind::Literal(Literal::Float), end)
            } else {
                (TokenKind::Literal(Literal::Integer(Radix::Decimal)), end)
            },
        }
    }
}

/// The number that starts at `j`, with its end.
fn scan_number(chars: &Vec<char>, j: usize) -> (r: (TokenKind, usize))
    requires
        j < chars@.len(),
    ensures
        r.0 == number_at(chars@, j as int).0,
        r.1 == number_at(chars@, j as int).1,
        j <= r.1 <= chars@.len(),
{
    let n = chars.len();
    let c0 = code_at(chars, j, 0);
    let c1 = code_at(chars, j, 1);
    if c0 == 48 && (c1 == 120 || c1 == 88) {
        (
            TokenKind::Literal(Literal::Integer(Radix::Hexadecimal)),
            scan_run(chars, j + 2, CharClass::Hex),
        )
    } else if c0 == 48 && (c1 == 98 || c1 == 66) {
        (TokenKind::Literal(Literal::Integer(Radix::Binary)), scan_run(chars, j + 2, CharClass::Bin))
    } else if c0 == 48 && (c1 == 111 || c1 == 79) {
        (TokenKind::Literal(Literal::Integer(Radix::Octal)), scan_run(chars, j + 2, CharClass::Oct))
    } else {
        let int_end = scan_run(chars, j, CharClass::Dec);
        let has_dot = code_at(chars, int_end, 0) == 46;
        let frac_end = if has_dot {
            scan_run(chars, int_end + 1, CharClass::Dec)
        } else {
            int_end
        };
        let e = code_at(chars, frac_end, 0);
        let sign_code = code_at(chars, frac_end, 1);
        let sign = sign_code == 43 || sign_code == 45;
        let first_code = if sign {
            code_at(chars, frac_end, 2)
        } else {
            code_at(chars, frac_end, 1)
        };
        let has_exp = (e == 101 || e == 69) && 48 <= first_code && first_code <= 57;
        let end = if has_exp {
            let first = if sign {
                frac_end + 2
            } else {
                frac_end + 1
            };
            scan_run(chars, first, CharClass::Digit)
        } else {
            frac_end
        };
        match scan_suffix(chars, end) {
            Some((lit, len)) => (TokenKind::Literal(lit), end + len),
            None => if has_dot || has_exp {
                (TokenKind::Literal(Literal::Float), end)
            } else {
                (TokenKind::Literal(Literal::Integer(Radix::Decimal)), end)
            },
        }
    }
}

/// The end of a string whose text starts at `i`: after the first `quote`
/// that no backslash precedes, or at the end of the source.
pub open spec fn string_end(s: Seq<char>, i: int, quote: u32) -> int
    decreases s.len() - i,
{
    if i < 0 || i >= s.len() {
        s.len() as int
    } else if code(s, i) == 92 {
        if i + 2 <= s.len() {
            string_end(s, i + 2, quote)
        } else {
            s.len() as int
        }
    } else if code(s, i) == quote {
        i + 1
    } else {
        string_end(s, i + 1, quote)
    }
}

/// The end of a string whose text starts at `i`.
fn scan_string(chars: &Vec<char>, i: usize, quote: u32) -> (r: usize)
    requires
        i <= chars@.len(),
    ensures
        r == string_end(chars@, i as int, quote),
        i <= r <= chars@.len(),
{
    let n = chars.len();
    let mut j = i;
    while j < n
        invariant
            n == chars@.len(),
            i <= j <= n,
            string_end(chars@, i as int, quote) == string_end(chars@, j as int, quote),
        decreases n - j,
    {
        let c = chars[j] as u32;
        if c == 92 {
            if n - j >= 2 {
                j += 2;
            } else {
                return n;
            }
        } else if c == quote {
            return j + 1;
        } else {
            j += 1;
        }
    }
    j
}

/// The string that starts at `j` with the quote `quote`, with its end. A
/// closed string in double quotes that holds nothing but the digits `0`
/// and `1` and underscores, and at least one of them, is a bitstring.
pub open spec fn string_at(s: Seq<char>, j: int, quote: u32) -> (TokenKind, int) {
    let end = string_end(s, j + 1, quote);
    let bits_end = run_end(s, j + 1, CharClass::Bin);
    if quote == 34 && bits_end > j + 1 && bits_end + 1 == end && code(s, bits_end) == 34 {
        (TokenKind::Literal(Literal::Bitstring), end)
    } else {
        (TokenKind::Literal(Literal::String), end)
    }
}

/// The operator or the punctuation that starts at `j`, with its end; a
/// character that starts no token is a token of its own.
pub open spec fn punct_at(s: Seq<char>, j: int) -> (TokenKind, int) {
    let c0 = code(s, j);
    let c1 = code(s, j + 1);
    let c2 = code(s, j + 2);
    if c0 == 40 {
        (TokenKind::Open(Delim::Paren), j + 1)
    } else if c0 == 41 {
        (TokenKind::Close(Delim::Paren), j + 1)
    } else if c0 == 91 {
        (TokenKind::Open(Delim::Bracket), j + 1)
    } else if c0 == 93 {
        (TokenKind::Close(Delim::Bracket), j + 1)
    } else if c0 == 123 {
        (TokenKind::Open(Delim::Brace), j + 1)
    } else if c0 == 125 {
        (TokenKind::Close(Delim::Brace), j + 1)
    } else if c0 == 44 {
        (TokenKind::Comma, j + 1)
    } else if c0 == 59 {
        (TokenKind::Semicolon, j + 1)
    } else if c0 == 58 {
        (TokenKind::Colon, j + 1)
    } else if c0 == 46 {
        (TokenKind::Dot, j + 1)
    } else if c0 == 64 {
        (TokenKind::At, j + 1)
    } else if c0 == 126 {
        (TokenKind::Tilde, j + 1)
    } else if c0 == 33 {
        if c1 == 61 {
            (TokenKind::ComparisonOp(ComparisonOp::BangEq), j + 2)
        } else {
            (TokenKind::Bang, j + 1)
        }
    } else if c0 == 61 {
        if c1 == 61 {
            (TokenKind::ComparisonOp(ComparisonOp::EqEq), j + 2)
        } else {
            (TokenKind::Eq, j + 1)
        }
    } else if c0 == 60 {
        if c1 == 61 {
            (TokenKind::ComparisonOp(ComparisonOp::LtEq), j + 2)
        } else if c1 == 60 {
            closed(ClosedBinOp::LtLt, c2, j + 2)
        } else {
            (TokenKind::ComparisonOp(ComparisonOp::Lt), j + 1)
        }
    } else if c0 == 62 {
        if c1 == 61 {
            (TokenKind::ComparisonOp(ComparisonOp::GtEq), j + 2)
        } else if c1 == 62 {
            closed(ClosedBinOp::GtGt, c2, j + 2)
        } else {
            (TokenKind::ComparisonOp(ComparisonOp::Gt), j + 1)
        }
    } else if c0 == 43 {
        if c1 == 43 {
            (TokenKind::PlusPlus, j + 2)
        } else {
            closed(ClosedBinOp::Plus, c1, j + 1)
        }
    } else if c0 == 45 {
        if c1 == 62 {
            (TokenKind::Arrow, j + 2)
        } else {
            closed(ClosedBinOp::Minus, c1, j + 1)
        }
    } else if c0 == 42 {
        if c1 == 42 {
            closed(ClosedBinOp::StarStar, c2, j + 2)
        } else {
            closed(ClosedBinOp::Star, c1, j + 1)
        }
    } else if c0 == 47 {
        closed(ClosedBinOp::Slash, c1, j + 1)
    } else if c0 == 37 {
        closed(ClosedBinOp::Percent, c1, j + 1)
    } else if c0 == 94 {
        closed(ClosedBinOp::Caret, c1, j + 1)
    } else if c0 == 38 {
        if c1 == 38 {
            (TokenKind::ClosedBinOp(ClosedBinOp::AmpAmp), j + 2)
        } else {
            closed(ClosedBinOp::Amp, c1, j + 1)
        }
    } else if c0 == 124 {
        if c1 == 124 {
            (TokenKind::ClosedBinOp(ClosedBinOp::BarBar), j + 2)
        } else {
            closed(ClosedBinOp::Bar, c1, j + 1)
        }
    } else {
        (TokenKind::Unknown, j + 1)
    }
}

/// The operator `op` that ends at `end`, or the assignment with that
/// operator if `=` follows.
pub open spec fn closed(op: ClosedBinOp, next: u32, end: int) -> (TokenKind, int) {
    if next == 61 {
        (TokenKind::BinOpEq(op), end + 1)
    } else {
        (TokenKind::ClosedBinOp(op), end)
    }
}

/// The operator `op` that ends at `end`, or the assignment with it.
fn closed_op(op: ClosedBinOp, next: u32, end: usize) -> (r: (TokenKind, usize))
    requires
        end < usize::MAX,
    ensures
        r.0 == closed(op, next, end as int).0,
        r.1 == closed(op, next, end as int).1,
{
    if next == 61 {
        (TokenKind::BinOpEq(op), end + 1)
    } else {
        (TokenKind::ClosedBinOp(op), end)
    }
}

/// The operator or the punctuation that starts at `j`, with its end.
fn scan_punct(chars: &Vec<char>, j: usize) -> (r: (TokenKind, usize))
    requires
        j < chars@.len(),
        chars@.len() < usize::MAX,
    ensures
        r.0 == punct_at(chars@, j as int).0,
        r.1 == punct_at(chars@, j as int).1,
        j < r.1 <= chars@.len(),
{
    let c0 = code_at(chars, j, 0);
    let c1 = code_at(chars, j, 1);
    let c2 = code_at(chars, j, 2);
    if c0 == 40 {
        (TokenKind::Open(Delim::Paren), j + 1)
    } else if c0 == 41 {
        (TokenKind::Close(Delim::Paren), j + 1)
    } else if c0 == 91 {
        (TokenKind::Open(Delim::Bracket), j + 1)
    } else if c0 == 93 {
        (TokenKind::Close(Delim::Bracket), j + 1)
    } else if c0 == 123 {
        (TokenKind::Open(Delim::Brace), j + 1)
    } else if c0 == 125 {
        (TokenKind::Close(Delim::Brace), j + 1)
    } else if c0 == 44 {
        (TokenKind::Comma, j + 1)
    } else if c0 == 59 {
        (TokenKind::Semicolon, j + 1)
    } else if c0 == 58 {
        (TokenKind::Colon, j + 1)
    } else if c0 == 46 {
        (TokenKind::Dot, j + 1)
    } else if c0 == 64 {
        (TokenKind::At, j + 1)
    } else if c0 == 126 {
        (TokenKind::Tilde, j + 1)
    } else if c0 == 33 {
        if c1 == 61 {
            (TokenKind::ComparisonOp(ComparisonOp::BangEq), j + 2)
        } else {
            (TokenKind::Bang, j + 1)
        }
    } else if c0 == 61 {
        if c1 == 61 {
            (TokenKind::ComparisonOp(ComparisonOp::EqEq), j + 2)
        } else {
            (TokenKind::Eq, j + 1)
        }
    } else if c0 == 60 {
        if c1 == 61 {
            (TokenKind::ComparisonOp(ComparisonOp::LtEq), j + 2)
        } else if c1 == 60 {
            closed_op(ClosedBinOp::LtLt, c2, j + 2)
        } else {
            (TokenKind::ComparisonOp(ComparisonOp::Lt), j + 1)
        }
    } else if c0 == 62 {
        if c1 == 61 {
            (TokenKind::ComparisonOp(ComparisonOp::GtEq), j + 2)
        } else if c1 == 62 {
            closed_op(ClosedBinOp::GtGt, c2, j + 2)
        } else {
            (TokenKind::ComparisonOp(ComparisonOp::Gt), j + 1)
        }
    } else if c0 == 43 {
        if c1 == 43 {
            (TokenKind::PlusPlus, j + 2)
        } else {
            closed_op(ClosedBinOp::Plus, c1, j + 1)
        }
    } else if c0 == 45 {
        if c1 == 62 {
            (TokenKind::Arrow, j + 2)
        } else {
            closed_op(ClosedBinOp::Minus, c1, j + 1)
        }
    } else if c0 == 42 {
        if c1 == 42 {
            closed_op(ClosedBinOp::StarStar, c2, j + 2)
        } else {
            closed_op(ClosedBinOp::Star, c1, j + 1)
        }
    } else if c0 == 47 {
        closed_op(ClosedBinOp::Slash, c1, j + 1)
    } else if c0 == 37 {
        closed_op(ClosedBinOp::Percent, c1, j + 1)
    } else if c0 == 94 {
        closed_op(ClosedBinOp::Caret, c1, j + 1)
    } else if c0 == 38 {
        if c1 == 38 {
            (TokenKind::ClosedBinOp(ClosedBinOp::AmpAmp), j + 2)
        } else {
            closed_op(ClosedBinOp::Amp, c1, j + 1)
        }
    } else if c0 == 124 {
        if c1 == 124 {
            (TokenKind::ClosedBinOp(ClosedBinOp::BarBar), j + 2)
        } else {
            closed_op(ClosedBinOp::Bar, c1, j + 1)
        }
    } else {
        (TokenKind::Unknown, j + 1)
    }
}

/// The token that starts at `j`, with its end.
pub open spec fn token_at(s: Seq<char>, j: int) -> (TokenKind, int) {
    let c = code(s, j);
    if is_digit(c) || (c == 46 && is_digit(code(s, j + 1))) {
        number_at(s, j)
    } else if is_ident_start(c) {
        let end = run_end(s, j, CharClass::Ident);
        (word_kind(s.subrange(j, end)), end)
    } else if c == 34 || c == 39 {
        string_at(s, j, c)
    } else if c == 36 && is_digit(code(s, j + 1)) {
        (TokenKind::HardwareQubit, run_end(s, j + 1, CharClass::Digit))
    } else {
        punct_at(s, j)
    }
}

/// The span in bytes of the characters `lo..hi` of `s`.
pub open spec fn span_of(s: Seq<char>, lo: int, hi: int) -> Span {
    Span { lo: byte_len(s.take(lo)) as u32, hi: byte_len(s.take(hi)) as u32 }
}

/// The tokens of `s` from the character `i` on. The last one marks the
/// end of the input.
pub open spec fn lex_tokens(s: Seq<char>, i: int) -> Seq<Token>
    decreases s.len() - i,
{
    let j = skip_trivia(s, i);
    if j < i || j >= s.len() {
        seq![Token { kind: TokenKind::Eof, span: span_of(s, s.len() as int, s.len() as int) }]
    } else {
        let (kind, end) = token_at(s, j);
        if j < end <= s.len() {
            seq![Token { kind, span: span_of(s, j, end) }] + lex_tokens(s, end)
        } else {
            arbitrary()
        }
    }
}

/// The texts of the tokens of `s` from the character `i` on.
pub open spec fn lex_texts(s: Seq<char>, i: int) -> Seq<Seq<char>>
    decreases s.len() - i,
{
    let j = skip_trivia(s, i);
    if j < i || j >= s.len() {
        seq![Seq::empty()]
    } else {
        let (kind, end) = token_at(s, j);
        if j < end <= s.len() {
            seq![s.subrange(j, end)] + lex_texts(s, end)
        } else {
            arbitrary()
        }
    }
}

/// The token that starts at `j`, with its end.
fn scan_token(chars: &Vec<char>, j: usize) -> (r: (TokenKind, usize))
    requires
        j < chars@.len(),
        chars@.len() < usize::MAX,
    ensures
        r.0 == token_at(chars@, j as int).0,
        r.1 == token_at(chars@, j as int).1,
        j < r.1 <= chars@.len(),
{
    let c = code_at(chars, j, 0);
    let c1 = code_at(chars, j, 1);
    let digit = 48 <= c && c <= 57;
    let digit1 = 48 <= c1 && c1 <= 57;
    if digit || (c == 46 && digit1) {
        proof {
            lemma_number_advances(chars@, j as int);
        }
        scan_number(chars, j)
    } else if has_class(c, CharClass::Ident) {
        proof {
            lemma_run_end(chars@, j as int, CharClass::Ident);
        }
        let end = scan_run(chars, j, CharClass::Ident);
        let text = string_of(chars, j, end);
        (kind_of_word(text.as_str()), end)
    } else if c == 34 || c == 39 {
        let end = scan_string(chars, j + 1, c);
        let bits_end = scan_run(chars, j + 1, CharClass::Bin);
        if c == 34 && bits_end > j + 1 && bits_end + 1 == end && code_at(chars, bits_end, 0) == 34 {
            (TokenKind::Literal(Literal::Bitstring), end)
        } else {
            (TokenKind::Literal(Literal::String), end)
        }
    } else if c == 36 && digit1 {
        (TokenKind::HardwareQubit, scan_run(chars, j + 1, CharClass::Digit))
    } else {
        scan_punct(chars, j)
    }
}

/// A run ends at or after its start, within the text.
pub proof fn lemma_run_end(s: Seq<char>, i: int, class: CharClass)
    requires
        0 <= i <= s.len(),
    ensures
        i <= run_end(s, i, class) <= s.len(),
        i < s.len() && in_class(code(s, i), class) ==> i < run_end(s, i, class),
    decreases s.len() - i,
{
    if i < s.len() && in_class(code(s, i), class) {
        lemma_run_end(s, i + 1, class);
    }
}

/// A number that starts with a digit, or with a dot and a digit, has at
/// least one character.
pub proof fn lemma_number_advances(s: Seq<char>, j: int)
    requires
        0 <= j < s.len(),
        is_digit(code(s, j)) || (code(s, j) == 46 && is_digit(code(s, j + 1))),
    ensures
        j < number_at(s, j).1,
{
    let c0 = code(s, j);
    let c1 = code(s, j + 1);
    if c0 == 48 && (c1 == 120 || c1 == 88 || c1 == 98 || c1 == 66 || c1 == 111 || c1 == 79) {
        lemma_run_end(s, j + 2, CharClass::Hex);
        lemma_run_end(s, j + 2, CharClass::Bin);
        lemma_run_end(s, j + 2, CharClass::Oct);
    } else {
        lemma_run_end(s, j, CharClass::Dec);
        let int_end = run_end(s, j, CharClass::Dec);
        let has_dot = code(s, int_end) == 46;
        let frac_end = if has_dot {
            run_end(s, int_end + 1, CharClass::Dec)
        } else {
            int_end
        };
        if has_dot {
            lemma_run_end(s, int_end + 1, CharClass::Dec);
        }
        assert(j < frac_end || (has_dot && int_end == j));
        if has_dot && int_end == j {
            assert(in_class(code(s, j + 1), CharClass::Dec));
        }
        assert(j < frac_end);
        let sign = code(s, frac_end + 1) == 43 || code(s, frac_end + 1) == 45;
        let first = if sign {
            frac_end + 2
        } else {
            frac_end + 1
        };
        if is_digit(code(s, first)) {
            lemma_run_end(s, first, CharClass::Digit);
        }
    }
}

/// The offset in bytes of every character of `chars`, and of their end.
fn byte_offsets(chars: &Vec<char>) -> (r: Vec<u32>)
    requires
        byte_len(chars@) <= u32::MAX,
    ensures
        r@.len() == chars@.len() + 1,
        forall|k: int| 0 <= k <= chars@.len() ==> r@[k] == byte_len(chars@.take(k)),
{
    let mut offsets: Vec<u32> = Vec::new();
    let mut offset: u32 = 0;
    let mut i: usize = 0;
    proof {
        assert(chars@.take(0) =~= Seq::<char>::empty());
        assert(byte_len(Seq::<char>::empty()) == 0) by {
            reveal_with_fuel(vstd::utf8::encode_utf8, 1);
        }
    }
    while i < chars.len()
        invariant
            i <= chars@.len(),
            byte_len(chars@) <= u32::MAX,
            offsets@.len() == i,
            offset == byte_len(chars@.take(i as int)),
            forall|k: int| 0 <= k < i ==> offsets@[k] == byte_len(chars@.take(k)),
        decreases chars@.len() - i,
    {
        offsets.push(offset);
        proof {
            lemma_byte_len_push(chars@.take(i as int), chars@[i as int]);
            assert(chars@.take(i as int).push(chars@[i as int]) =~= chars@.take(i + 1));
            lemma_byte_len_take(chars@, i + 1);
        }
        offset = offset + len_utf8(chars[i]) as u32;
        i += 1;
    }
    offsets.push(offset);
    offsets
}

/// The tokens of `input`, each with its text. Spaces and comments
/// separate tokens; the last token marks the end of the input.
pub fn tokenize(input: &str) -> (r: (Vec<Token>, Vec<String>))
    requires
        byte_len(input@) <= u32::MAX,
    ensures
        r.0@ == lex_tokens(input@, 0),
        texts(r.1@) == lex_texts(input@, 0),
        (Input { tokens: r.0@, lexemes: texts(r.1@) }).wf(),
{
    let chars = chars_of(input);
    let n = chars.len();
    let offsets = byte_offsets(&chars);
    let size = offsets.len();
    let ghost s = chars@;
    let mut tokens: Vec<Token> = Vec::new();
    let mut lexemes: Vec<String> = Vec::new();
    let mut i: usize = 0;
    proof {
        assert(texts(lexemes@) =~= Seq::<Seq<char>>::empty());
        assert(tokens@ + lex_tokens(s, 0) =~= lex_tokens(s, 0));
        assert(texts(lexemes@) + lex_texts(s, 0) =~= lex_texts(s, 0));
    }
    loop
        invariant_except_break
            tokens@ + lex_tokens(s, i as int) == lex_tokens(s, 0),
            texts(lexemes@) + lex_texts(s, i as int) == lex_texts(s, 0),
        invariant
            s == chars@,
            n == s.len(),
            n < usize::MAX,
            byte_len(s) <= u32::MAX,
            i <= n,
            offsets@.len() == n + 1,
            forall|k: int| 0 <= k <= n ==> offsets@[k] == byte_len(s.take(k)),
            tokens@.len() == lexemes@.len(),
            forall|k: int|
                0 <= k < tokens@.len() ==> (#[trigger] tokens@[k]).span.lo + byte_len(
                    texts(lexemes@)[k],
                ) <= u32::MAX,
        ensures
            tokens@ == lex_tokens(s, 0),
            texts(lexemes@) == lex_texts(s, 0),
            (Input { tokens: tokens@, lexemes: texts(lexemes@) }).wf(),
        decreases n - i,
    {
        let j = scan_trivia(&chars, i);
        let ghost old_tokens = tokens@;
        let ghost old_texts = texts(lexemes@);
        if j >= n {
            let token = Token { kind: TokenKind::Eof, span: Span { lo: offsets[n], hi: offsets[n] } };
            tokens.push(token);
            lexemes.push(String::new());
            proof {
                assert(texts(lexemes@) =~= old_texts.push(Seq::empty()));
                assert(tokens@ =~= old_tokens + seq![token]);
                assert(texts(lexemes@) =~= old_texts + seq![Seq::<char>::empty()]);
                assert(byte_len(Seq::<char>::empty()) == 0) by {
                    reveal_with_fuel(vstd::utf8::encode_utf8, 1);
                }
                assert forall|k: int| 0 <= k < tokens@.len() implies (#[trigger] tokens@[k]).span.lo
                    + byte_len(texts(lexemes@)[k]) <= u32::MAX by {
                    if k < old_tokens.len() {
                        assert(tokens@[k] == old_tokens[k]);
                        assert(texts(lexemes@)[k] == old_texts[k]);
                    }
                }
            }
            break ;
        }
        let (kind, end) = scan_token(&chars, j);
        let token = Token { kind, span: Span { lo: offsets[j], hi: offsets[end] } };
        let text = string_of(&chars, j, end);
        tokens.push(token);
        lexemes.push(text);
        proof {
            let rest_tokens = lex_tokens(s, end as int);
            let rest_texts = lex_texts(s, end as int);
            assert(texts(lexemes@) =~= old_texts.push(s.subrange(j as int, end as int)));
            assert(tokens@ + rest_tokens =~= old_tokens + (seq![token] + rest_tokens));
            assert(texts(lexemes@) + rest_texts =~= old_texts + (seq![s.subrange(j as int, end as int)]
                + rest_texts));
            lemma_encode_concat(s.take(j as int), s.subrange(j as int, end as int));
            assert(s.take(j as int) + s.subrange(j as int, end as int) =~= s.take(end as int));
            lemma_byte_len_take(s, end as int);
            assert forall|k: int| 0 <= k < tokens@.len() implies (#[trigger] tokens@[k]).span.lo
                + byte_len(texts(lexemes@)[k]) <= u32::MAX by {
                if k < old_tokens.len() {
                    assert(tokens@[k] == old_tokens[k]);
                    assert(texts(lexemes@)[k] == old_texts[k]);
                }
            }
        }
        i = end;
    }
    (tokens, lexemes)
}

} // verus!

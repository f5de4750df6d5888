//! Names of operations: any text made into an identifier.

use crate::text::chars_of;
use crate::text::string_push;
use vstd::prelude::*;

verus! {

/// Whether `char::is_alphabetic` holds of a character.
pub uninterp spec fn is_alphabetic(c: char) -> bool;

/// Whether `char::is_alphanumeric` holds of a character.
pub uninterp spec fn is_alphanumeric(c: char) -> bool;

/// `char::is_alphabetic`: whether the character is a letter of some
/// alphabet.
#[verifier::external_body]
fn char_is_alphabetic(c: char) -> (r: bool)
    ensures
        r == is_alphabetic(c),
{
    c.is_alphabetic()
}

/// `char::is_alphanumeric`: whether the character is a letter or a
/// number of some alphabet.
#[verifier::external_body]
fn char_is_alphanumeric(c: char) -> (r: bool)
    ensures
        r == is_alphanumeric(c),
{
    c.is_alphanumeric()
}

/// The first character of an identifier made of a text that starts with
/// `c`: `c` itself if it is `_` or a letter, else `_`.
pub open spec fn first_of(c: char, alphabetic: bool) -> char {
    if c == '_' || alphabetic {
        c
    } else {
        '_'
    }
}

/// What a later character `c` of a text becomes in an identifier: `-`
/// becomes `_`, `_`, letters and numbers stay, and everything else is
/// left out.
pub open spec fn later_of(c: char, alphanumeric: bool) -> Option<char> {
    if c == '-' {
        Some('_')
    } else if c == '_' || alphanumeric {
        Some(c)
    } else {
        None
    }
}

/// The later characters of an identifier made of the characters `s`.
pub open spec fn later_chars(s: Seq<char>) -> Seq<char>
    decreases s.len(),
{
    if s.len() == 0 {
        Seq::empty()
    } else {
        match later_of(s.last(), is_alphanumeric(s.last())) {
            Some(c) => later_chars(s.drop_last()).push(c),
            None => later_chars(s.drop_last()),
        }
    }
}

/// The identifier made of a text: `circuit` of the empty text.
pub open spec fn sanitized(name: Seq<char>) -> Seq<char> {
    if name.len() == 0 {
        "circuit"@
    } else {
        seq![first_of(name[0], is_alphabetic(name[0]))] + later_chars(name.skip(1))
    }
}

/// The first character of an identifier made of a text that starts with
/// `c`, which is a letter or not as `alphabetic` says.
pub fn sanitize_first(c: char, alphabetic: bool) -> (r: char)
    ensures
        r == first_of(c, alphabetic),
{
    if c == '_' || alphabetic {
        c
    } else {
        '_'
    }
}

/// What a later character `c` of a text becomes in an identifier, where
/// `alphanumeric` says whether it is a letter or a number.
pub fn sanitize_later(c: char, alphanumeric: bool) -> (r: Option<char>)
    ensures
        r == later_of(c, alphanumeric),
{
    if c == '-' {
        Some('_')
    } else if c == '_' || alphanumeric {
        Some(c)
    } else {
        None
    }
}

/// Makes an identifier of a text: the first character is kept if it is
/// `_` or a letter and is `_` otherwise; of the others, `-` becomes `_`,
/// letters, numbers and `_` are kept, and the rest is left out. The
/// empty text gives `circuit`.
pub fn sanitize_name(name: &str) -> (r: String)
    ensures
        r@ == sanitized(name@),
{
    let chars = chars_of(name);
    if chars.len() == 0 {
        return "circuit".to_owned();
    }
    let mut output = String::new();
    let c = chars[0];
    string_push(&mut output, sanitize_first(c, char_is_alphabetic(c)));
    let ghost first = output@;
    let mut i: usize = 1;
    proof {
        assert(chars@.subrange(1, 1) =~= Seq::<char>::empty());
        assert(first + Seq::<char>::empty() =~= first);
    }
    while i < chars.len()
        invariant
            1 <= i <= chars@.len(),
            output@ == first + later_chars(chars@.subrange(1, i as int)),
        decreases chars@.len() - i,
    {
        let c = chars[i];
        proof {
            let next = chars@.subrange(1, i + 1);
            assert(next.drop_last() =~= chars@.subrange(1, i as int));
            assert(next.last() == c);
        }
        let ghost before = output@;
        match sanitize_later(c, char_is_alphanumeric(c)) {
            Some(kept) => {
                string_push(&mut output, kept);
                proof {
                    assert(output@ =~= first + later_chars(chars@.subrange(1, i as int)).push(kept));
                }
            },
            None => {},
        }
        i += 1;
    }
    proof {
        assert(chars@.subrange(1, i as int) =~= chars@.skip(1));
    }
    output
}

} // verus!

//! Character classes the counters are built on.
//!
//! White_Space, the property behind `char::is_whitespace`, is a set of 25 code
//! points: it is written out here and the test is proved against it, as are the
//! ASCII digit test and the vowel set. The Alphabetic and Numeric properties
//! and the lowercase mapping take pages of Unicode data to state, so each is
//! given a name and reached through a small trusted wrapper over `char`'s own
//! method in std.

use vstd::prelude::*;

verus! {

/// Whether `c` has the Unicode White_Space property: the controls U+0009 to
/// U+000D, the space U+0020, U+0085, U+00A0, U+1680, U+2000 to U+200A, the line
/// and paragraph separators U+2028 and U+2029, U+202F, U+205F and U+3000.
pub open spec fn whitespace_char(c: char) -> bool {
    ||| '\u{9}' <= c && c <= '\u{d}'
    ||| c == ' ' || c == '\u{85}' || c == '\u{a0}' || c == '\u{1680}'
    ||| '\u{2000}' <= c && c <= '\u{200a}'
    ||| c == '\u{2028}' || c == '\u{2029}' || c == '\u{202f}' || c == '\u{205f}'
        || c == '\u{3000}'
}

/// Whether `c` has the Unicode Alphabetic property, as `char::is_alphabetic` reports it.
pub uninterp spec fn alphabetic_char(c: char) -> bool;

/// Whether `c` has a numeric general category, as `char::is_numeric` reports it.
pub uninterp spec fn numeric_char(c: char) -> bool;

/// Alphanumeric: alphabetic or numeric, which is how std defines
/// `char::is_alphanumeric`.
pub open spec fn alphanumeric_char(c: char) -> bool {
    alphabetic_char(c) || numeric_char(c)
}

/// The characters that `char::to_lowercase` yields for `c`.
pub uninterp spec fn lowercase_chars(c: char) -> Seq<char>;

/// Whether `c` has the White_Space property.
pub(crate) fn is_whitespace(c: char) -> (r: bool)
    ensures
        r == whitespace_char(c),
{
    match c {
        '\u{9}'..='\u{d}' | ' ' | '\u{85}' | '\u{a0}' | '\u{1680}' => true,
        '\u{2000}'..='\u{200a}' => true,
        '\u{2028}' | '\u{2029}' | '\u{202f}' | '\u{205f}' | '\u{3000}' => true,
        _ => false,
    }
}

/// Calls `char::is_alphabetic`. The contract claims that the answer is a fixed
/// function of `c`, named `alphabetic_char`, and that no White_Space character
/// is alphabetic (the 25 White_Space code points are controls, spaces and
/// separators, none of which Unicode's DerivedCoreProperties lists as
/// Alphabetic). Which characters are alphabetic is not stated.
#[verifier::external_body]
pub(crate) fn is_alphabetic(c: char) -> (r: bool)
    ensures
        r == alphabetic_char(c),
        r ==> !whitespace_char(c),
{
    c.is_alphabetic()
}

/// Calls `char::is_alphanumeric`. The contract claims what std documents of it:
/// the answer is `true` exactly when `c` is alphabetic (`alphabetic_char`) or
/// numeric (`numeric_char`, the result of `char::is_numeric`); and that no
/// White_Space character is alphanumeric (the 25 White_Space code points are
/// controls, spaces and separators, none of which Unicode lists as Alphabetic
/// or gives a numeric category). Which characters are numeric is not stated.
#[verifier::external_body]
pub(crate) fn is_alphanumeric(c: char) -> (r: bool)
    ensures
        r == (alphabetic_char(c) || numeric_char(c)),
        r ==> !whitespace_char(c),
{
    c.is_alphanumeric()
}

/// Calls `char::to_lowercase` and gathers what its iterator yields, in order.
/// The contract claims only that the result is a fixed function of `c`, named
/// `lowercase_chars`; the case mapping itself is not stated.
#[verifier::external_body]
pub(crate) fn to_lowercase(c: char) -> (r: Vec<char>)
    ensures
        r@ == lowercase_chars(c),
{
    c.to_lowercase().collect()
}

/// An ASCII decimal digit, `'0'` through `'9'`.
pub open spec fn ascii_digit(c: char) -> bool {
    '0' <= c && c <= '9'
}

/// Whether `c` is an ASCII decimal digit.
pub(crate) fn is_ascii_digit(c: char) -> (r: bool)
    ensures
        r == ascii_digit(c),
{
    '0' <= c && c <= '9'
}

/// The vowels of the syllable heuristic: `a e i o u y` and their common
/// accented Latin forms (lower case only; letters are lowered before the test).
pub open spec fn vowel(c: char) -> bool {
    ||| c == 'a' || c == 'e' || c == 'i' || c == 'o' || c == 'u' || c == 'y'
    ||| c == '\u{e1}' || c == '\u{e0}' || c == '\u{e2}' || c == '\u{e4}' || c == '\u{e3}'
        || c == '\u{e5}'
    ||| c == '\u{e9}' || c == '\u{e8}' || c == '\u{ea}' || c == '\u{eb}'
    ||| c == '\u{ed}' || c == '\u{ec}' || c == '\u{ee}' || c == '\u{ef}'
    ||| c == '\u{f3}' || c == '\u{f2}' || c == '\u{f4}' || c == '\u{f6}' || c == '\u{f5}'
    ||| c == '\u{fa}' || c == '\u{f9}' || c == '\u{fb}' || c == '\u{fc}'
    ||| c == '\u{fd}' || c == '\u{ff}'
}

/// Whether `c` is one of the heuristic's vowels.
pub(crate) fn is_vowel(c: char) -> (r: bool)
    ensures
        r == vowel(c),
{
    match c {
        'a' | 'e' | 'i' | 'o' | 'u' | 'y' => true,
        '\u{e1}' | '\u{e0}' | '\u{e2}' | '\u{e4}' | '\u{e3}' | '\u{e5}' => true,
        '\u{e9}' | '\u{e8}' | '\u{ea}' | '\u{eb}' => true,
        '\u{ed}' | '\u{ec}' | '\u{ee}' | '\u{ef}' => true,
        '\u{f3}' | '\u{f2}' | '\u{f4}' | '\u{f6}' | '\u{f5}' => true,
        '\u{fa}' | '\u{f9}' | '\u{fb}' | '\u{fc}' => true,
        '\u{fd}' | '\u{ff}' => true,
        _ => false,
    }
}

} // verus!

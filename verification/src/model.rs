//! The mathematical model of the counts: what each counter returns, stated
//! over the text as a sequence of characters.

use vstd::prelude::*;

use crate::chars::{alphabetic_char, alphanumeric_char, ascii_digit, lowercase_chars, vowel, whitespace_char};

verus! {

/// The number of elements of `s` that satisfy `p`.
pub open spec fn count_where<A>(s: Seq<A>, p: spec_fn(A) -> bool) -> nat
    decreases s.len(),
{
    if s.len() == 0 {
        0
    } else {
        count_where(s.drop_last(), p) + if p(s.last()) { 1nat } else { 0nat }
    }
}

/// The sum of `f` over the elements of `s`.
pub open spec fn sum_of<A>(s: Seq<A>, f: spec_fn(A) -> nat) -> nat
    decreases s.len(),
{
    if s.len() == 0 {
        0
    } else {
        sum_of(s.drop_last(), f) + f(s.last())
    }
}

// ---------------------------------------------------------------------------
// Words
// ---------------------------------------------------------------------------

/// The whitespace-separated tokens of `s`, in order: the maximal runs of
/// characters that are not whitespace.
///
/// Read from the end: a whitespace character ends no token; a non-whitespace
/// character after a non-whitespace one extends the last token; any other
/// non-whitespace character starts a new token.
pub open spec fn words(s: Seq<char>) -> Seq<Seq<char>>
    decreases s.len(),
{
    if s.len() == 0 {
        Seq::empty()
    } else {
        let before = words(s.drop_last());
        let c = s.last();
        if whitespace_char(c) {
            before
        } else if s.len() >= 2 && !whitespace_char(s[s.len() - 2]) {
            before.update(before.len() - 1, before.last().push(c))
        } else {
            before.push(seq![c])
        }
    }
}

/// A token holds at least one alphanumeric character.
pub open spec fn has_alphanumeric(w: Seq<char>) -> bool {
    exists|i: int| 0 <= i < w.len() && #[trigger] alphanumeric_char(w[i])
}

/// Every character of `s` is whitespace (so `s` trims to nothing).
pub open spec fn all_whitespace(s: Seq<char>) -> bool {
    forall|i: int| 0 <= i < s.len() ==> #[trigger] whitespace_char(s[i])
}

/// The number of words: tokens that hold an alphanumeric character.
pub open spec fn word_total(s: Seq<char>) -> nat {
    count_where(words(s), |w: Seq<char>| has_alphanumeric(w))
}

/// The number of non-whitespace characters.
pub open spec fn nonwhitespace_total(s: Seq<char>) -> nat {
    count_where(s, |c: char| !whitespace_char(c))
}

/// The number of alphabetic characters.
pub open spec fn alphabetic_total(s: Seq<char>) -> nat {
    count_where(s, |c: char| alphabetic_char(c))
}

// ---------------------------------------------------------------------------
// Syllables
// ---------------------------------------------------------------------------

/// The letters of `w`, in order, each replaced by its lowercase mapping; every
/// other character is dropped.
pub open spec fn lowered_letters(w: Seq<char>) -> Seq<char>
    decreases w.len(),
{
    if w.len() == 0 {
        Seq::empty()
    } else {
        lowered_letters(w.drop_last()) + if alphabetic_char(w.last()) {
            lowercase_chars(w.last())
        } else {
            Seq::empty()
        }
    }
}

/// Position `i` of `l` starts a group of vowels.
pub open spec fn starts_vowel_group(l: Seq<char>, i: int) -> bool {
    vowel(l[i]) && (i == 0 || !vowel(l[i - 1]))
}

/// The number of maximal runs of vowels in `l`.
pub open spec fn vowel_groups(l: Seq<char>) -> nat
    decreases l.len(),
{
    if l.len() == 0 {
        0
    } else {
        vowel_groups(l.drop_last()) + if starts_vowel_group(l, l.len() - 1) {
            1nat
        } else {
            0nat
        }
    }
}

/// `l` ends in a silent `e`: a final `e` that is not part of an `le` ending
/// after a consonant (as in "ta-ble").
pub open spec fn silent_e(l: Seq<char>) -> bool {
    let n = l.len();
    &&& n >= 1
    &&& l[n - 1] == 'e'
    &&& !(n >= 3 && l[n - 2] == 'l' && !vowel(l[n - 3]))
}

/// The syllable estimate for one token.
///
/// Without letters, a token reads as one syllable if it holds an alphanumeric
/// character (a number) and as none otherwise. With letters, it is the number
/// of vowel groups of its lowered letters, less one for a silent `e` when there
/// is more than one group, and at least one.
pub open spec fn word_syllables(w: Seq<char>) -> nat {
    let l = lowered_letters(w);
    if l.len() == 0 {
        if has_alphanumeric(w) {
            1
        } else {
            0
        }
    } else {
        let g = vowel_groups(l);
        let adjusted: nat = if silent_e(l) && g > 1 {
            (g - 1) as nat
        } else {
            g
        };
        if adjusted >= 1 {
            adjusted
        } else {
            1
        }
    }
}

/// The syllables of all tokens of `s`, added up.
pub open spec fn syllable_total(s: Seq<char>) -> nat {
    sum_of(words(s), |w: Seq<char>| word_syllables(w))
}

/// The number of tokens of `s` with three or more syllables.
pub open spec fn polysyllabic_total(s: Seq<char>) -> nat {
    count_where(words(s), |w: Seq<char>| word_syllables(w) >= 3)
}

// ---------------------------------------------------------------------------
// Sentences
// ---------------------------------------------------------------------------

/// The `.` at `i` sits between two ASCII digits (a decimal point).
pub open spec fn decimal_point_at(s: Seq<char>, i: int) -> bool {
    &&& 0 < i
    &&& i + 1 < s.len()
    &&& ascii_digit(s[i - 1])
    &&& ascii_digit(s[i + 1])
}

/// The character at `i` is directly followed by an alphanumeric character.
pub open spec fn followed_by_alphanumeric(s: Seq<char>, i: int) -> bool {
    i + 1 < s.len() && alphanumeric_char(s[i + 1])
}

/// The character at `i` ends a sentence: `!` or `?`, or a `.` that is neither a
/// decimal point nor directly followed by a letter or digit (as inside "U.S.A").
pub open spec fn sentence_end_at(s: Seq<char>, i: int) -> bool {
    ||| s[i] == '!'
    ||| s[i] == '?'
    ||| s[i] == '.' && !decimal_point_at(s, i) && !followed_by_alphanumeric(s, i)
}

/// Position `i` starts a run of sentence ends.
pub open spec fn starts_end_run(s: Seq<char>, i: int) -> bool {
    sentence_end_at(s, i) && (i == 0 || !sentence_end_at(s, i - 1))
}

/// The number of runs of sentence ends that start before position `n`.
pub open spec fn end_runs_before(s: Seq<char>, n: int) -> nat
    decreases n,
{
    if n <= 0 {
        0
    } else {
        end_runs_before(s, n - 1) + if starts_end_run(s, n - 1) {
            1nat
        } else {
            0nat
        }
    }
}

/// The number of sentences: none for blank text; otherwise one per run of
/// sentence ends, and one when there is no sentence end at all.
pub open spec fn sentence_total(s: Seq<char>) -> nat {
    if all_whitespace(s) {
        0
    } else if end_runs_before(s, s.len() as int) == 0 {
        1
    } else {
        end_runs_before(s, s.len() as int)
    }
}

} // verus!

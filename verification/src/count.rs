//! Tokenization and counting: words, sentences, syllables, characters.

use vstd::prelude::*;

use crate::chars::{
    alphabetic_char, alphanumeric_char, is_alphabetic, is_alphanumeric, is_ascii_digit,
    is_vowel, is_whitespace, to_lowercase, vowel, whitespace_char,
};
use crate::laws::lemma_word_syllables_bounds;
use crate::model::{
    all_whitespace, alphabetic_total, count_where, nonwhitespace_total, polysyllabic_total,
    syllable_total, end_runs_before, has_alphanumeric, lowered_letters, sentence_end_at,
    sentence_total, sum_of, vowel_groups, word_syllables, words, word_total,
};

verus! {

/// The views of a sequence of character vectors.
pub open spec fn views(ws: Seq<Vec<char>>) -> Seq<Seq<char>> {
    ws.map_values(|v: Vec<char>| v@)
}

/// The characters of `text`, in order.
pub(crate) fn collect_chars(text: &str) -> (v: Vec<char>)
    ensures
        v@ == text@,
{
    let mut v: Vec<char> = Vec::new();
    for c in it: text.chars()
        invariant
            v@ == it.seq().take(it.index() as int),
            it.seq() == text@,
    {
        v.push(c);
    }
    v
}

/// Split `chars` at whitespace into its tokens.
pub(crate) fn split_words(chars: &Vec<char>) -> (ws: Vec<Vec<char>>)
    ensures
        views(ws@) == words(chars@),
{
    let mut ws: Vec<Vec<char>> = Vec::new();
    let mut cur: Vec<char> = Vec::new();
    let mut in_word = false;
    let n = chars.len();
    assert(chars@.take(0) =~= Seq::<char>::empty());
    assert(views(ws@) =~= Seq::<Seq<char>>::empty());
    for i in 0..n
        invariant
            n == chars@.len(),
            in_word == (i > 0 && !whitespace_char(chars@[i - 1])),
            in_word ==> words(chars@.take(i as int)) == views(ws@).push(cur@),
            !in_word ==> words(chars@.take(i as int)) == views(ws@) && cur@.len() == 0,
    {
        let c = chars[i];
        let ghost before = chars@.take(i as int);
        let ghost after = chars@.take(i + 1);
        assert(after.drop_last() =~= before);
        assert(after.last() == c);
        if i > 0 {
            assert(after[i - 1] == chars@[i - 1]);
        }
        if is_whitespace(c) {
            if in_word {
                let ghost old_ws = ws@;
                ws.push(cur);
                assert(views(ws@) =~= views(old_ws).push(views(ws@).last()));
                cur = Vec::new();
                in_word = false;
            }
        } else {
            cur.push(c);
            if !in_word {
                assert(cur@ =~= seq![c]);
            }
            in_word = true;
        }
    }
    assert(chars@.take(n as int) =~= chars@);
    if in_word {
        let ghost old_ws = ws@;
        ws.push(cur);
        assert(views(ws@) =~= views(old_ws).push(views(ws@).last()));
    }
    ws
}

/// Whether `w` holds an alphanumeric character.
pub(crate) fn contains_alphanumeric(w: &Vec<char>) -> (r: bool)
    ensures
        r == has_alphanumeric(w@),
{
    let n = w.len();
    for i in 0..n
        invariant
            n == w@.len(),
            forall|j: int| 0 <= j < i ==> !alphanumeric_char(#[trigger] w@[j]),
    {
        if is_alphanumeric(w[i]) {
            assert(alphanumeric_char(w@[i as int]));
            return true;
        }
    }
    false
}

/// Count words: whitespace-separated tokens containing at least one alphanumeric
/// character (so stray punctuation tokens are not counted).
pub fn lexicon_count(text: &str) -> (r: usize)
    ensures
        r == word_total(text@),
{
    let chars = collect_chars(text);
    let ws = split_words(&chars);
    let ghost all = words(text@);
    let mut count: usize = 0;
    let n = ws.len();
    for j in 0..n
        invariant
            n == ws@.len(),
            views(ws@) == all,
            count == count_where(all.take(j as int), |w: Seq<char>| has_alphanumeric(w)),
            count <= j,
    {
        assert(all.take(j + 1).drop_last() =~= all.take(j as int));
        assert(all[j as int] == ws@[j as int]@);
        if contains_alphanumeric(&ws[j]) {
            count = count + 1;
        }
    }
    assert(all.take(n as int) =~= all);
    count
}

/// The letters of `w`, lowered: each alphabetic character replaced by its
/// lowercase mapping, every other character dropped.
pub(crate) fn lower_letters(w: &Vec<char>) -> (lowered: Vec<char>)
    ensures
        lowered@ == lowered_letters(w@),
{
    let mut lowered: Vec<char> = Vec::new();
    let n = w.len();
    assert(w@.take(0) =~= Seq::<char>::empty());
    for i in 0..n
        invariant
            n == w@.len(),
            lowered@ == lowered_letters(w@.take(i as int)),
    {
        assert(w@.take(i + 1).drop_last() =~= w@.take(i as int));
        assert(w@.take(i + 1).last() == w@[i as int]);
        if is_alphabetic(w[i]) {
            let mut lc = to_lowercase(w[i]);
            lowered.append(&mut lc);
        } else {
            assert(lowered@ + Seq::<char>::empty() =~= lowered@);
        }
    }
    assert(w@.take(n as int) =~= w@);
    lowered
}

/// The syllable estimate of one token given as characters.
pub(crate) fn word_syllable_count(w: &Vec<char>) -> (r: usize)
    ensures
        r == word_syllables(w@),
{
    let chars = lower_letters(w);
    if chars.len() == 0 {
        // No letters: a numeric token (e.g. "100") still reads as one syllable.
        return if contains_alphanumeric(w) {
            1
        } else {
            0
        };
    }
    let n = chars.len();
    let mut count: usize = 0;
    let mut prev_vowel = false;
    assert(chars@.take(0) =~= Seq::<char>::empty());
    for i in 0..n
        invariant
            n == chars@.len(),
            count == vowel_groups(chars@.take(i as int)),
            count <= i,
            prev_vowel == (i > 0 && vowel(chars@[i - 1])),
    {
        let ghost after = chars@.take(i + 1);
        assert(after.drop_last() =~= chars@.take(i as int));
        assert(after[i as int] == chars@[i as int]);
        if i > 0 {
            assert(after[i - 1] == chars@[i - 1]);
        }
        let v = is_vowel(chars[i]);
        if v && !prev_vowel {
            count = count + 1;
        }
        prev_vowel = v;
    }
    assert(chars@.take(n as int) =~= chars@);
    // Silent trailing 'e', except a "le" ending after a consonant ("ta-ble").
    if chars[n - 1] == 'e' && count > 1 {
        let le_after_consonant = n >= 3 && chars[n - 2] == 'l' && !is_vowel(chars[n - 3]);
        if !le_after_consonant {
            count = count - 1;
        }
    }
    // Any word containing letters has at least one syllable (covers non-Latin
    // scripts, which have no Latin vowels but are still words).
    if count >= 1 {
        count
    } else {
        1
    }
}

/// Estimate the number of syllables in a single English word using a vowel-group
/// heuristic with a silent-`e` rule. A word with letters has at least one; a
/// word without letters has one if it holds a digit or other alphanumeric
/// character, and none otherwise.
pub fn syllables(word: &str) -> (r: usize)
    ensures
        r == word_syllables(word@),
        (exists|i: int| 0 <= i < word@.len() && #[trigger] alphabetic_char(word@[i])) ==> r >= 1,
        r == 0 <==> !has_alphanumeric(word@),
{
    proof {
        lemma_word_syllables_bounds(word@);
    }
    let chars = collect_chars(word);
    word_syllable_count(&chars)
}

/// Total syllables across all words in `text`, or `None` where that total does
/// not fit in a `usize`.
pub fn checked_syllable_count(text: &str) -> (r: Option<usize>)
    ensures
        match r {
            Some(n) => n == syllable_total(text@),
            None => syllable_total(text@) > usize::MAX,
        },
{
    let chars = collect_chars(text);
    let ws = split_words(&chars);
    let ghost all = words(text@);
    let mut total: usize = 0;
    let n = ws.len();
    for j in 0..n
        invariant
            n == ws@.len(),
            views(ws@) == all,
            all == words(text@),
            total == sum_of(all.take(j as int), |w: Seq<char>| word_syllables(w)),
    {
        assert(all.take(j + 1).drop_last() =~= all.take(j as int));
        assert(all[j as int] == ws@[j as int]@);
        let s = word_syllable_count(&ws[j]);
        match total.checked_add(s) {
            Some(t) => {
                total = t;
            },
            None => {
                proof {
                    let f = |w: Seq<char>| word_syllables(w);
                    lemma_sum_of_prefix_monotone(all, f, j + 1);
                    assert(sum_of(all.take(j + 1), f) == total + s);
                    assert(syllable_total(text@) == sum_of(all, f));
                }
                return None;
            },
        }
    }
    assert(all.take(n as int) =~= all);
    Some(total)
}

/// Total syllables across all words in `text`.
pub fn syllable_count(text: &str) -> (r: usize)
    requires
        syllable_total(text@) <= usize::MAX,
    ensures
        r == syllable_total(text@),
{
    match checked_syllable_count(text) {
        Some(n) => n,
        None => 0,
    }
}

/// Count polysyllabic words (three or more syllables), used by Gunning Fog and SMOG.
pub fn polysyllabic_count(text: &str) -> (r: usize)
    ensures
        r == polysyllabic_total(text@),
{
    let chars = collect_chars(text);
    let ws = split_words(&chars);
    let ghost all = words(text@);
    let mut count: usize = 0;
    let n = ws.len();
    for j in 0..n
        invariant
            n == ws@.len(),
            views(ws@) == all,
            count == count_where(all.take(j as int), |w: Seq<char>| word_syllables(w) >= 3),
            count <= j,
    {
        assert(all.take(j + 1).drop_last() =~= all.take(j as int));
        assert(all[j as int] == ws@[j as int]@);
        if word_syllable_count(&ws[j]) >= 3 {
            count = count + 1;
        }
    }
    assert(all.take(n as int) =~= all);
    count
}

/// Count non-whitespace characters (includes punctuation).
pub fn char_count(text: &str) -> (r: usize)
    ensures
        r == nonwhitespace_total(text@),
{
    let chars = collect_chars(text);
    let n = chars.len();
    let mut count: usize = 0;
    for i in 0..n
        invariant
            n == chars@.len(),
            chars@ == text@,
            count == count_where(text@.take(i as int), |c: char| !whitespace_char(c)),
            count <= i,
    {
        assert(text@.take(i + 1).drop_last() =~= text@.take(i as int));
        if !is_whitespace(chars[i]) {
            count = count + 1;
        }
    }
    assert(text@.take(n as int) =~= text@);
    count
}

/// Count alphabetic characters only. No letter is whitespace, so a text never
/// has more letters than non-whitespace characters.
pub fn letter_count(text: &str) -> (r: usize)
    ensures
        r == alphabetic_total(text@),
        r <= nonwhitespace_total(text@),
{
    let chars = collect_chars(text);
    let n = chars.len();
    let mut count: usize = 0;
    for i in 0..n
        invariant
            n == chars@.len(),
            chars@ == text@,
            count == count_where(text@.take(i as int), |c: char| alphabetic_char(c)),
            count <= count_where(text@.take(i as int), |c: char| !whitespace_char(c)),
            count <= i,
    {
        assert(text@.take(i + 1).drop_last() =~= text@.take(i as int));
        if is_alphabetic(chars[i]) {
            count = count + 1;
        }
    }
    assert(text@.take(n as int) =~= text@);
    count
}

/// Whether the character at `i` plausibly ends a sentence: `!` and `?` always;
/// `.` unless it is a decimal point (digit on both sides) or is directly
/// followed by a letter or digit (as inside "U.S.A").
pub(crate) fn is_sentence_end(chars: &[char], i: usize) -> (r: bool)
    requires
        i < chars@.len(),
    ensures
        r == sentence_end_at(chars@, i as int),
        chars@[i as int] == '.' && (i + 1 == chars@.len() || whitespace_char(chars@[i + 1]))
            ==> r,
{
    let c = chars[i];
    if c == '!' || c == '?' {
        true
    } else if c == '.' {
        let has_next = i + 1 < chars.len();
        // Decimal point: digit on both sides (e.g. "3.14").
        if i > 0 && has_next && is_ascii_digit(chars[i - 1]) && is_ascii_digit(chars[i + 1]) {
            return false;
        }
        // Initialism: directly followed by a letter/digit (e.g. "U.S.A").
        if has_next && is_alphanumeric(chars[i + 1]) {
            return false;
        }
        true
    } else {
        false
    }
}

/// Whether every character of `chars` is whitespace.
pub(crate) fn is_blank(chars: &Vec<char>) -> (r: bool)
    ensures
        r == all_whitespace(chars@),
{
    let n = chars.len();
    for i in 0..n
        invariant
            n == chars@.len(),
            forall|j: int| 0 <= j < i ==> #[trigger] whitespace_char(chars@[j]),
    {
        if !is_whitespace(chars[i]) {
            return false;
        }
    }
    true
}

/// Count sentences by runs of terminal punctuation (`.`, `!`, `?`). Non-empty
/// text with no terminator counts as one sentence; blank text has none.
///
/// A `.` is **not** treated as a sentence end when it is a decimal point (digit
/// on both sides) or part of an initialism (immediately followed by another
/// letter/digit), which avoids over-counting `3.14` and `U.S.A.`. Runs of
/// terminators (e.g. `...` or `?!`) collapse to one. Trailing abbreviation dots
/// (`Dr.`) can still be over-counted by one.
pub fn sentence_count(text: &str) -> (r: usize)
    ensures
        r == sentence_total(text@),
        forall|i: int|
            0 <= i < text@.len() && #[trigger] text@[i] == '.' && (i + 1 == text@.len()
                || whitespace_char(text@[i + 1])) ==> sentence_end_at(text@, i),
{
    let chars = collect_chars(text);
    if is_blank(&chars) {
        assert forall|i: int| 0 <= i < text@.len() implies #[trigger] text@[i] != '.' by {
            assert(whitespace_char(chars@[i]));
        }
        return 0;
    }
    let n = chars.len();
    let mut count: usize = 0;
    let mut in_run = false;
    for i in 0..n
        invariant
            n == chars@.len(),
            chars@ == text@,
            count == end_runs_before(text@, i as int),
            count <= i,
            in_run == (i > 0 && sentence_end_at(text@, i - 1)),
            forall|j: int|
                0 <= j < i && #[trigger] text@[j] == '.' && (j + 1 == text@.len()
                    || whitespace_char(text@[j + 1])) ==> sentence_end_at(text@, j),
    {
        if is_sentence_end(chars.as_slice(), i) {
            if !in_run {
                count = count + 1;
                in_run = true;
            }
        } else {
            in_run = false;
        }
    }
    if count == 0 {
        1
    } else {
        count
    }
}

/// A sum over a prefix is at most the sum over the whole sequence.
proof fn lemma_sum_of_prefix_monotone<A>(s: Seq<A>, f: spec_fn(A) -> nat, k: int)
    requires
        0 <= k <= s.len(),
    ensures
        sum_of(s.take(k), f) <= sum_of(s, f),
    decreases s.len() - k,
{
    if k < s.len() {
        lemma_sum_of_prefix_monotone(s, f, k + 1);
        assert(s.take(k + 1).drop_last() =~= s.take(k));
    } else {
        assert(s.take(k) =~= s);
    }
}

} // verus!

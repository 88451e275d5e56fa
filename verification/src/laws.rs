//! Properties of the counters that hold for every text, stated over the model
//! that their contracts use.

use vstd::prelude::*;

use crate::chars::{alphabetic_char, alphanumeric_char, lowercase_chars, numeric_char, vowel, whitespace_char};
use crate::model::{
    all_whitespace, alphabetic_total, count_where, end_runs_before, has_alphanumeric,
    lowered_letters, nonwhitespace_total, polysyllabic_total, sentence_end_at, starts_end_run,
    sentence_total, sum_of, syllable_total, vowel_groups, word_syllables, word_total, words,
};

verus! {

// ---------------------------------------------------------------------------
// Helpers on counts and sums
// ---------------------------------------------------------------------------

/// A count never exceeds the length.
pub proof fn lemma_count_where_le_len<A>(s: Seq<A>, p: spec_fn(A) -> bool)
    ensures
        count_where(s, p) <= s.len(),
    decreases s.len(),
{
    if s.len() > 0 {
        lemma_count_where_le_len(s.drop_last(), p);
    }
}

/// Counting over a concatenation adds the counts.
pub proof fn lemma_count_where_concat<A>(a: Seq<A>, b: Seq<A>, p: spec_fn(A) -> bool)
    ensures
        count_where(a + b, p) == count_where(a, p) + count_where(b, p),
    decreases b.len(),
{
    if b.len() == 0 {
        assert(a + b =~= a);
    } else {
        lemma_count_where_concat(a, b.drop_last(), p);
        assert((a + b).drop_last() =~= a + b.drop_last());
    }
}

/// Summing over a concatenation adds the sums.
pub proof fn lemma_sum_of_concat<A>(a: Seq<A>, b: Seq<A>, f: spec_fn(A) -> nat)
    ensures
        sum_of(a + b, f) == sum_of(a, f) + sum_of(b, f),
    decreases b.len(),
{
    if b.len() == 0 {
        assert(a + b =~= a);
    } else {
        lemma_sum_of_concat(a, b.drop_last(), f);
        assert((a + b).drop_last() =~= a + b.drop_last());
    }
}

/// Where `p` implies `q` element by element, `p` counts no more than `q`.
proof fn lemma_count_where_implies<A>(s: Seq<A>, p: spec_fn(A) -> bool, q: spec_fn(A) -> bool)
    requires
        forall|i: int| 0 <= i < s.len() && #[trigger] p(s[i]) ==> q(s[i]),
    ensures
        count_where(s, p) <= count_where(s, q),
    decreases s.len(),
{
    if s.len() > 0 {
        lemma_count_where_implies(s.drop_last(), p, q);
        assert(p(s.last()) ==> q(s[s.len() - 1]));
    }
}

/// Where each element satisfying `p` adds at least one to `f`, the sum of `f`
/// is at least the count of `p`.
proof fn lemma_sum_at_least_count<A>(s: Seq<A>, p: spec_fn(A) -> bool, f: spec_fn(A) -> nat)
    requires
        forall|i: int| 0 <= i < s.len() && #[trigger] p(s[i]) ==> f(s[i]) >= 1,
    ensures
        sum_of(s, f) >= count_where(s, p),
    decreases s.len(),
{
    if s.len() > 0 {
        lemma_sum_at_least_count(s.drop_last(), p, f);
        assert(p(s.last()) ==> f(s[s.len() - 1]) >= 1);
    }
}

// ---------------------------------------------------------------------------
// Tokens
// ---------------------------------------------------------------------------

/// Tokens are non-empty runs of non-whitespace characters, a text whose last
/// character is not whitespace has a token, and the token lengths add up to
/// the number of non-whitespace characters: every such character belongs to
/// exactly one token.
pub proof fn lemma_words_partition_nonwhitespace(s: Seq<char>)
    ensures
        forall|k: int| 0 <= k < words(s).len() ==> (#[trigger] words(s)[k]).len() > 0,
        forall|k: int, j: int|
            0 <= k < words(s).len() && 0 <= j < words(s)[k].len() ==> !whitespace_char(
                #[trigger] words(s)[k][j],
            ),
        s.len() > 0 && !whitespace_char(s.last()) ==> words(s).len() > 0,
        sum_of(words(s), |w: Seq<char>| w.len()) == nonwhitespace_total(s),
    decreases s.len(),
{
    let f = |w: Seq<char>| w.len();
    if s.len() > 0 {
        let t = s.drop_last();
        lemma_words_partition_nonwhitespace(t);
        let before = words(t);
        let c = s.last();
        if whitespace_char(c) {
        } else if s.len() >= 2 && !whitespace_char(s[s.len() - 2]) {
            assert(t.last() == s[s.len() - 2]);
            let w = words(s);
            let x = before.last().push(c);
            assert(w == before.update(before.len() - 1, x));
            assert(w.drop_last() =~= before.drop_last());
            assert forall|k: int, j: int|
                0 <= k < w.len() && 0 <= j < w[k].len() implies !whitespace_char(
                #[trigger] w[k][j],
            ) by {
                if k == w.len() - 1 {
                    if j < before.last().len() {
                        assert(w[k][j] == before[k][j]);
                    }
                } else {
                    assert(w[k] == before[k]);
                }
            }
            assert(sum_of(w, f) == sum_of(before.drop_last(), f) + x.len());
            assert(sum_of(before, f) == sum_of(before.drop_last(), f) + before.last().len());
        } else {
            let w = words(s);
            assert(w == before.push(seq![c]));
            assert(w.drop_last() =~= before);
            assert forall|k: int, j: int|
                0 <= k < w.len() && 0 <= j < w[k].len() implies !whitespace_char(
                #[trigger] w[k][j],
            ) by {
                if k < before.len() {
                    assert(w[k] == before[k]);
                }
            }
        }
    }
}

/// A text joined from two texts by a whitespace character has the tokens of the
/// first followed by the tokens of the second.
pub proof fn lemma_words_join(a: Seq<char>, sep: char, b: Seq<char>)
    requires
        whitespace_char(sep),
    ensures
        words(a + seq![sep] + b) == words(a) + words(b),
    decreases b.len(),
{
    let x = a + seq![sep] + b;
    if b.len() == 0 {
        assert(x.drop_last() =~= a);
        assert(words(a) + words(b) =~= words(a));
    } else {
        let b1 = b.drop_last();
        lemma_words_join(a, sep, b1);
        assert(x.drop_last() =~= a + seq![sep] + b1);
        let wa = words(a);
        let wb1 = words(b1);
        let c = b.last();
        assert(x.last() == c);
        if whitespace_char(c) {
        } else if x.len() >= 2 && !whitespace_char(x[x.len() - 2]) {
            // The character before `c` is the last of `b1`, not the separator.
            assert(b.len() >= 2 && x[x.len() - 2] == b[b.len() - 2]) by {
                if b.len() == 1 {
                    assert(x[x.len() - 2] == sep);
                }
            }
            assert(b1.last() == b[b.len() - 2]);
            lemma_words_partition_nonwhitespace(b1);
            let y = wb1.last().push(c);
            assert((wa + wb1).last() == wb1.last());
            assert((wa + wb1).update((wa + wb1).len() - 1, y) =~= wa + wb1.update(
                wb1.len() - 1,
                y,
            ));
        } else {
            if b.len() >= 2 {
                assert(x[x.len() - 2] == b[b.len() - 2]);
            }
            assert((wa + wb1).push(seq![c]) =~= wa + wb1.push(seq![c]));
        }
    }
}

// ---------------------------------------------------------------------------
// Syllables
// ---------------------------------------------------------------------------

/// A token with lowered letters has a letter.
proof fn lemma_lowered_letters_has_letter(w: Seq<char>)
    requires
        lowered_letters(w).len() > 0,
    ensures
        exists|i: int| 0 <= i < w.len() && #[trigger] alphabetic_char(w[i]),
    decreases w.len(),
{
    let t = w.drop_last();
    if lowered_letters(t).len() > 0 {
        lemma_lowered_letters_has_letter(t);
        let i = choose|i: int| 0 <= i < t.len() && #[trigger] alphabetic_char(t[i]);
        assert(w[i] == t[i]);
    } else {
        assert(alphabetic_char(w[w.len() - 1]));
    }
}

/// A token without letters has no lowered letters.
proof fn lemma_no_letter_no_lowered(w: Seq<char>)
    requires
        forall|i: int| 0 <= i < w.len() ==> !#[trigger] alphabetic_char(w[i]),
    ensures
        lowered_letters(w).len() == 0,
    decreases w.len(),
{
    if w.len() > 0 {
        let t = w.drop_last();
        assert forall|i: int| 0 <= i < t.len() implies !#[trigger] alphabetic_char(t[i]) by {
            assert(t[i] == w[i]);
        }
        lemma_no_letter_no_lowered(t);
        assert(!alphabetic_char(w[w.len() - 1]));
    }
}

/// A word with letters has at least one syllable; a token has no syllables
/// exactly when it holds no letter or digit; and a token of three or more
/// syllables holds a letter.
pub proof fn lemma_word_syllables_bounds(w: Seq<char>)
    ensures
        (exists|i: int| 0 <= i < w.len() && #[trigger] alphabetic_char(w[i])) ==> word_syllables(
            w,
        ) >= 1,
        word_syllables(w) == 0 <==> !has_alphanumeric(w),
        word_syllables(w) >= 3 ==> exists|i: int|
            0 <= i < w.len() && #[trigger] alphabetic_char(w[i]),
{
    if lowered_letters(w).len() > 0 {
        lemma_lowered_letters_has_letter(w);
        let i = choose|i: int| 0 <= i < w.len() && #[trigger] alphabetic_char(w[i]);
        assert(alphanumeric_char(w[i]));
    } else {
        if exists|i: int| 0 <= i < w.len() && #[trigger] alphabetic_char(w[i]) {
            let i = choose|i: int| 0 <= i < w.len() && #[trigger] alphabetic_char(w[i]);
            assert(alphanumeric_char(w[i]));
        }
    }
}

/// Every counted word contributes at least one syllable, so a text has at least
/// as many syllables as words.
pub proof fn lemma_syllables_at_least_words(s: Seq<char>)
    ensures
        syllable_total(s) >= word_total(s),
{
    let ws = words(s);
    let p = |w: Seq<char>| has_alphanumeric(w);
    let f = |w: Seq<char>| word_syllables(w);
    assert forall|i: int| 0 <= i < ws.len() && #[trigger] p(ws[i]) implies f(ws[i]) >= 1 by {
        lemma_word_syllables_bounds(ws[i]);
    }
    lemma_sum_at_least_count(ws, p, f);
}

/// Polysyllabic words are words: their count is at most the word count, which
/// is at most the number of tokens and at most the number of non-whitespace
/// characters.
pub proof fn lemma_count_order(s: Seq<char>)
    ensures
        polysyllabic_total(s) <= word_total(s),
        word_total(s) <= words(s).len(),
        word_total(s) <= nonwhitespace_total(s),
{
    let ws = words(s);
    let p = |w: Seq<char>| word_syllables(w) >= 3;
    let q = |w: Seq<char>| has_alphanumeric(w);
    assert forall|i: int| 0 <= i < ws.len() && #[trigger] p(ws[i]) implies q(ws[i]) by {
        lemma_word_syllables_bounds(ws[i]);
        let j = choose|j: int| 0 <= j < ws[i].len() && #[trigger] alphabetic_char(ws[i][j]);
        assert(alphanumeric_char(ws[i][j]));
    }
    lemma_count_where_implies(ws, p, q);
    lemma_count_where_le_len(ws, q);
    lemma_words_partition_nonwhitespace(s);
    let one = |w: Seq<char>| true;
    let len = |w: Seq<char>| w.len();
    assert forall|i: int| 0 <= i < ws.len() && #[trigger] one(ws[i]) implies len(ws[i]) >= 1 by {
    }
    lemma_sum_at_least_count(ws, one, len);
    lemma_count_all(ws);
}

/// Counting what always holds gives the length.
proof fn lemma_count_all(s: Seq<Seq<char>>)
    ensures
        count_where(s, |w: Seq<char>| true) == s.len(),
    decreases s.len(),
{
    if s.len() > 0 {
        lemma_count_all(s.drop_last());
    }
}

// ---------------------------------------------------------------------------
// Joining texts
// ---------------------------------------------------------------------------

/// Joining two texts with a whitespace character adds their word, syllable,
/// polysyllabic-word and non-whitespace-character counts.
pub proof fn lemma_counts_add_across_whitespace(a: Seq<char>, sep: char, b: Seq<char>)
    requires
        whitespace_char(sep),
    ensures
        word_total(a + seq![sep] + b) == word_total(a) + word_total(b),
        syllable_total(a + seq![sep] + b) == syllable_total(a) + syllable_total(b),
        polysyllabic_total(a + seq![sep] + b) == polysyllabic_total(a) + polysyllabic_total(b),
        nonwhitespace_total(a + seq![sep] + b) == nonwhitespace_total(a) + nonwhitespace_total(b),
{
    let x = a + seq![sep] + b;
    lemma_words_join(a, sep, b);
    lemma_count_where_concat(words(a), words(b), |w: Seq<char>| has_alphanumeric(w));
    lemma_count_where_concat(words(a), words(b), |w: Seq<char>| word_syllables(w) >= 3);
    lemma_sum_of_concat(words(a), words(b), |w: Seq<char>| word_syllables(w));
    let nw = |c: char| !whitespace_char(c);
    lemma_count_where_concat(a + seq![sep], b, nw);
    lemma_count_where_concat(a, seq![sep], nw);
    assert(seq![sep].drop_last() =~= Seq::<char>::empty());
    assert(count_where(Seq::<char>::empty(), nw) == 0);
    assert(count_where(seq![sep], nw) == 0);
    assert(nonwhitespace_total(a) == count_where(a, nw));
    assert(nonwhitespace_total(b) == count_where(b, nw));
    assert(nonwhitespace_total(x) == count_where(x, nw));
}

// ---------------------------------------------------------------------------
// Blank and empty text
// ---------------------------------------------------------------------------

/// Blank text (nothing but whitespace) has no words, syllables, polysyllabic
/// words, non-whitespace characters or sentences; empty text has no letters
/// either.
pub proof fn lemma_blank_text_counts_nothing(s: Seq<char>)
    requires
        all_whitespace(s),
    ensures
        word_total(s) == 0,
        syllable_total(s) == 0,
        polysyllabic_total(s) == 0,
        nonwhitespace_total(s) == 0,
        sentence_total(s) == 0,
        s.len() == 0 ==> alphabetic_total(s) == 0,
{
    lemma_blank_has_no_words(s);
}

/// Blank text has no tokens and no non-whitespace characters.
proof fn lemma_blank_has_no_words(s: Seq<char>)
    requires
        all_whitespace(s),
    ensures
        words(s).len() == 0,
        nonwhitespace_total(s) == 0,
    decreases s.len(),
{
    if s.len() > 0 {
        let t = s.drop_last();
        assert forall|i: int| 0 <= i < t.len() implies #[trigger] whitespace_char(t[i]) by {
            assert(t[i] == s[i]);
        }
        lemma_blank_has_no_words(t);
        assert(whitespace_char(s[s.len() - 1]));
    }
}

// ---------------------------------------------------------------------------
// Sentences
// ---------------------------------------------------------------------------

/// A text has no sentences exactly when it is blank; any other text has at
/// least one.
pub proof fn lemma_no_sentences_iff_blank(s: Seq<char>)
    ensures
        sentence_total(s) == 0 <==> all_whitespace(s),
        !all_whitespace(s) ==> sentence_total(s) >= 1,
{
}

/// Text that is not blank and holds no `.`, `!` or `?` counts as one sentence.
pub proof fn lemma_unterminated_text_is_one_sentence(s: Seq<char>)
    requires
        !all_whitespace(s),
        forall|i: int| 0 <= i < s.len() ==> #[trigger] s[i] != '.' && s[i] != '!' && s[i] != '?',
    ensures
        sentence_total(s) == 1,
{
    lemma_no_end_no_runs(s, s.len() as int);
}

/// Without sentence ends there are no runs of them.
proof fn lemma_no_end_no_runs(s: Seq<char>, n: int)
    requires
        n <= s.len(),
        forall|i: int| 0 <= i < s.len() ==> #[trigger] s[i] != '.' && s[i] != '!' && s[i] != '?',
    ensures
        end_runs_before(s, n) == 0,
    decreases n,
{
    if n > 0 {
        lemma_no_end_no_runs(s, n - 1);
        assert(s[n - 1] != '.' && s[n - 1] != '!' && s[n - 1] != '?');
    }
}

/// Runs agree where the sentence ends agree.
proof fn lemma_runs_agree(s: Seq<char>, t: Seq<char>, n: int)
    requires
        n <= s.len(),
        n <= t.len(),
        forall|i: int| 0 <= i < n ==> sentence_end_at(s, i) == sentence_end_at(t, i),
    ensures
        end_runs_before(s, n) == end_runs_before(t, n),
    decreases n,
{
    if n > 0 {
        lemma_runs_agree(s, t, n - 1);
        assert(sentence_end_at(s, n - 1) == sentence_end_at(t, n - 1));
        if n >= 2 {
            assert(sentence_end_at(s, n - 2) == sentence_end_at(t, n - 2));
        }
    }
}

/// A run of `!` and `?` counts once: adding another `!` or `?` right after a
/// text that ends in one leaves the sentence count unchanged.
pub proof fn lemma_terminator_run_counts_once(s: Seq<char>, t: char)
    requires
        s.len() > 0,
        s.last() == '!' || s.last() == '?',
        t == '!' || t == '?',
    ensures
        sentence_total(s.push(t)) == sentence_total(s),
{
    let x = s.push(t);
    let n = s.len() as int;
    assert forall|i: int| 0 <= i < n implies sentence_end_at(s, i) == sentence_end_at(x, i) by {
        assert(x[i] == s[i]);
        if i + 1 < n {
            assert(x[i + 1] == s[i + 1]);
        }
        if i > 0 {
            assert(x[i - 1] == s[i - 1]);
        }
    }
    lemma_runs_agree(s, x, n);
    assert(x[n] == t);
    assert(x[n - 1] == s.last());
    assert(sentence_end_at(x, n - 1));
    assert(!starts_end_run(x, n));
    assert(!whitespace_char(s[n - 1]));
    assert(!whitespace_char(x[n]));
}

// ---------------------------------------------------------------------------
// Character counts, one character at a time
// ---------------------------------------------------------------------------

/// Letters and non-whitespace characters are counted character by character:
/// both counts add over concatenation, a single letter counts one letter, and a
/// single character counts one non-whitespace character unless it is
/// whitespace.
pub proof fn lemma_char_counts_additive(a: Seq<char>, b: Seq<char>, c: char)
    ensures
        alphabetic_total(a + b) == alphabetic_total(a) + alphabetic_total(b),
        nonwhitespace_total(a + b) == nonwhitespace_total(a) + nonwhitespace_total(b),
        alphabetic_total(seq![c]) == if alphabetic_char(c) {
            1nat
        } else {
            0nat
        },
        nonwhitespace_total(seq![c]) == if whitespace_char(c) {
            0nat
        } else {
            1nat
        },
{
    let al = |x: char| alphabetic_char(x);
    let nw = |x: char| !whitespace_char(x);
    lemma_count_where_concat(a, b, al);
    lemma_count_where_concat(a, b, nw);
    assert(seq![c].drop_last() =~= Seq::<char>::empty());
    assert(count_where(Seq::<char>::empty(), al) == 0);
    assert(count_where(Seq::<char>::empty(), nw) == 0);
    assert(alphabetic_total(a) == count_where(a, al));
    assert(alphabetic_total(b) == count_where(b, al));
    assert(alphabetic_total(a + b) == count_where(a + b, al));
    assert(alphabetic_total(seq![c]) == count_where(seq![c], al));
    assert(nonwhitespace_total(a) == count_where(a, nw));
    assert(nonwhitespace_total(b) == count_where(b, nw));
    assert(nonwhitespace_total(a + b) == count_where(a + b, nw));
    assert(nonwhitespace_total(seq![c]) == count_where(seq![c], nw));
}

/// The whitespace characters are exactly the Unicode White_Space code points
/// U+0009 to U+000D, U+0020, U+0085, U+00A0, U+1680, U+2000 to U+200A, U+2028,
/// U+2029, U+202F, U+205F and U+3000: each of them counts as no character and
/// separates words, so the counts of the two sides add; every other character
/// counts as one non-whitespace character.
pub proof fn lemma_white_space_code_points(a: Seq<char>, c: char, b: Seq<char>)
    ensures
        nonwhitespace_total(seq![c]) == if ('\u{9}' <= c && c <= '\u{d}') || c == '\u{20}'
            || c == '\u{85}' || c == '\u{a0}' || c == '\u{1680}' || ('\u{2000}' <= c && c
            <= '\u{200a}') || c == '\u{2028}' || c == '\u{2029}' || c == '\u{202f}' || c
            == '\u{205f}' || c == '\u{3000}' {
            0nat
        } else {
            1nat
        },
        ('\u{9}' <= c && c <= '\u{d}') || c == '\u{20}' || c == '\u{85}' || c == '\u{a0}' || c
            == '\u{1680}' || ('\u{2000}' <= c && c <= '\u{200a}') || c == '\u{2028}' || c
            == '\u{2029}' || c == '\u{202f}' || c == '\u{205f}' || c == '\u{3000}' ==> {
            &&& words(a + seq![c] + b) == words(a) + words(b)
            &&& word_total(a + seq![c] + b) == word_total(a) + word_total(b)
            &&& syllable_total(a + seq![c] + b) == syllable_total(a) + syllable_total(b)
            &&& nonwhitespace_total(a + seq![c] + b) == nonwhitespace_total(a)
                + nonwhitespace_total(b)
        },
{
    lemma_char_counts_additive(a, b, c);
    if whitespace_char(c) {
        lemma_words_join(a, c, b);
        lemma_counts_add_across_whitespace(a, c, b);
    }
}

// ---------------------------------------------------------------------------
// Single tokens
// ---------------------------------------------------------------------------

/// A non-empty text without whitespace is a single token.
proof fn lemma_single_token(w: Seq<char>)
    requires
        w.len() > 0,
        forall|i: int| 0 <= i < w.len() ==> !#[trigger] whitespace_char(w[i]),
    ensures
        words(w) == seq![w],
    decreases w.len(),
{
    let t = w.drop_last();
    assert(!whitespace_char(w[w.len() - 1]));
    if w.len() == 1 {
        assert(t =~= Seq::<char>::empty());
        assert(words(t) =~= Seq::<Seq<char>>::empty());
        assert(words(t).push(seq![w.last()]) =~= seq![seq![w.last()]]);
        assert(seq![w.last()] =~= w);
        assert(words(w) =~= seq![w]);
    } else {
        assert forall|i: int| 0 <= i < t.len() implies !#[trigger] whitespace_char(t[i]) by {
            assert(t[i] == w[i]);
        }
        lemma_single_token(t);
        assert(!whitespace_char(w[w.len() - 2]));
        assert(t.push(w.last()) =~= w);
        assert(seq![t].update(0, w) =~= seq![w]);
    }
}

/// A single token is one word exactly when some character of it is
/// alphanumeric (a letter or a numeric character), whatever its other
/// characters are; it then has at least one syllable, and otherwise none.
pub proof fn lemma_token_is_word_iff_alphanumeric(w: Seq<char>)
    requires
        w.len() > 0,
        forall|i: int| 0 <= i < w.len() ==> !#[trigger] whitespace_char(w[i]),
    ensures
        words(w) == seq![w],
        word_total(w) == if exists|i: int|
            #![trigger w[i]]
            0 <= i < w.len() && (alphabetic_char(w[i]) || numeric_char(w[i])) {
            1nat
        } else {
            0nat
        },
        (exists|i: int| #![trigger w[i]] 0 <= i < w.len() && (alphabetic_char(w[i]) || numeric_char(w[i])))
            ==> syllable_total(w) >= 1,
        !(exists|i: int| #![trigger w[i]] 0 <= i < w.len() && (alphabetic_char(w[i]) || numeric_char(w[i])))
            ==> syllable_total(w) == 0,
{
    lemma_single_token(w);
    let ws = seq![w];
    assert(ws.drop_last() =~= Seq::<Seq<char>>::empty());
    let p = |x: Seq<char>| has_alphanumeric(x);
    let f = |x: Seq<char>| word_syllables(x);
    assert(count_where(Seq::<Seq<char>>::empty(), p) == 0);
    assert(sum_of(Seq::<Seq<char>>::empty(), f) == 0);
    assert(word_total(w) == count_where(ws, p));
    assert(syllable_total(w) == sum_of(ws, f));
    lemma_word_syllables_bounds(w);
    if exists|i: int| #![trigger w[i]] 0 <= i < w.len() && (alphabetic_char(w[i]) || numeric_char(w[i])) {
        let i = choose|i: int| #![trigger w[i]] 0 <= i < w.len() && (alphabetic_char(w[i]) || numeric_char(w[i]));
        assert(alphanumeric_char(w[i]));
    }
}

// ---------------------------------------------------------------------------
// Lowered letters and vowel groups
// ---------------------------------------------------------------------------

/// Lowering is done letter by letter: it distributes over concatenation, a
/// letter becomes its lowercase mapping, and any other character is dropped.
pub proof fn lemma_lowered_letters_concat(a: Seq<char>, b: Seq<char>, c: char)
    ensures
        lowered_letters(a + b) == lowered_letters(a) + lowered_letters(b),
        lowered_letters(seq![c]) == if alphabetic_char(c) {
            lowercase_chars(c)
        } else {
            Seq::<char>::empty()
        },
    decreases b.len(),
{
    assert(seq![c].drop_last() =~= Seq::<char>::empty());
    assert(lowered_letters(seq![c].drop_last()) =~= Seq::<char>::empty());
    assert(lowered_letters(seq![c]) =~= Seq::<char>::empty() + if alphabetic_char(c) {
        lowercase_chars(c)
    } else {
        Seq::<char>::empty()
    });
    if b.len() == 0 {
        assert(a + b =~= a);
        assert(lowered_letters(a) + lowered_letters(b) =~= lowered_letters(a));
    } else {
        lemma_lowered_letters_concat(a, b.drop_last(), c);
        assert((a + b).drop_last() =~= a + b.drop_last());
        assert((a + b).last() == b.last());
        let tail = if alphabetic_char(b.last()) {
            lowercase_chars(b.last())
        } else {
            Seq::<char>::empty()
        };
        assert(lowered_letters(a) + lowered_letters(b.drop_last()) + tail =~= lowered_letters(a)
            + (lowered_letters(b.drop_last()) + tail));
    }
}

/// Vowel groups are maximal runs of vowels: a single vowel is one group, any
/// other single character none, and the groups of two joined pieces add up,
/// less one where a vowel ends the first piece and another starts the second.
pub proof fn lemma_vowel_groups_concat(a: Seq<char>, b: Seq<char>, c: char)
    ensures
        vowel_groups(a + b) + (if a.len() > 0 && b.len() > 0 && vowel(a.last()) && vowel(b[0]) {
            1nat
        } else {
            0nat
        }) == vowel_groups(a) + vowel_groups(b),
        vowel_groups(seq![c]) == if vowel(c) {
            1nat
        } else {
            0nat
        },
    decreases b.len(),
{
    assert(seq![c].drop_last() =~= Seq::<char>::empty());
    assert(vowel_groups(seq![c].drop_last()) == 0);
    assert(seq![c][0] == c);
    if b.len() == 0 {
        assert(a + b =~= a);
    } else {
        let b1 = b.drop_last();
        lemma_vowel_groups_concat(a, b1, c);
        let ab = a + b;
        assert(ab.drop_last() =~= a + b1);
        assert(ab[ab.len() - 1] == b[b.len() - 1]);
        if b.len() >= 2 {
            assert(ab[ab.len() - 2] == b[b.len() - 2]);
            assert(b1[0] == b[0]);
            assert(b1.last() == b[b.len() - 2]);
        } else {
            assert(b1 =~= Seq::<char>::empty());
            assert(a + b1 =~= a);
            if a.len() > 0 {
                assert(ab[ab.len() - 2] == a.last());
            }
        }
    }
}

/// A text ending in a vowel has at least one vowel group.
proof fn lemma_final_vowel_has_group(l: Seq<char>)
    requires
        l.len() > 0,
        vowel(l.last()),
    ensures
        vowel_groups(l) >= 1,
    decreases l.len(),
{
    if l.len() >= 2 && vowel(l[l.len() - 2]) {
        let t = l.drop_last();
        assert(t.last() == l[l.len() - 2]);
        lemma_final_vowel_has_group(t);
    }
}

/// The silent-`e` rule. For a word with letters, lowered to `l`: a final `e`
/// is silent, taking one syllable off a word of two or more vowel groups,
/// unless `l` ends in "le" after a consonant, where every group counts; a word
/// whose letters do not end in `e`, or that has at most one vowel group, has
/// one syllable per vowel group and at least one.
pub proof fn lemma_silent_e_rule(w: Seq<char>)
    requires
        lowered_letters(w).len() > 0,
    ensures
        ({
            let l = lowered_letters(w);
            let n = l.len() as int;
            l[n - 1] == 'e' && !(n >= 3 && l[n - 2] == 'l' && !vowel(l[n - 3])) && vowel_groups(l)
                >= 2 ==> word_syllables(w) + 1 == vowel_groups(l)
        }),
        ({
            let l = lowered_letters(w);
            let n = l.len() as int;
            n >= 3 && l[n - 1] == 'e' && l[n - 2] == 'l' && !vowel(l[n - 3]) ==> word_syllables(w)
                == vowel_groups(l)
        }),
        ({
            let l = lowered_letters(w);
            l[l.len() - 1] != 'e' ==> word_syllables(w) == if vowel_groups(l) >= 1 {
                vowel_groups(l)
            } else {
                1
            }
        }),
        vowel_groups(lowered_letters(w)) <= 1 ==> word_syllables(w) == 1,
{
    let l = lowered_letters(w);
    if l[l.len() - 1] == 'e' {
        assert(vowel(l.last()));
        lemma_final_vowel_has_group(l);
    }
}

/// The vowels of the syllable heuristic are exactly `a e i o u y` and the
/// lowercase accented forms of them in Latin-1 (U+00E0 to U+00E5, U+00E8 to
/// U+00EF, U+00F2 to U+00F6, U+00F9 to U+00FD and U+00FF): each of them alone is
/// one vowel group, and any other character alone is none.
pub proof fn lemma_vowel_set(c: char)
    ensures
        vowel_groups(seq![c]) == if c == 'a' || c == 'e' || c == 'i' || c == 'o' || c == 'u' || c
            == 'y' || c == '\u{e1}' || c == '\u{e0}' || c == '\u{e2}' || c == '\u{e4}' || c
            == '\u{e3}' || c == '\u{e5}' || c == '\u{e9}' || c == '\u{e8}' || c == '\u{ea}' || c
            == '\u{eb}' || c == '\u{ed}' || c == '\u{ec}' || c == '\u{ee}' || c == '\u{ef}' || c
            == '\u{f3}' || c == '\u{f2}' || c == '\u{f4}' || c == '\u{f6}' || c == '\u{f5}' || c
            == '\u{fa}' || c == '\u{f9}' || c == '\u{fb}' || c == '\u{fc}' || c == '\u{fd}' || c
            == '\u{ff}' {
            1nat
        } else {
            0nat
        },
{
    lemma_vowel_groups_concat(Seq::<char>::empty(), Seq::<char>::empty(), c);
}

// ---------------------------------------------------------------------------
// Sentence ends
// ---------------------------------------------------------------------------

/// Which characters end a sentence. `!` and `?` always do. A `.` does when it
/// is the last character of the text, or when the next character is not a
/// letter or digit, whatever precedes it (a digit included). A `.` between two
/// ASCII digits does not. No other character does.
pub proof fn lemma_sentence_end_rules(s: Seq<char>, i: int)
    requires
        0 <= i < s.len(),
    ensures
        s[i] == '!' || s[i] == '?' ==> sentence_end_at(s, i),
        s[i] == '.' && i + 1 == s.len() ==> sentence_end_at(s, i),
        s[i] == '.' && i + 1 < s.len() && !alphabetic_char(s[i + 1]) && !numeric_char(s[i + 1])
            && !('0' <= s[i + 1] && s[i + 1] <= '9') ==> sentence_end_at(s, i),
        s[i] == '.' && 0 < i && i + 1 < s.len() && '0' <= s[i - 1] && s[i - 1] <= '9' && '0'
            <= s[i + 1] && s[i + 1] <= '9' ==> !sentence_end_at(s, i),
        s[i] != '.' && s[i] != '!' && s[i] != '?' ==> !sentence_end_at(s, i),
{
}

/// A sentence end at `i` means at least one run of sentence ends has started
/// before any later position.
proof fn lemma_end_gives_run(s: Seq<char>, i: int, n: int)
    requires
        0 <= i < n <= s.len(),
        sentence_end_at(s, i),
    ensures
        end_runs_before(s, n) >= 1,
    decreases n,
{
    if n - 1 > i {
        lemma_end_gives_run(s, i, n - 1);
    } else if !starts_end_run(s, i) {
        lemma_end_gives_run(s, i - 1, i);
    }
}

/// Closing a text with a `.` (after a character that is not `.`, `!` or `?`)
/// closes one more sentence: a text that already holds a `!` or `?` gains one,
/// and any other text that is not blank stays at one.
pub proof fn lemma_final_dot_closes_a_sentence(s: Seq<char>)
    requires
        s.len() > 0,
        s.last() != '.' && s.last() != '!' && s.last() != '?',
    ensures
        (exists|i: int| 0 <= i < s.len() && (#[trigger] s[i] == '!' || s[i] == '?'))
            ==> sentence_total(s.push('.')) == sentence_total(s) + 1,
        !all_whitespace(s) && (forall|i: int|
            0 <= i < s.len() ==> #[trigger] s[i] != '.' && s[i] != '!' && s[i] != '?')
            ==> sentence_total(s.push('.')) == 1,
{
    let x = s.push('.');
    let n = s.len() as int;
    assert forall|i: int| 0 <= i < n implies sentence_end_at(s, i) == sentence_end_at(x, i) by {
        assert(x[i] == s[i]);
        if i + 1 < n {
            assert(x[i + 1] == s[i + 1]);
        }
        if i > 0 {
            assert(x[i - 1] == s[i - 1]);
        }
    }
    lemma_runs_agree(s, x, n);
    assert(x[n] == '.');
    assert(x[n - 1] == s.last());
    assert(!sentence_end_at(s, n - 1));
    assert(sentence_end_at(x, n));
    assert(starts_end_run(x, n));
    assert(!all_whitespace(x)) by {
        assert(!whitespace_char(x[n]));
    }
    if exists|i: int| 0 <= i < s.len() && (#[trigger] s[i] == '!' || s[i] == '?') {
        let i = choose|i: int| 0 <= i < s.len() && (#[trigger] s[i] == '!' || s[i] == '?');
        assert(sentence_end_at(s, i));
        lemma_end_gives_run(s, i, n);
        assert(!all_whitespace(s)) by {
            assert(!whitespace_char(s[i]));
        }
    }
    if forall|i: int| 0 <= i < s.len() ==> #[trigger] s[i] != '.' && s[i] != '!' && s[i] != '?' {
        lemma_no_end_no_runs(s, n);
    }
}

} // verus!

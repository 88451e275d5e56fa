//! End-to-end behaviour of the public counting API.

use textstat::{
    char_count, checked_syllable_count, letter_count, lexicon_count, polysyllabic_count,
    sentence_count, syllable_count, syllables,
};

// All-monosyllabic text: 10 words, 2 sentences, 10 syllables, 32 non-space
// chars, 30 letters.
const T: &str = "The cat sat on the mat. The dog ran fast.";

#[test]
fn counts_words_sentences() {
    assert_eq!(lexicon_count(T), 10);
    assert_eq!(sentence_count(T), 2);
    assert_eq!(sentence_count("One. Two! Three?"), 3);
    assert_eq!(sentence_count("no terminator here"), 1);
}

#[test]
fn counts_chars_and_letters() {
    assert_eq!(char_count(T), 32); // non-whitespace, includes the two periods
    assert_eq!(letter_count(T), 30); // alphabetic only
}

#[test]
fn counts_syllables() {
    assert_eq!(syllables("cat"), 1);
    assert_eq!(syllables("hello"), 2);
    assert_eq!(syllables("table"), 2);
    assert_eq!(syllables("make"), 1);
    assert_eq!(syllables("readability"), 5);
    assert_eq!(syllables("the"), 1);
    assert_eq!(syllable_count(T), 10);
}

#[test]
fn counts_polysyllabic() {
    assert_eq!(polysyllabic_count("cat dog the"), 0);
    assert_eq!(polysyllabic_count("beautiful"), 1);
    assert_eq!(polysyllabic_count(T), 0);
}

#[test]
fn sentence_count_ignores_decimals() {
    assert_eq!(sentence_count("The value is 3.14 today."), 1);
    assert_eq!(sentence_count("Pi is 3.14159 and e is 2.718."), 1);
    assert_eq!(sentence_count("Values: 1.5 2.5 3.5 4.5."), 1);
}

#[test]
fn sentence_count_reduces_initialism_overcount() {
    assert_eq!(sentence_count("I live in the U.S.A. now."), 2);
    assert_eq!(sentence_count("Wait... what happened?"), 2);
}

#[test]
fn syllables_count_accented_and_nonascii() {
    assert_eq!(syllables("café"), 2); // accented vowel is counted
    assert!(syllables("Москва") >= 1); // non-Latin word gets the >=1 floor
    assert_eq!(syllable_count("100 200 300"), 3); // numeric tokens are >=1 each
}

// ---------------------------------------------------------------------------
// Further cases
// ---------------------------------------------------------------------------

#[test]
fn empty_text_counts_are_zero() {
    assert_eq!(lexicon_count(""), 0);
    assert_eq!(sentence_count(""), 0);
    assert_eq!(syllable_count(""), 0);
    assert_eq!(polysyllabic_count(""), 0);
    assert_eq!(char_count(""), 0);
    assert_eq!(letter_count(""), 0);
    assert_eq!(checked_syllable_count(""), Some(0));
}

#[test]
fn blank_text_counts_nothing() {
    let blank = "  \t\n \u{A0} ";
    assert_eq!(lexicon_count(blank), 0);
    assert_eq!(sentence_count(blank), 0);
    assert_eq!(syllable_count(blank), 0);
    assert_eq!(polysyllabic_count(blank), 0);
    assert_eq!(char_count(blank), 0);
}

#[test]
fn hard_text_has_polysyllables() {
    let hard = "Extraordinary circumstances necessitate immediate, comprehensive reconsideration.";
    assert!(polysyllabic_count(hard) >= 4);
    assert_eq!(lexicon_count(hard), 6);
    assert_eq!(sentence_count(hard), 1);
}

#[test]
fn punctuation_tokens_are_not_words() {
    assert_eq!(lexicon_count("Hello , world - !"), 2);
    assert_eq!(char_count("Hello , world - !"), 13);
    assert_eq!(syllables("--"), 0);
    assert_eq!(syllables("?!"), 0);
}

#[test]
fn sentence_runs_collapse() {
    assert_eq!(sentence_count("Really?!"), 1);
    assert_eq!(sentence_count("Really?!?!"), 1);
    assert_eq!(sentence_count("What?! No. Yes!"), 3);
    assert_eq!(sentence_count("!"), 1);
    assert_eq!(sentence_count("."), 1);
}

#[test]
fn sentence_dot_rules() {
    // A dot at the very start or end, and one between a digit and a letter.
    assert_eq!(sentence_count(".5 is half"), 1);
    assert_eq!(sentence_count("Version 2.x ships"), 1);
    assert_eq!(sentence_count("Dr. Smith arrived."), 2);
    assert_eq!(sentence_count("Ends with 3."), 1);
}

#[test]
fn silent_e_rules() {
    assert_eq!(syllables("cake"), 1); // silent e
    assert_eq!(syllables("be"), 1); // a single group keeps its e
    assert_eq!(syllables("little"), 2); // "le" after a consonant is sounded
    assert_eq!(syllables("whale"), 1); // "le" after a vowel... 'a' then 'le' is silent
    assert_eq!(syllables("queue"), 1);
}

#[test]
fn syllables_lowercase_letters_first() {
    // Upper-case vowels only count once they are lowered.
    assert_eq!(syllables("TABLE"), 2);
    assert_eq!(syllables("HELLO"), 2);
    assert_eq!(syllables("CAFÉ"), 2);
}

#[test]
fn syllables_of_mixed_tokens() {
    assert_eq!(syllables("don't"), 1);
    assert_eq!(syllables("R2D2"), 1);
    assert_eq!(syllables("42"), 1);
    assert_eq!(syllables(""), 0);
}

#[test]
fn syllables_at_least_words() {
    let texts = [T, "Это короткий текст. Он простой.", "a 1 ! ?? xyz", "rhythm myth"];
    for t in texts {
        assert!(syllable_count(t) >= lexicon_count(t));
        assert!(polysyllabic_count(t) <= lexicon_count(t));
        assert!(lexicon_count(t) <= char_count(t));
    }
}

#[test]
fn counts_add_across_whitespace() {
    let a = "The cat sat.";
    let b = "Wonderful evening, isn't it?";
    let joined = format!("{} {}", a, b);
    assert_eq!(lexicon_count(&joined), lexicon_count(a) + lexicon_count(b));
    assert_eq!(syllable_count(&joined), syllable_count(a) + syllable_count(b));
    assert_eq!(polysyllabic_count(&joined), polysyllabic_count(a) + polysyllabic_count(b));
    assert_eq!(char_count(&joined), char_count(a) + char_count(b));
}

#[test]
fn terminator_run_counts_once() {
    assert_eq!(sentence_count("Stop!"), sentence_count("Stop!!"));
    assert_eq!(sentence_count("Why? Now?"), sentence_count("Why? Now?!"));
}

#[test]
fn checked_syllable_count_matches() {
    assert_eq!(checked_syllable_count(T), Some(10));
    assert_eq!(checked_syllable_count("beautiful readability"), Some(8));
}

#[test]
fn letters_of_other_scripts() {
    assert_eq!(letter_count("Москва 2024"), 6);
    assert_eq!(char_count("Москва 2024"), 10);
    assert_eq!(lexicon_count("Москва 2024"), 2);
}

#[test]
fn unicode_whitespace_separates_words() {
    assert_eq!(lexicon_count("one\u{2003}two\u{3000}three\u{85}four"), 4);
    assert_eq!(lexicon_count("one\u{200B}two"), 1); // zero-width space is not White_Space
    assert_eq!(char_count("a\u{A0}b\u{1680}c\u{2029}"), 3);
}

#[test]
fn letters_never_exceed_nonwhitespace() {
    for t in [T, "Это короткий текст.", "  x  ", "42!", ""] {
        assert!(letter_count(t) <= char_count(t));
    }
}

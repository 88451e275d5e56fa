//! Readability counts for English text: words, sentences, syllables and
//! characters, the quantities the classic readability formulas are built on.

pub mod chars;
pub mod laws;
pub mod count;
pub mod model;

pub use count::{
    char_count, checked_syllable_count, letter_count, lexicon_count, polysyllabic_count,
    sentence_count, syllable_count, syllables,
};

# textstat

Readability counts for English text — words, sentences, syllables,
non-whitespace characters and letters — verified with Verus, and the classic
readability scores built on them.

- `src/model.rs` states what each count is, over the text as a sequence of
  characters.
- `src/count.rs` computes the counts; each function's contract equates its
  result with the model.
- `src/chars.rs` holds the character classes: White_Space, the ASCII digits
  and the vowels written out and proved; the Alphabetic and Numeric
  properties and the lowercase mapping reached through std's `char` methods.
- `src/laws.rs` proves properties that hold for every text (token structure,
  syllable bounds, additivity across whitespace, sentence-run collapsing).
- `app/lib.rs` holds the floating-point scores (Flesch, Flesch-Kincaid, Fog,
  SMOG, ARI, Coleman-Liau, reading time), which are formulas over the counts.

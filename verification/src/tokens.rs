//! Splitting a text into whitespace-separated tokens, and lower-casing them.
//!
//! Which characters are whitespace and what the lower-case form of a text is are
//! questions for the standard library: the module opens with what is taken for
//! granted of `char::is_whitespace`, `str::to_lowercase` and `String::push`.
//! Everything behind that is proved.

use vstd::prelude::*;
use vstd::std_specs::iter::IteratorSpec;

verus! {

/// Whether `char::is_whitespace` holds of a character: whether it has the
/// Unicode property `White_Space`.
pub uninterp spec fn is_white_space(c: char) -> bool;

/// The lower-case form that `str::to_lowercase` gives a text.
pub uninterp spec fn lowercase_of(text: Seq<char>) -> Seq<char>;

/// `char::is_whitespace` tells whether the character has the property
/// `White_Space`.
pub assume_specification[ char::is_whitespace ](c: char) -> (white: bool)
    ensures
        white == is_white_space(c),
;

/// `str::to_lowercase` returns the lower-case form of the text as a new `String`.
pub assume_specification[ str::to_lowercase ](text: &str) -> (lower: String)
    ensures
        lower@ == lowercase_of(text@),
;

/// `String::push` appends one character.
pub assume_specification[ String::push ](text: &mut String, ch: char)
    ensures
        final(text)@ == old(text)@.push(ch),
;

/// Whether no character of `s` is whitespace.
pub open spec fn no_whitespace(s: Seq<char>) -> bool {
    forall|i: int| 0 <= i < s.len() ==> !is_white_space(#[trigger] s[i])
}

/// The length of the longest prefix of `s` that holds no whitespace.
pub open spec fn word_len(s: Seq<char>) -> nat
    decreases s.len(),
{
    if s.len() == 0 || is_white_space(s[0]) {
        0
    } else {
        1 + word_len(s.drop_first())
    }
}

/// The tokens of a text: its maximal runs of characters that are not whitespace,
/// in the order in which they stand in the text.
pub open spec fn whitespace_tokens(s: Seq<char>) -> Seq<Seq<char>>
    decreases s.len(),
    via whitespace_tokens_decreases
{
    if s.len() == 0 {
        Seq::empty()
    } else if is_white_space(s[0]) {
        whitespace_tokens(s.drop_first())
    } else {
        seq![s.take(word_len(s) as int)] + whitespace_tokens(s.skip(word_len(s) as int))
    }
}

#[via_fn]
proof fn whitespace_tokens_decreases(s: Seq<char>) {
    lemma_word_len_bounds(s);
}

/// A word is no longer than the text it starts, and not empty where the text
/// starts with a character that is not whitespace.
pub proof fn lemma_word_len_bounds(s: Seq<char>)
    ensures
        word_len(s) <= s.len(),
        s.len() > 0 && !is_white_space(s[0]) ==> word_len(s) >= 1,
        no_whitespace(s.take(word_len(s) as int)),
        word_len(s) < s.len() ==> is_white_space(s[word_len(s) as int]),
    decreases s.len(),
{
    if s.len() == 0 || is_white_space(s[0]) {
    } else {
        let rest = s.drop_first();
        lemma_word_len_bounds(rest);
        let n = word_len(s) as int;
        assert forall|i: int| 0 <= i < n implies !is_white_space(#[trigger] s.take(n)[i]) by {
            if i > 0 {
                assert(s.take(n)[i] == rest.take(n - 1)[i - 1]);
            }
        }
    }
}

/// A word in front of whitespace, or in front of the end of the text, is the
/// first token.
pub proof fn lemma_leading_word(word: Seq<char>, rest: Seq<char>)
    requires
        word.len() > 0,
        no_whitespace(word),
        rest.len() == 0 || is_white_space(rest[0]),
    ensures
        word_len(word + rest) == word.len(),
        whitespace_tokens(word + rest) == seq![word] + whitespace_tokens(rest),
    decreases word.len(),
{
    let s = word + rest;
    if word.len() > 1 {
        let shorter = word.drop_first();
        assert(s.drop_first() == shorter + rest);
        lemma_leading_word(shorter, rest);
    }
    assert(word_len(s) == 1 + word_len(s.drop_first()));
    assert(s.take(word.len() as int) == word);
    assert(s.skip(word.len() as int) == rest);
}

/// A word ends at the first whitespace: what stands behind that does not change
/// its length.
pub proof fn lemma_word_len_stops(s: Seq<char>, tail: Seq<char>)
    requires
        tail.len() > 0 && is_white_space(tail[0]),
    ensures
        word_len(s + tail) == word_len(s),
    decreases s.len(),
{
    if s.len() > 0 && !is_white_space(s[0]) {
        assert((s + tail).drop_first() == s.drop_first() + tail);
        lemma_word_len_stops(s.drop_first(), tail);
    }
}

/// A text without whitespace that is not empty is its own single token.
pub proof fn lemma_single_word(word: Seq<char>)
    requires
        word.len() > 0,
        no_whitespace(word),
    ensures
        whitespace_tokens(word) == seq![word],
{
    lemma_leading_word(word, Seq::empty());
}

/// Every token is a word: it is not empty and holds no whitespace.
pub proof fn lemma_tokens_are_words(s: Seq<char>)
    ensures
        forall|i: int|
            0 <= i < whitespace_tokens(s).len() ==> {
                &&& (#[trigger] whitespace_tokens(s)[i]).len() > 0
                &&& no_whitespace(whitespace_tokens(s)[i])
            },
    decreases s.len(),
{
    if s.len() == 0 {
    } else if is_white_space(s[0]) {
        lemma_tokens_are_words(s.drop_first());
        assert(whitespace_tokens(s) == whitespace_tokens(s.drop_first()));
    } else {
        lemma_word_len_bounds(s);
        let n = word_len(s) as int;
        let later = whitespace_tokens(s.skip(n));
        lemma_tokens_are_words(s.skip(n));
        assert forall|i: int| 0 <= i < whitespace_tokens(s).len() implies {
            &&& (#[trigger] whitespace_tokens(s)[i]).len() > 0
            &&& no_whitespace(whitespace_tokens(s)[i])
        } by {
            if i > 0 {
                assert(whitespace_tokens(s)[i] == later[i - 1]);
            }
        }
    }
}

/// Whitespace parts a text: the tokens of two texts joined by one whitespace
/// character are the tokens of the first followed by the tokens of the second.
pub proof fn lemma_split_at_whitespace(before: Seq<char>, white: char, after: Seq<char>)
    requires
        is_white_space(white),
    ensures
        whitespace_tokens(before + seq![white] + after) == whitespace_tokens(before)
            + whitespace_tokens(after),
    decreases before.len(),
{
    let tail = seq![white] + after;
    let whole = before + seq![white] + after;
    assert(whole == before + tail);
    if before.len() == 0 {
        assert(whole.drop_first() == after);
    } else if is_white_space(before[0]) {
        assert(whole.drop_first() == before.drop_first() + seq![white] + after);
        lemma_split_at_whitespace(before.drop_first(), white, after);
    } else {
        let n = word_len(before) as int;
        lemma_word_len_bounds(before);
        lemma_word_len_stops(before, tail);
        assert(whole.take(n) == before.take(n));
        assert(whole.skip(n) == before.skip(n) + seq![white] + after);
        lemma_split_at_whitespace(before.skip(n), white, after);
    }
}

/// Splits a text into its tokens.
pub fn split_whitespace(text: &str) -> (tokens: Vec<String>)
    ensures
        tokens.deep_view() == whitespace_tokens(text@),
{
    let mut tokens: Vec<String> = Vec::new();
    let mut current = String::new();
    assert(current@ + text@.skip(0) == text@);
    for c in it: text.chars()
        invariant
            it.seq() == text@,
            no_whitespace(current@),
            whitespace_tokens(text@) == tokens.deep_view() + whitespace_tokens(
                current@ + text@.skip(it.index() as int),
            ),
    {
        let ghost rest = text@.skip(it.index() as int);
        let ghost after = text@.skip(it.index() + 1);
        assert(rest[0] == c && rest.drop_first() == after);
        if c.is_whitespace() {
            if !current.as_str().is_empty() {
                proof {
                    lemma_leading_word(current@, rest);
                }
                tokens.push(current);
                current = String::new();
            }
        } else {
            let ghost before = current@;
            current.push(c);
            assert(current@ + after == before + rest);
        }
    }
    if !current.as_str().is_empty() {
        proof {
            lemma_leading_word(current@, Seq::empty());
        }
        tokens.push(current);
    }
    tokens
}

} // verus!

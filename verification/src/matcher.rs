//! Matching a text, token by token, against a compiled expression.

use crate::engine::{
    capture_groups, compile_complaint, error_text, regex_captures, regex_error_text, regex_text,
};
use crate::pattern::{fragment_texts, generate_offensive_regex, offensive_pattern};
use crate::report::{present_captures, report_match, reported, MatchReport, MatchReportView};
use crate::tokens::{
    is_white_space, lemma_split_at_whitespace, lowercase_of, split_whitespace, whitespace_tokens,
};
use regex::Regex;
use vstd::prelude::*;

verus! {

/// The expression text could not be compiled.
#[derive(Debug, PartialEq, Eq)]
pub struct ConstructionFailure {
    /// The text that was handed to the engine.
    pub pattern: String,
    /// What the engine said of it.
    pub reason: String,
}

/// The mathematical value of a [`ConstructionFailure`].
pub ghost struct ConstructionFailureView {
    pub pattern: Seq<char>,
    pub reason: Seq<char>,
}

impl View for ConstructionFailure {
    type V = ConstructionFailureView;

    open spec fn view(&self) -> ConstructionFailureView {
        ConstructionFailureView { pattern: self.pattern@, reason: self.reason@ }
    }
}

/// The mathematical value of a [`Matcher`]: the text of its expression, and what
/// the expression finds in each word.
pub ghost struct MatcherModel {
    pub pattern: Seq<char>,
    pub captures: spec_fn(Seq<char>) -> Option<Seq<Option<Seq<char>>>>,
}

/// The model of a compiled expression.
pub open spec fn model_of(regex: Regex) -> MatcherModel {
    MatcherModel {
        pattern: regex_text(regex),
        captures: |word: Seq<char>| regex_captures(regex, word),
    }
}

/// A compiled expression, built once and then only read.
#[derive(Debug)]
pub struct Matcher {
    regex: Regex,
}

impl View for Matcher {
    type V = MatcherModel;

    closed spec fn view(&self) -> MatcherModel {
        model_of(self.regex)
    }
}

/// The prefix fragments of the built-in configuration: one fragment, which covers
/// the common disguises of the root.
pub open spec fn offensive_prefixes() -> Seq<Seq<char>> {
    seq!["[c|k](ock|0ck|\\*ck|\\*\\*k)"@]
}

/// The suffix fragments of the built-in configuration.
pub open spec fn offensive_suffixes() -> Seq<Seq<char>> {
    seq![
        "face"@,
        "head"@,
        "lover"@,
        "tease"@,
        "blast(er|ing)?"@,
        "block(er|ing)?"@,
        "master"@,
        "munch(er|ing)?"@,
        "suck(er|ing)"@,
    ]
}

/// What compiling the text `pattern` gives: a matcher for that text where the
/// engine accepts it, else the failure with the engine's complaint.
pub open spec fn is_built_from(
    pattern: Seq<char>,
    built: Result<Matcher, ConstructionFailure>,
) -> bool {
    match compile_complaint(pattern) {
        None => built matches Ok(matcher) && matcher@.pattern == pattern,
        Some(reason) => built matches Err(failure) && failure@ == (ConstructionFailureView {
            pattern,
            reason,
        }),
    }
}

impl Matcher {
    /// Wraps what the engine made of `pattern`: the compiled expression, or the
    /// failure with the engine's words.
    pub fn from_outcome(pattern: String, outcome: Result<Regex, regex::Error>) -> (built: Result<
        Matcher,
        ConstructionFailure,
    >)
        ensures
            match outcome {
                Ok(regex) => built matches Ok(matcher) && matcher@ == model_of(regex),
                Err(error) => built matches Err(failure) && failure@ == (ConstructionFailureView {
                    pattern: pattern@,
                    reason: regex_error_text(error),
                }),
            },
    {
        match outcome {
            Ok(regex) => Ok(Matcher { regex }),
            Err(error) => {
                let reason = error_text(&error);
                Err(ConstructionFailure { pattern, reason })
            },
        }
    }

    /// Compiles the expression `pattern`.
    pub fn compile(pattern: String) -> (built: Result<Matcher, ConstructionFailure>)
        ensures
            is_built_from(pattern@, built),
    {
        let outcome = Regex::new(pattern.as_str());
        Matcher::from_outcome(pattern, outcome)
    }

    /// Builds and compiles the expression for the given fragments.
    pub fn new(prefixes: &[&str], suffixes: &[&str]) -> (built: Result<
        Matcher,
        ConstructionFailure,
    >)
        ensures
            is_built_from(
                offensive_pattern(fragment_texts(prefixes@), fragment_texts(suffixes@)),
                built,
            ),
    {
        Matcher::compile(generate_offensive_regex(prefixes, suffixes))
    }

    /// Builds and compiles the expression of the built-in configuration.
    pub fn offensive() -> (built: Result<Matcher, ConstructionFailure>)
        ensures
            is_built_from(offensive_pattern(offensive_prefixes(), offensive_suffixes()), built),
    {
        let prefixes: [&str; 1] = ["[c|k](ock|0ck|\\*ck|\\*\\*k)"];
        let suffixes: [&str; 9] = [
            "face",
            "head",
            "lover",
            "tease",
            "blast(er|ing)?",
            "block(er|ing)?",
            "master",
            "munch(er|ing)?",
            "suck(er|ing)",
        ];
        let prefixes = prefixes.as_slice();
        let suffixes = suffixes.as_slice();
        assert(fragment_texts(prefixes@) == offensive_prefixes());
        assert(fragment_texts(suffixes@) == offensive_suffixes());
        Matcher::new(prefixes, suffixes)
    }

    /// The text of the compiled expression.
    pub fn pattern(&self) -> (text: &str)
        ensures
            text@ == self@.pattern,
    {
        self.regex.as_str()
    }
}

/// The tokens of a text, each in lower case.
pub open spec fn lowered_tokens(text: Seq<char>) -> Seq<Seq<char>> {
    whitespace_tokens(text).map_values(|token: Seq<char>| lowercase_of(token))
}

/// The report for the first of `words` in which the expression finds a match, or
/// `None` where it finds none in any of them.
pub open spec fn first_match(model: MatcherModel, words: Seq<Seq<char>>) -> Option<MatchReportView>
    decreases words.len(),
{
    if words.len() == 0 {
        None
    } else {
        match reported(words[0], (model.captures)(words[0])) {
            Some(report) => Some(report),
            None => first_match(model, words.drop_first()),
        }
    }
}

/// Whether a text is offensive: whether the expression finds a match in the
/// lower-case form of one of its tokens.
pub open spec fn offends(model: MatcherModel, text: Seq<char>) -> bool {
    exists|k: int|
        0 <= k < lowered_tokens(text).len() && (#[trigger] (model.captures)(
            lowered_tokens(text)[k],
        )) is Some
}

/// A report is found exactly where one of the words holds a match.
pub proof fn lemma_first_match_found(model: MatcherModel, words: Seq<Seq<char>>)
    ensures
        first_match(model, words) is Some <==> exists|k: int|
            0 <= k < words.len() && (#[trigger] (model.captures)(words[k])) is Some,
    decreases words.len(),
{
    if words.len() > 0 {
        let rest = words.drop_first();
        lemma_first_match_found(model, rest);
        if (model.captures)(words[0]) is Some {
        } else if first_match(model, rest) is Some {
            let k = choose|k: int|
                0 <= k < rest.len() && (#[trigger] (model.captures)(rest[k])) is Some;
            assert((model.captures)(words[k + 1]) is Some);
        } else {
            assert forall|k: int| 0 <= k < words.len() implies (#[trigger] (model.captures)(
                words[k],
            )) is None by {
                if k > 0 {
                    assert((model.captures)(rest[k - 1]) is None);
                }
            }
        }
    }
}

/// Looks for the first offensive token of a text and reports it with the capture
/// groups that took part in the match.
pub fn find_offensive(matcher: &Matcher, text: &str) -> (found: Option<MatchReport>)
    ensures
        found.deep_view() == first_match(matcher@, lowered_tokens(text@)),
        found matches Some(report) ==> report@.well_formed(),
{
    let tokens = split_whitespace(text);
    let ghost words = lowered_tokens(text@);
    let mut i: usize = 0;
    assert(words.skip(0) == words);
    while i < tokens.len()
        invariant
            i <= tokens.len(),
            tokens.deep_view() == whitespace_tokens(text@),
            words == lowered_tokens(text@),
            first_match(matcher@, words) == first_match(matcher@, words.skip(i as int)),
        decreases tokens.len() - i,
    {
        let word = tokens[i].as_str().to_lowercase();
        assert(words.skip(i as int)[0] == word@);
        assert(words.skip(i as int).drop_first() == words.skip(i + 1));
        let found = capture_groups(&matcher.regex, word.as_str());
        let report = report_match(word, found);
        if report.is_some() {
            return report;
        }
        i = i + 1;
    }
    None
}

/// Tells whether a text is offensive.
pub fn is_offensive(matcher: &Matcher, text: &str) -> (flagged: bool)
    ensures
        flagged == offends(matcher@, text@),
{
    proof {
        lemma_first_match_found(matcher@, lowered_tokens(text@));
    }
    find_offensive(matcher, text).is_some()
}

/// The report is for the earliest word that holds a match: it names that word
/// and the groups found in it, and no word in front of it holds a match.
pub proof fn lemma_first_match_is_earliest(model: MatcherModel, words: Seq<Seq<char>>)
    requires
        first_match(model, words) is Some,
    ensures
        exists|k: int|
            {
                &&& 0 <= k < words.len()
                &&& #[trigger] (model.captures)(words[k]) matches Some(groups)
                &&& first_match(model, words) == Some(
                    MatchReportView { token: words[k], captures: present_captures(groups) },
                )
                &&& forall|j: int| 0 <= j < k ==> (#[trigger] (model.captures)(words[j])) is None
            },
    decreases words.len(),
{
    if (model.captures)(words[0]) is None {
        let rest = words.drop_first();
        lemma_first_match_is_earliest(model, rest);
        let k = choose|k: int|
            {
                &&& 0 <= k < rest.len()
                &&& #[trigger] (model.captures)(rest[k]) matches Some(groups)
                &&& first_match(model, rest) == Some(
                    MatchReportView { token: rest[k], captures: present_captures(groups) },
                )
                &&& forall|j: int| 0 <= j < k ==> (#[trigger] (model.captures)(rest[j])) is None
            };
        assert forall|j: int| 0 <= j < k + 1 implies (#[trigger] (model.captures)(words[j]))
            is None by {
            if j > 0 {
                assert((model.captures)(rest[j - 1]) is None);
            }
        }
        assert((model.captures)(words[k + 1]) == (model.captures)(rest[k]));
    } else {
        assert((model.captures)(words[0]) is Some);
    }
}

/// In a row of words, the report is that of the front part where the front part
/// holds a match, and else that of the back part.
pub proof fn lemma_first_match_of_joined(
    model: MatcherModel,
    front: Seq<Seq<char>>,
    back: Seq<Seq<char>>,
)
    ensures
        first_match(model, front + back) == if first_match(model, front) is Some {
            first_match(model, front)
        } else {
            first_match(model, back)
        },
    decreases front.len(),
{
    if front.len() == 0 {
        assert(front + back == back);
    } else {
        assert((front + back).drop_first() == front.drop_first() + back);
        lemma_first_match_of_joined(model, front.drop_first(), back);
    }
}

/// A text is judged token by token: two texts joined by a whitespace character
/// are offensive exactly where one of the two is, and the report is that of the
/// first text where the first is offensive, else that of the second.
pub proof fn lemma_judged_token_by_token(
    model: MatcherModel,
    before: Seq<char>,
    white: char,
    after: Seq<char>,
)
    requires
        is_white_space(white),
    ensures
        offends(model, before + seq![white] + after) == (offends(model, before) || offends(
            model,
            after,
        )),
        first_match(model, lowered_tokens(before + seq![white] + after)) == if offends(
            model,
            before,
        ) {
            first_match(model, lowered_tokens(before))
        } else {
            first_match(model, lowered_tokens(after))
        },
{
    let joined = before + seq![white] + after;
    lemma_split_at_whitespace(before, white, after);
    assert(lowered_tokens(joined) == lowered_tokens(before) + lowered_tokens(after));
    lemma_first_match_of_joined(model, lowered_tokens(before), lowered_tokens(after));
    lemma_first_match_found(model, lowered_tokens(joined));
    lemma_first_match_found(model, lowered_tokens(before));
    lemma_first_match_found(model, lowered_tokens(after));
}

/// Case matters only as far as lower-casing keeps it: two texts whose tokens
/// have the same lower-case forms, one by one, get the same report and the same
/// answer.
pub proof fn lemma_judged_in_lower_case(model: MatcherModel, a: Seq<char>, b: Seq<char>)
    requires
        whitespace_tokens(a).len() == whitespace_tokens(b).len(),
        forall|i: int|
            0 <= i < whitespace_tokens(a).len() ==> lowercase_of(#[trigger] whitespace_tokens(a)[i])
                == lowercase_of(whitespace_tokens(b)[i]),
    ensures
        first_match(model, lowered_tokens(a)) == first_match(model, lowered_tokens(b)),
        offends(model, a) == offends(model, b),
{
    assert(lowered_tokens(a) == lowered_tokens(b));
}

/// A text without tokens, the empty text among them, is not offensive.
pub proof fn lemma_nothing_to_judge(model: MatcherModel, text: Seq<char>)
    requires
        whitespace_tokens(text).len() == 0,
    ensures
        first_match(model, lowered_tokens(text)) is None,
        !offends(model, text),
{
}

/// Asking twice gives the same: two reports that [`find_offensive`] may return
/// for one matcher and one text name the same token and the same capture
/// groups, and each is there exactly where [`is_offensive`] says yes.
pub proof fn lemma_asking_twice(
    matcher: Matcher,
    text: Seq<char>,
    first: Option<MatchReport>,
    second: Option<MatchReport>,
)
    requires
        first.deep_view() == first_match(matcher@, lowered_tokens(text)),
        second.deep_view() == first_match(matcher@, lowered_tokens(text)),
    ensures
        first.deep_view() == second.deep_view(),
        first is Some <==> second is Some,
        first is Some <==> offends(matcher@, text),
        first matches Some(one) ==> second matches Some(other) && one.token@ == other.token@
            && one.captures.deep_view() == other.captures.deep_view(),
{
    lemma_first_match_found(matcher@, lowered_tokens(text));
}

} // verus!

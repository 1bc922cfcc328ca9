//! What is reported for an offensive token: the token and the capture groups
//! that took part in its match.

use vstd::prelude::*;

verus! {

/// One capture group that took part in a match.
#[derive(Debug, PartialEq, Eq)]
pub struct Capture {
    /// The group's index; group 0 is the whole match.
    pub index: usize,
    /// The text the group matched.
    pub text: String,
}

/// The mathematical value of a [`Capture`].
pub ghost struct CaptureView {
    pub index: int,
    pub text: Seq<char>,
}

impl View for Capture {
    type V = CaptureView;

    open spec fn view(&self) -> CaptureView {
        CaptureView { index: self.index as int, text: self.text@ }
    }
}

impl DeepView for Capture {
    type V = CaptureView;

    open spec fn deep_view(&self) -> CaptureView {
        self@
    }
}

/// What is reported for a text that holds an offensive token.
#[derive(Debug, PartialEq, Eq)]
pub struct MatchReport {
    /// The first token that matched, in lower case.
    pub token: String,
    /// The capture groups that took part in the match, by rising index.
    pub captures: Vec<Capture>,
}

/// The mathematical value of a [`MatchReport`].
pub ghost struct MatchReportView {
    pub token: Seq<char>,
    pub captures: Seq<CaptureView>,
}

impl MatchReportView {
    /// A report holds the whole match as its first capture, under index 0, and
    /// its captures by rising index.
    pub open spec fn well_formed(self) -> bool {
        &&& self.captures.len() >= 1
        &&& self.captures[0].index == 0
        &&& forall|i: int, j: int|
            0 <= i < j < self.captures.len() ==> self.captures[i].index < self.captures[j].index
    }
}

impl View for MatchReport {
    type V = MatchReportView;

    open spec fn view(&self) -> MatchReportView {
        MatchReportView { token: self.token@, captures: self.captures.deep_view() }
    }
}

impl DeepView for MatchReport {
    type V = MatchReportView;

    open spec fn deep_view(&self) -> MatchReportView {
        self@
    }
}

/// The groups that took part in a match, each with its index, by rising index.
pub open spec fn present_captures(groups: Seq<Option<Seq<char>>>) -> Seq<CaptureView>
    decreases groups.len(),
{
    if groups.len() == 0 {
        Seq::empty()
    } else {
        let earlier = present_captures(groups.drop_last());
        match groups.last() {
            Some(text) => earlier.push(CaptureView { index: groups.len() - 1, text }),
            None => earlier,
        }
    }
}

/// Every capture that is kept is a group that took part, under that group's
/// index, and the captures are kept by rising index.
pub proof fn lemma_present_captures_sound(groups: Seq<Option<Seq<char>>>)
    ensures
        present_captures(groups).len() <= groups.len(),
        forall|i: int|
            0 <= i < present_captures(groups).len() ==> {
                let capture = #[trigger] present_captures(groups)[i];
                0 <= capture.index < groups.len() && groups[capture.index] == Some(capture.text)
            },
        forall|i: int, j: int|
            0 <= i < j < present_captures(groups).len() ==> present_captures(groups)[i].index
                < present_captures(groups)[j].index,
    decreases groups.len(),
{
    if groups.len() > 0 {
        lemma_present_captures_sound(groups.drop_last());
    }
}

/// Every group that took part is kept.
pub proof fn lemma_present_captures_complete(groups: Seq<Option<Seq<char>>>, k: int)
    requires
        0 <= k < groups.len(),
        groups[k] is Some,
    ensures
        exists|i: int|
            0 <= i < present_captures(groups).len() && #[trigger] present_captures(groups)[i]
                == (CaptureView { index: k, text: groups[k]->0 }),
    decreases groups.len(),
{
    let kept = present_captures(groups);
    if k == groups.len() - 1 {
        assert(kept[kept.len() - 1] == (CaptureView { index: k, text: groups[k]->0 }));
    } else {
        let earlier = groups.drop_last();
        lemma_present_captures_complete(earlier, k);
        let i = choose|i: int|
            0 <= i < present_captures(earlier).len() && #[trigger] present_captures(earlier)[i]
                == (CaptureView { index: k, text: earlier[k]->0 });
        assert(kept[i] == (CaptureView { index: k, text: groups[k]->0 }));
    }
}

/// Where group 0 took part, it is the first capture.
pub proof fn lemma_whole_match_first(groups: Seq<Option<Seq<char>>>)
    requires
        groups.len() >= 1,
        groups[0] is Some,
    ensures
        present_captures(groups).len() >= 1,
        present_captures(groups)[0] == (CaptureView { index: 0, text: groups[0]->0 }),
    decreases groups.len(),
{
    if groups.len() > 1 {
        lemma_whole_match_first(groups.drop_last());
    } else {
        assert(present_captures(groups.drop_last()).len() == 0);
    }
}

/// Copies out the groups that took part in a match, each with its index.
pub fn collect_captures(groups: &Vec<Option<String>>) -> (captures: Vec<Capture>)
    ensures
        captures.deep_view() == present_captures(groups.deep_view()),
{
    let mut captures: Vec<Capture> = Vec::new();
    let mut i: usize = 0;
    while i < groups.len()
        invariant
            i <= groups.len(),
            captures.deep_view() == present_captures(groups.deep_view().take(i as int)),
        decreases groups.len() - i,
    {
        assert(groups.deep_view().take(i + 1).drop_last() == groups.deep_view().take(i as int));
        match &groups[i] {
            Some(text) => {
                captures.push(Capture { index: i, text: text.clone() });
            },
            None => {},
        }
        i = i + 1;
    }
    assert(groups.deep_view().take(i as int) == groups.deep_view());
    captures
}

/// What is reported for a word once the engine has looked at it: the word and the
/// groups that took part, where it found a match, and nothing where it found none.
pub open spec fn reported(word: Seq<char>, found: Option<Seq<Option<Seq<char>>>>) -> Option<
    MatchReportView,
> {
    match found {
        Some(groups) => Some(MatchReportView { token: word, captures: present_captures(groups) }),
        None => None,
    }
}

/// Makes the report for a word from what the engine found in it.
pub fn report_match(word: String, found: Option<Vec<Option<String>>>) -> (report: Option<
    MatchReport,
>)
    ensures
        report.deep_view() == reported(word@, found.deep_view()),
        match (found, report) {
            (Some(groups), Some(made)) => groups.len() >= 1 && groups[0] is Some
                ==> made@.well_formed(),
            _ => true,
        },
{
    match found {
        Some(groups) => {
            let captures = collect_captures(&groups);
            proof {
                lemma_present_captures_sound(groups.deep_view());
                if groups.len() >= 1 && groups[0] is Some {
                    lemma_whole_match_first(groups.deep_view());
                }
            }
            Some(MatchReport { token: word, captures })
        },
        None => None,
    }
}

} // verus!

//! Assembly of the filter's regular expression from prefix and suffix fragments.
//!
//! The assembled text has the shape
//! `\b(P1|P2|...)(S1|S2|...)s?|\b(P1|P2|...)s?\b`: a compound branch, in which a
//! prefix is directly followed by a suffix, and a bare branch, in which a prefix
//! stands alone. Fragments are taken as they are; nothing is escaped.

use vstd::prelude::*;

verus! {

/// The texts of a list of fragments.
pub open spec fn fragment_texts(fragments: Seq<&str>) -> Seq<Seq<char>> {
    Seq::new(fragments.len(), |i: int| fragments[i]@)
}

/// What fragment `i` contributes to a group: the fragment itself, behind a `|`
/// unless it is the first one.
pub open spec fn alternative(fragments: Seq<Seq<char>>, i: int) -> Seq<char> {
    if i == 0 {
        fragments[i]
    } else {
        seq!['|'] + fragments[i]
    }
}

/// The fragments in order, separated by `|`.
pub open spec fn alternation(fragments: Seq<Seq<char>>) -> Seq<char>
    decreases fragments.len(),
{
    if fragments.len() == 0 {
        Seq::empty()
    } else {
        alternation(fragments.drop_last()) + alternative(fragments, fragments.len() - 1)
    }
}

/// The word-boundary anchor `\b`.
pub open spec fn word_boundary() -> Seq<char> {
    seq!['\\', 'b']
}

/// An optional plural `s`, written `s?`.
pub open spec fn optional_plural() -> Seq<char> {
    seq!['s', '?']
}

/// A capture group holding the alternation of the fragments.
pub open spec fn group(fragments: Seq<Seq<char>>) -> Seq<char> {
    seq!['('] + alternation(fragments) + seq![')']
}

/// The compound branch `\b(P1|...)(S1|...)s?`.
pub open spec fn compound_branch(prefixes: Seq<Seq<char>>, suffixes: Seq<Seq<char>>) -> Seq<char> {
    word_boundary() + group(prefixes) + group(suffixes) + optional_plural()
}

/// The bare branch `\b(P1|...)s?\b`.
pub open spec fn bare_branch(prefixes: Seq<Seq<char>>) -> Seq<char> {
    word_boundary() + group(prefixes) + optional_plural() + word_boundary()
}

/// The whole expression: the compound branch, `|`, the bare branch. The compound
/// branch comes first, so that an engine which prefers the leftmost alternative
/// reports the fuller match.
pub open spec fn offensive_pattern(prefixes: Seq<Seq<char>>, suffixes: Seq<Seq<char>>) -> Seq<
    char,
> {
    compound_branch(prefixes, suffixes) + seq!['|'] + bare_branch(prefixes)
}

/// Appends the alternation of `fragments` to `out`.
fn push_alternation(out: &mut String, fragments: &[&str])
    ensures
        final(out)@ == old(out)@ + alternation(fragment_texts(fragments@)),
{
    let ghost texts = fragment_texts(fragments@);
    let mut i: usize = 0;
    while i < fragments.len()
        invariant
            i <= fragments.len(),
            texts == fragment_texts(fragments@),
            out@ == old(out)@ + alternation(texts.take(i as int)),
        decreases fragments.len() - i,
    {
        if i > 0 {
            out.append("|");
        }
        out.append(fragments[i]);
        proof {
            reveal_strlit("|");
            assert(texts.take(i + 1).drop_last() == texts.take(i as int));
        }
        i = i + 1;
    }
    assert(texts.take(i as int) == texts);
}

/// Builds the expression for the given prefix and suffix fragments.
pub fn generate_offensive_regex(prefixes: &[&str], suffixes: &[&str]) -> (pattern: String)
    ensures
        pattern@ == offensive_pattern(fragment_texts(prefixes@), fragment_texts(suffixes@)),
{
    let mut regex_str = String::new();
    regex_str.append("\\b(");
    push_alternation(&mut regex_str, prefixes);
    regex_str.append(")(");
    push_alternation(&mut regex_str, suffixes);
    regex_str.append(")s?|\\b(");
    push_alternation(&mut regex_str, prefixes);
    regex_str.append(")s?\\b");
    proof {
        reveal_strlit("\\b(");
        reveal_strlit(")(");
        reveal_strlit(")s?|\\b(");
        reveal_strlit(")s?\\b");
    }
    regex_str
}

/// Where fragment `i` begins inside the alternation of the fragments.
pub open spec fn fragment_start(fragments: Seq<Seq<char>>, i: int) -> int {
    if i == 0 {
        0
    } else {
        (alternation(fragments.take(i)).len() + 1) as int
    }
}

/// The alternation of the fragments up to `i` opens the alternation of them all.
pub proof fn lemma_alternation_grows(fragments: Seq<Seq<char>>, i: int)
    requires
        0 <= i <= fragments.len(),
    ensures
        alternation(fragments.take(i)).len() <= alternation(fragments).len(),
        alternation(fragments).take(alternation(fragments.take(i)).len() as int) == alternation(
            fragments.take(i),
        ),
    decreases fragments.len() - i,
{
    if i == fragments.len() {
        assert(fragments.take(i) == fragments);
    } else {
        lemma_alternation_grows(fragments, i + 1);
        let longer = fragments.take(i + 1);
        assert(longer.drop_last() == fragments.take(i));
    }
}

/// Every fragment stands in the alternation as it was given, the first at the
/// start and each later one directly behind a `|`.
pub proof fn lemma_alternation_holds_fragment(fragments: Seq<Seq<char>>, i: int)
    requires
        0 <= i < fragments.len(),
    ensures
        ({
            let start = fragment_start(fragments, i);
            &&& 0 <= start
            &&& start + fragments[i].len() <= alternation(fragments).len()
            &&& alternation(fragments).subrange(start, start + fragments[i].len()) == fragments[i]
            &&& i > 0 ==> alternation(fragments)[start - 1] == '|'
        }),
{
    let upto = fragments.take(i + 1);
    assert(upto.drop_last() == fragments.take(i));
    lemma_alternation_grows(fragments, i + 1);
    let whole = alternation(fragments);
    let head = alternation(upto);
    let start = fragment_start(fragments, i);
    assert(whole.subrange(start, start + fragments[i].len()) == whole.take(
        head.len() as int,
    ).subrange(start, start + fragments[i].len()));
    if i > 0 {
        assert(whole[start - 1] == whole.take(head.len() as int)[start - 1]);
    }
}

/// The expression holds both branches and their anchors: it is the compound
/// branch, a `|` and the bare branch; each branch opens with `\b(`, the compound
/// branch closes with `)s?` and the bare branch with `)s?\b`.
pub proof fn lemma_pattern_shape(prefixes: Seq<Seq<char>>, suffixes: Seq<Seq<char>>)
    ensures
        ({
            let pattern = offensive_pattern(prefixes, suffixes);
            let compound = compound_branch(prefixes, suffixes);
            let bare = bare_branch(prefixes);
            &&& pattern.len() == compound.len() + 1 + bare.len()
            &&& pattern.take(compound.len() as int) == compound
            &&& pattern[compound.len() as int] == '|'
            &&& pattern.skip(compound.len() as int + 1) == bare
            &&& compound.len() >= 8
            &&& compound.take(3) == seq!['\\', 'b', '(']
            &&& compound.skip(compound.len() - 3) == seq![')', 's', '?']
            &&& bare.len() >= 8
            &&& bare.take(3) == seq!['\\', 'b', '(']
            &&& bare.skip(bare.len() - 5) == seq![')', 's', '?', '\\', 'b']
        }),
{
}

/// Every fragment stands in the expression as it was given: each prefix in the
/// first group of the compound branch and in the group of the bare branch, each
/// suffix in the second group of the compound branch.
pub proof fn lemma_pattern_holds_fragments(
    prefixes: Seq<Seq<char>>,
    suffixes: Seq<Seq<char>>,
    i: int,
    j: int,
)
    requires
        0 <= i < prefixes.len(),
        0 <= j < suffixes.len(),
    ensures
        ({
            let pattern = offensive_pattern(prefixes, suffixes);
            let first_group: int = 3;
            let second_group: int = alternation(prefixes).len() as int + 5;
            let bare_group: int = compound_branch(prefixes, suffixes).len() as int + 4;
            let prefix_in_compound: int = first_group + fragment_start(prefixes, i);
            let suffix_in_compound: int = second_group + fragment_start(suffixes, j);
            let prefix_in_bare: int = bare_group + fragment_start(prefixes, i);
            &&& pattern.subrange(prefix_in_compound, prefix_in_compound + prefixes[i].len())
                == prefixes[i]
            &&& pattern.subrange(suffix_in_compound, suffix_in_compound + suffixes[j].len())
                == suffixes[j]
            &&& pattern.subrange(prefix_in_bare, prefix_in_bare + prefixes[i].len())
                == prefixes[i]
        }),
{
    lemma_alternation_holds_fragment(prefixes, i);
    lemma_alternation_holds_fragment(suffixes, j);
    let pattern = offensive_pattern(prefixes, suffixes);
    let heads = alternation(prefixes);
    let tails = alternation(suffixes);
    let second_group: int = heads.len() as int + 5;
    let bare_group: int = compound_branch(prefixes, suffixes).len() as int + 4;
    let p = fragment_start(prefixes, i);
    let s = fragment_start(suffixes, j);
    let prefix_end: int = p + prefixes[i].len();
    let suffix_end: int = s + suffixes[j].len();
    let heads_in_compound = pattern.subrange(3, 3 + heads.len() as int);
    let tails_in_compound = pattern.subrange(second_group, second_group + tails.len() as int);
    let heads_in_bare = pattern.subrange(bare_group, bare_group + heads.len() as int);
    assert(heads_in_compound == heads);
    assert(tails_in_compound == tails);
    assert(heads_in_bare == heads);
    assert(pattern.subrange(3 + p, 3 + prefix_end) == heads_in_compound.subrange(p, prefix_end));
    assert(pattern.subrange(second_group + s, second_group + suffix_end)
        == tails_in_compound.subrange(s, suffix_end));
    assert(pattern.subrange(bare_group + p, bare_group + prefix_end) == heads_in_bare.subrange(
        p,
        prefix_end,
    ));
}

} // verus!

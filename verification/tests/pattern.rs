use word_filter::matcher::Matcher;
use word_filter::pattern::generate_offensive_regex;

#[test]
fn builds_both_branches() {
    let pattern = generate_offensive_regex(&["ab"], &["x", "yz"]);
    assert_eq!(pattern, "\\b(ab)(x|yz)s?|\\b(ab)s?\\b");
}

#[test]
fn separates_fragments_with_bars() {
    let pattern = generate_offensive_regex(&["a", "b", "c"], &["d", "e"]);
    assert_eq!(pattern, r"\b(a|b|c)(d|e)s?|\b(a|b|c)s?\b");
}

#[test]
fn single_fragments_get_no_bar() {
    let pattern = generate_offensive_regex(&["p"], &["s"]);
    assert_eq!(pattern, r"\b(p)(s)s?|\b(p)s?\b");
}

#[test]
fn fragments_are_not_escaped() {
    let pattern = generate_offensive_regex(&["a.b", "[xy]+"], &["(er|ing)?", r"\d"]);
    assert_eq!(pattern, r"\b(a.b|[xy]+)((er|ing)?|\d)s?|\b(a.b|[xy]+)s?\b");
}

#[test]
fn empty_lists_give_empty_groups() {
    assert_eq!(generate_offensive_regex(&[], &[]), r"\b()()s?|\b()s?\b");
    assert_eq!(generate_offensive_regex(&["a"], &[]), r"\b(a)()s?|\b(a)s?\b");
    assert_eq!(generate_offensive_regex(&[], &["a"]), r"\b()(a)s?|\b()s?\b");
}

#[test]
fn empty_fragments_are_kept() {
    assert_eq!(generate_offensive_regex(&["", "a"], &["b", ""]), r"\b(|a)(b|)s?|\b(|a)s?\b");
}

#[test]
fn pattern_holds_both_branches_and_anchors() {
    let prefixes = ["one", "two"];
    let suffixes = ["x", "y", "z"];
    let pattern = generate_offensive_regex(&prefixes, &suffixes);
    let (compound, bare) = pattern.split_once("|\\b").unwrap();
    assert_eq!(compound, r"\b(one|two)(x|y|z)s?");
    assert_eq!(bare, r"(one|two)s?\b");
    assert!(pattern.starts_with(r"\b("));
    assert!(pattern.ends_with(r")s?\b"));
    assert_eq!(pattern.matches(r"\b").count(), 3);
}

#[test]
fn built_in_configuration() {
    let matcher = Matcher::offensive().unwrap();
    assert_eq!(
        matcher.pattern(),
        "\\b([c|k](ock|0ck|\\*ck|\\*\\*k))\
         (face|head|lover|tease|blast(er|ing)?|block(er|ing)?|master|munch(er|ing)?|suck(er|ing))s?\
         |\\b([c|k](ock|0ck|\\*ck|\\*\\*k))s?\\b"
    );
    let prefixes = ["[c|k](ock|0ck|\\*ck|\\*\\*k)"];
    let suffixes = [
        "face",
        "head",
        "lover",
        "tease",
        r"blast(er|ing)?",
        r"block(er|ing)?",
        r"master",
        r"munch(er|ing)?",
        r"suck(er|ing)",
    ];
    assert_eq!(matcher.pattern(), generate_offensive_regex(&prefixes, &suffixes));
}

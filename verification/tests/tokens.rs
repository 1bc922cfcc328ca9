use word_filter::tokens::split_whitespace;

fn expected(text: &str) -> Vec<String> {
    text.split_whitespace().map(|token| token.to_string()).collect()
}

#[test]
fn splits_on_spaces() {
    assert_eq!(split_whitespace("he is a cock"), vec!["he", "is", "a", "cock"]);
}

#[test]
fn empty_text_has_no_tokens() {
    assert_eq!(split_whitespace(""), Vec::<String>::new());
}

#[test]
fn blank_text_has_no_tokens() {
    assert_eq!(split_whitespace(" \t\r\n  "), Vec::<String>::new());
}

#[test]
fn a_single_word_is_its_own_token() {
    assert_eq!(split_whitespace("shuttlecock"), vec!["shuttlecock"]);
}

#[test]
fn runs_of_whitespace_give_no_empty_tokens() {
    assert_eq!(split_whitespace("  a \t\t b\n\nc  "), vec!["a", "b", "c"]);
}

#[test]
fn punctuation_stays_in_the_token() {
    assert_eq!(
        split_whitespace("Say 'cocksucker' one more time!"),
        vec!["Say", "'cocksucker'", "one", "more", "time!"]
    );
}

#[test]
fn case_is_kept() {
    assert_eq!(split_whitespace("He Is LOUD"), vec!["He", "Is", "LOUD"]);
}

#[test]
fn unicode_whitespace_parts_tokens() {
    assert_eq!(
        split_whitespace("a\u{a0}b\u{2003}c\u{3000}d\u{85}e\u{1680}f"),
        vec!["a", "b", "c", "d", "e", "f"]
    );
}

#[test]
fn characters_that_only_look_like_whitespace_do_not_part_tokens() {
    assert_eq!(split_whitespace("a\u{200b}b"), vec!["a\u{200b}b"]);
    assert_eq!(split_whitespace("a\u{feff}b c"), vec!["a\u{feff}b", "c"]);
}

#[test]
fn wide_characters_are_kept_whole() {
    assert_eq!(split_whitespace("héllo wörld 越 🦀x"), vec!["héllo", "wörld", "越", "🦀x"]);
}

#[test]
fn agrees_with_the_standard_library() {
    let texts = [
        "",
        " ",
        "a",
        " a",
        "a ",
        "a b",
        "a  b",
        "\ta\nb\rc\u{b}d\u{c}e",
        "Cocktease me once, shame on you. Cocktease me twice...",
        "tabs\tand\u{2028}line\u{2029}separators",
        "\u{2000}\u{2001}\u{2002}x\u{2009}\u{200a}\u{202f}\u{205f}y",
        "no-break\u{a0}space",
        "x\u{180e}y",
    ];
    for text in texts {
        assert_eq!(split_whitespace(text), expected(text), "{:?}", text);
    }
}

#[test]
fn joining_two_texts_with_whitespace_joins_their_tokens() {
    let before = "  one two";
    let after = "three  four ";
    let mut both = split_whitespace(before);
    both.extend(split_whitespace(after));
    assert_eq!(split_whitespace(&format!("{}\n{}", before, after)), both);
}

use word_filter::matcher::{is_offensive, Matcher};

fn matcher() -> Matcher {
    Matcher::offensive().unwrap()
}

#[test]
fn test_offensive_regex() {
    let matcher = matcher();

    let bad_basic_words = [
        "c0ck",
        "c0cks",
        "cock-blocking",
        "cock",
        "cockblasting",
        "cockblocking",
        "cockface",
        "cockmuncher",
        "cocks",
        "cocksucker",
        "cocksuckers",
        "c*ck",
    ];

    for word in bad_basic_words {
        assert_eq!(
            is_offensive(&matcher, word),
            true,
            "Test failed: expected \"{}\" to fail validation.",
            word
        );
    }

    let bad_phrases = [
        "He is a cock",
        "He is cocksucker",
        "This is a cocksucking",
        "that c*ckhead",
        "Say 'cocksucker' one more time!",
        "Go ahead, make my cocktease.",
        "You talkin' to my cockhead?",
        "I'll be cockblocked.",
        "Game over, cockmaster.",
        "My precious cocksucker.",
        "Cocktease me once, shame on you. Cocktease me twice...",
        "Game over, c**kmaster.",
    ];

    for phrase in bad_phrases {
        assert_eq!(
            is_offensive(&matcher, phrase),
            true,
            "Test failed: expected phrase \"{}\" to fail validation.",
            phrase
        );
    }

    // Negative cases (should be legitimate)

    let good_basic_words = [
        "cockaded",
        "cockings",
        "cockpit",
        "cocktail",
        "cocky",
        "locomotive",
    ];

    for word in good_basic_words {
        assert_eq!(
            is_offensive(&matcher, word),
            false,
            "Test failed: expected \"{}\" to pass validation.",
            word
        );
    }

    let good_phrases = [
        "This is a cockaded bird",
        "I hit the shuttlecock hard",
        "Look at that cockchafer!",
        "The quick brown fox jumps over the lazy cockatoo.",
        "I'm sure the bartender can make a mean strawberry cocktail.",
        "The proud cockerel strutted around the farmyard.",
        "He woke up at cockcrow to the sound of roosters.",
        "The historical documentary discussed the controversial practice of cockfighting.",
        "She was cocksure that her team would win the championship.",
    ];

    for phrase in good_phrases {
        assert_eq!(
            is_offensive(&matcher, phrase),
            false,
            "Test failed: expected phrase \"{}\" to pass validation.",
            phrase
        );
    }

    // "cock-a-doodle-doo" is flagged although it should pass: telling it apart
    // takes a negative lookahead, which the engine does not have.
    let edge_cases = ["I am cocking a gun"];

    for edge_case in edge_cases {
        assert_eq!(
            is_offensive(&matcher, edge_case),
            false,
            "Test failed: expected edge case \"{}\" to pass validation.",
            edge_case
        );
    }
}

#[test]
fn upper_case_is_judged_like_lower_case() {
    let matcher = matcher();
    assert_eq!(is_offensive(&matcher, "COCKFACE"), is_offensive(&matcher, "cockface"));
    assert!(is_offensive(&matcher, "COCKFACE"));
    assert!(is_offensive(&matcher, "CockFace"));
    assert_eq!(is_offensive(&matcher, "COCKPIT"), is_offensive(&matcher, "cockpit"));
    assert!(!is_offensive(&matcher, "COCKPIT"));
}

#[test]
fn a_match_inside_a_larger_token_does_not_count() {
    let matcher = matcher();
    assert!(!is_offensive(&matcher, "shuttlecock"));
    assert!(!is_offensive(&matcher, "that is a shuttlecock item"));
    assert!(is_offensive(&matcher, "he is a cock"));
}

#[test]
fn compounds_are_flagged() {
    let matcher = matcher();
    assert!(is_offensive(&matcher, "cockblocking"));
    assert!(is_offensive(&matcher, "cocksucker"));
    assert!(is_offensive(&matcher, "cocksuckers"));
}

#[test]
fn bare_prefixes_are_flagged() {
    let matcher = matcher();
    assert!(is_offensive(&matcher, "cock"));
    assert!(is_offensive(&matcher, "cocks"));
    assert!(is_offensive(&matcher, "c0ck"));
}

#[test]
fn innocuous_words_pass() {
    let matcher = matcher();
    let clean = [
        "cockpit",
        "cocktail",
        "cocky",
        "cockerel",
        "cockatoo",
        "cockfighting",
        "cocksure",
        "locomotive",
    ];
    for word in clean {
        assert!(!is_offensive(&matcher, word), "{} was flagged", word);
    }
}

#[test]
fn cock_a_doodle_doo_is_a_known_false_positive() {
    // The bare branch ends at the hyphen, which is a word boundary. Keeping such
    // words clean would take a lookahead; the limitation is accepted.
    let matcher = matcher();
    assert!(is_offensive(&matcher, "cock-a-doodle-doo"));
}

#[test]
fn cocking_a_gun_passes() {
    let matcher = matcher();
    assert!(!is_offensive(&matcher, "I am cocking a gun"));
}

#[test]
fn empty_and_blank_texts_are_clean() {
    let matcher = matcher();
    assert!(!is_offensive(&matcher, ""));
    assert!(!is_offensive(&matcher, "   "));
    assert!(!is_offensive(&matcher, "\t\n \r\n"));
}

#[test]
fn asking_twice_gives_the_same_answer() {
    let matcher = matcher();
    for text in ["He is a cock", "nothing to see", "", "COCKSUCKERS unite"] {
        let first = is_offensive(&matcher, text);
        let second = is_offensive(&matcher, text);
        assert_eq!(first, second);
    }
}

#[test]
fn whitespace_of_any_kind_parts_tokens() {
    let matcher = matcher();
    assert!(is_offensive(&matcher, "a\tcock\nb"));
    assert!(is_offensive(&matcher, "a\u{a0}cock\u{3000}b"));
    assert!(is_offensive(&matcher, "clean cockpit cockface"));
    assert!(!is_offensive(&matcher, "clean cockpit shuttlecock"));
}

use rpn_calc::utils::{
    characters, classify, is_decimal_digit, normalize_whitespace, split_whitespace, CharClass,
};

#[test]
fn spaces_are_put_between_tokens() {
    assert_eq!(normalize_whitespace("1+2"), "1 + 2");
    assert_eq!(normalize_whitespace("(1+2)*3"), "( 1 + 2 ) * 3");
    assert_eq!(normalize_whitespace("((1))"), "( ( 1 ) )");
    assert_eq!(normalize_whitespace("1.5>=2"), "1.5 >= 2");
    assert_eq!(normalize_whitespace("sqrt(16)"), "sqrt ( 16 )");
    assert_eq!(normalize_whitespace("-3"), "- 3");
    assert_eq!(normalize_whitespace("1e5"), "1 e 5");
    assert_eq!(normalize_whitespace("!true"), "!true");
    assert_eq!(normalize_whitespace(""), "");
    assert_eq!(normalize_whitespace("12.34"), "12.34");
}

#[test]
fn runs_of_white_space_become_one_space() {
    assert_eq!(normalize_whitespace("1 + 2"), "1 + 2");
    assert_eq!(normalize_whitespace("1   +\t\t2"), "1 + 2");
    assert_eq!(normalize_whitespace("  1+2  "), " 1 + 2 ");
    assert_eq!(normalize_whitespace("\n"), " ");
    assert_eq!(normalize_whitespace("1\u{2003}\u{3000}2"), "1 2");
    assert_eq!(normalize_whitespace("( 1 )"), "( 1 )");
}

#[test]
fn normalizing_twice_changes_nothing() {
    let texts = [
        "",
        " ",
        "1+2",
        "1 + 2",
        "(1+2)*3",
        "  ( ((1.5>=2)&true ) |!false)\t\n",
        "sqrt(16)^2--3",
        "a1b2..c3))((",
        "x\u{a0}y\u{85}\u{1680}z(",
    ];
    for text in texts {
        let once = normalize_whitespace(text);
        assert_eq!(normalize_whitespace(&once), once, "{:?}", text);
    }
}

#[test]
fn normalizing_keeps_the_characters_that_are_no_white_space() {
    for text in ["(1+2)*3", " 1  +2 ", "sqrt(16)^2--3", "a1b2..c3))(("] {
        let kept: String = normalize_whitespace(text).chars().filter(|c| !c.is_whitespace()).collect();
        let expected: String = text.chars().filter(|c| !c.is_whitespace()).collect();
        assert_eq!(kept, expected);
    }
}

#[test]
fn white_space_is_what_the_language_takes_for_it() {
    let mut c = '\0';
    loop {
        assert_eq!(classify(c) == CharClass::Space, c.is_whitespace(), "{:?}", c);
        assert_eq!(is_decimal_digit(c), c.is_digit(10), "{:?}", c);
        if c == char::MAX {
            break;
        }
        c = match char::from_u32(c as u32 + 1) {
            Some(next) => next,
            None => '\u{e000}',
        };
    }
}

#[test]
fn classes_of_characters() {
    for c in "0123456789.".chars() {
        assert_eq!(classify(c), CharClass::Digit);
    }
    assert_eq!(classify('('), CharClass::Paren);
    assert_eq!(classify(')'), CharClass::Paren);
    for c in "+-*/^=!<>&|sqrtae[]{},".chars() {
        assert_eq!(classify(c), CharClass::Symbol);
    }
    for c in " \t\n\r\u{b}\u{c}".chars() {
        assert_eq!(classify(c), CharClass::Space);
    }
}

#[test]
fn words_are_the_runs_between_white_space() {
    assert_eq!(split_whitespace("1 2 +"), vec!["1", "2", "+"]);
    assert_eq!(split_whitespace("  1\t\t2\n+  "), vec!["1", "2", "+"]);
    assert_eq!(split_whitespace(""), Vec::<String>::new());
    assert_eq!(split_whitespace(" \t "), Vec::<String>::new());
    assert_eq!(split_whitespace("abc"), vec!["abc"]);
    assert_eq!(split_whitespace("a\u{3000}b"), vec!["a", "b"]);
}

#[test]
fn splitting_agrees_with_the_language() {
    let texts = [
        "",
        " ",
        "1 2 +",
        " ( ( 1.5 >= 2 ) & true ) ",
        "\t\ta\nb\r\nc d\u{a0}e\u{2028}f",
        "no-space",
        "trailing ",
        " leading",
    ];
    for text in texts {
        let expected: Vec<String> = text.split_whitespace().map(|w| w.to_string()).collect();
        assert_eq!(split_whitespace(text), expected, "{:?}", text);
    }
}

#[test]
fn characters_of_a_text() {
    assert_eq!(characters("a(1"), vec!['a', '(', '1']);
    assert_eq!(characters(""), Vec::<char>::new());
    assert_eq!(characters("\u{e9}\u{4e2d}"), vec!['\u{e9}', '\u{4e2d}']);
}

#[test]
fn tokens_are_set_apart_in_normalized_text() {
    let texts = ["(1+2)*3", "  a1b2..c3))((\t\tx ", "sqrt(16)^2--3", "1\u{2003}\u{3000}2!=3"];
    for text in texts {
        let normal: Vec<char> = normalize_whitespace(text).chars().collect();
        for pair in normal.windows(2) {
            let (a, b) = (classify(pair[0]), classify(pair[1]));
            if a == CharClass::Space || b == CharClass::Space {
                assert!(a != b, "{:?}", text);
            } else {
                assert!(a == b && a != CharClass::Paren, "{:?}", text);
            }
        }
        assert!(normal.iter().all(|c| !c.is_whitespace() || *c == ' '));
    }
}

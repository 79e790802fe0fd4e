use snake_term::highscore::{parse_high_score, update_high_score};

#[test]
fn higher_score_is_a_new_best() {
    assert_eq!(update_high_score(12, 7), (12, true));
    assert_eq!(update_high_score(1, 0), (1, true));
}

#[test]
fn equal_or_lower_score_keeps_the_best() {
    assert_eq!(update_high_score(7, 7), (7, false));
    assert_eq!(update_high_score(3, 7), (7, false));
    assert_eq!(update_high_score(0, 0), (0, false));
}

#[test]
fn stored_score_is_read_from_its_text() {
    assert_eq!(parse_high_score("42"), 42);
    assert_eq!(parse_high_score("42\n"), 42);
    assert_eq!(parse_high_score("  \t007 \r\n"), 7);
    assert_eq!(parse_high_score("+15"), 15);
    assert_eq!(parse_high_score("0"), 0);
    assert_eq!(parse_high_score(&usize::MAX.to_string()), usize::MAX);
}

#[test]
fn text_that_is_no_score_stands_for_zero() {
    for text in ["", "   ", "+", "-3", "4 2", "12a", "a12", "1.5", "++1", "+ 1", "１２", "1_000"] {
        assert_eq!(parse_high_score(text), 0, "{:?}", text);
    }
    let too_large = format!("{}0", usize::MAX);
    assert_eq!(parse_high_score(&too_large), 0);
    let just_too_large = format!("{}", usize::MAX as u128 + 1);
    assert_eq!(parse_high_score(&just_too_large), 0);
}

#[test]
fn stored_score_agrees_with_trim_and_parse() {
    let texts = [
        "0", "9", "10", " 99 ", "+0", "\u{a0}123\u{3000}", "18446744073709551615",
        "18446744073709551616", "184467440737095516150", "00000000000000000000000012", "x", "",
        "+", "+-1", "1 ", " 1", "1\n2", "\u{2003}7",
    ];
    for text in texts {
        let expected: usize = text.trim().parse().ok().unwrap_or(0);
        assert_eq!(parse_high_score(text), expected, "{:?}", text);
    }
}

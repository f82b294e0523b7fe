use guessing_game::basics::five;
use guessing_game::basics::plus_one;
use guessing_game::digits::decimal_string;
use guessing_game::parse::parse_guess;

#[test]
fn plain_numbers_parse() {
    assert_eq!(parse_guess("42"), Some(42));
    assert_eq!(parse_guess("0"), Some(0));
    assert_eq!(parse_guess("100"), Some(100));
    assert_eq!(parse_guess("007"), Some(7));
    assert_eq!(parse_guess("4294967295"), Some(u32::MAX));
}

#[test]
fn whitespace_around_numbers_is_ignored() {
    assert_eq!(parse_guess(" 42 "), Some(42));
    assert_eq!(parse_guess("\t9\r\n"), Some(9));
    assert_eq!(parse_guess("5\n"), Some(5));
}

#[test]
fn malformed_lines_do_not_parse() {
    assert_eq!(parse_guess("abc"), None);
    assert_eq!(parse_guess(""), None);
    assert_eq!(parse_guess("   "), None);
    assert_eq!(parse_guess("3.5"), None);
    assert_eq!(parse_guess("-1"), None);
    assert_eq!(parse_guess("+3"), None);
    assert_eq!(parse_guess("4 2"), None);
    assert_eq!(parse_guess("42x"), None);
}

#[test]
fn numbers_too_large_for_u32_do_not_parse() {
    assert_eq!(parse_guess("4294967296"), None);
    assert_eq!(parse_guess("99999999999999999999"), None);
}

#[test]
fn decimal_text_is_canonical() {
    assert_eq!(decimal_string(0), "0");
    assert_eq!(decimal_string(7), "7");
    assert_eq!(decimal_string(10), "10");
    assert_eq!(decimal_string(42), "42");
    assert_eq!(decimal_string(100), "100");
    assert_eq!(decimal_string(u32::MAX), "4294967295");
}

#[test]
fn decimal_text_parses_back_for_whole_range() {
    for n in 1u32..=100u32 {
        assert_eq!(parse_guess(&decimal_string(n)), Some(n));
    }
}

#[test]
fn five_is_five() {
    assert_eq!(five(), 5);
}

#[test]
fn plus_one_adds_one() {
    assert_eq!(plus_one(5), 6);
    assert_eq!(plus_one(-1), 0);
}

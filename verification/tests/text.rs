use osm2lanes::text::{count_to_string, parse_count, same_chars, split, starts_with, str_eq, to_chars};

#[test]
fn parse_count_reads_decimal_digits() {
    assert_eq!(parse_count("12"), Some(12));
    assert_eq!(parse_count("007"), Some(7));
    assert_eq!(parse_count("+3"), Some(3));
    assert_eq!(parse_count("0"), Some(0));
    assert_eq!(parse_count(""), None);
    assert_eq!(parse_count("+"), None);
    assert_eq!(parse_count("-1"), None);
    assert_eq!(parse_count("1.5"), None);
    assert_eq!(parse_count(" 2"), None);
    assert_eq!(parse_count("2;3"), None);
}

#[test]
fn parse_count_agrees_with_the_standard_parser() {
    for text in ["18446744073709551615", "18446744073709551616", "99999999999999999999999", "4294967296"] {
        assert_eq!(parse_count(text), text.parse::<usize>().ok());
    }
}

#[test]
fn count_to_string_writes_decimal() {
    assert_eq!(count_to_string(0), "0");
    assert_eq!(count_to_string(7), "7");
    assert_eq!(count_to_string(10), "10");
    assert_eq!(count_to_string(4096), "4096");
    assert_eq!(count_to_string(usize::MAX), usize::MAX.to_string());
    assert_eq!(parse_count(&count_to_string(305)), Some(305));
}

#[test]
fn str_eq_compares_characters() {
    assert!(str_eq("lane", "lane"));
    assert!(!str_eq("lane", "lanes"));
    assert!(!str_eq("lane", "land"));
    assert!(str_eq("", ""));
    assert!(str_eq("stra\u{df}e", "stra\u{df}e"));
}

#[test]
fn starts_with_looks_at_the_front() {
    assert!(starts_with("no @ (06:00-09:00)", "no"));
    assert!(starts_with("no", "no"));
    assert!(starts_with("no", ""));
    assert!(!starts_with("n", "no"));
    assert!(!starts_with("yes; no", "no"));
}

#[test]
fn split_cuts_at_every_separator() {
    let pieces = |text: &str| -> Vec<String> {
        split(text, '|').into_iter().map(|p| p.into_iter().collect()).collect()
    };
    assert_eq!(pieces("designated|yes|designated"), vec!["designated", "yes", "designated"]);
    assert_eq!(pieces("yes"), vec!["yes"]);
    assert_eq!(pieces(""), vec![""]);
    assert_eq!(pieces("|"), vec!["", ""]);
    assert_eq!(pieces("a||b|"), vec!["a", "", "b", ""]);
    for text in ["", "|", "a|b", "||x|"] {
        let expected: Vec<String> = text.split('|').map(|p| p.to_string()).collect();
        assert_eq!(pieces(text), expected);
    }
}

#[test]
fn to_chars_keeps_every_character() {
    assert_eq!(to_chars("a\u{1F6B2}b"), vec!['a', '\u{1F6B2}', 'b']);
    assert!(same_chars(&to_chars("bus"), &vec!['b', 'u', 's']));
    assert!(!same_chars(&to_chars("bus"), &vec!['b', 'u']));
}

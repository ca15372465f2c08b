use release_monitor::text::{parse_u16_str, replace_all_str, split_on_char, splitn_on_char, str_equals, trim_str};

#[test]
fn split_keeps_empty_pieces() {
    assert_eq!(split_on_char("a,,b,", ','), vec!["a", "", "b", ""]);
    assert_eq!(split_on_char("", ','), vec![""]);
    assert_eq!(split_on_char("1.2.3", '.'), vec!["1", "2", "3"]);
}

#[test]
fn splitn_stops_after_the_limit() {
    assert_eq!(splitn_on_char("3-4-5", '-', 1), vec!["3-4-5"]);
    assert_eq!(splitn_on_char("3-4-5", '-', 2), vec!["3", "4-5"]);
    assert_eq!(splitn_on_char("3-4-5", '-', 5), vec!["3", "4", "5"]);
    assert!(splitn_on_char("3-4-5", '-', 0).is_empty());
}

#[test]
fn trim_takes_off_unicode_white_space() {
    assert_eq!(trim_str("  rel=\"next\"\t\n"), "rel=\"next\"");
    assert_eq!(trim_str("\u{3000}x y\u{a0}"), "x y");
    assert_eq!(trim_str("   "), "");
    assert_eq!(trim_str(" a b "), " a b ".trim());
}

#[test]
fn replace_all_is_left_to_right_and_non_overlapping() {
    assert_eq!(replace_all_str("aaaa", "aa", "b"), "bb");
    assert_eq!(replace_all_str("aaa", "aa", "b"), "ba");
    assert_eq!(
        replace_all_str("https://github.com/rust-lang/rust", "github.com", "api.github.com/repos"),
        "https://api.github.com/repos/rust-lang/rust"
    );
    assert_eq!(replace_all_str("no match", "xyz", "q"), "no match");
    assert_eq!(replace_all_str("<a><b>", "<", ""), "a>b>");
}

#[test]
fn parse_u16_accepts_what_str_parse_accepts() {
    for s in ["0", "65535", "65536", "+7", "+", "-0", "", "12a", "007", "99999999", "١٢"] {
        assert_eq!(parse_u16_str(s), s.parse::<u16>().ok(), "input {:?}", s);
    }
}

#[test]
fn str_equals_compares_characters() {
    assert!(str_equals("watch", "watch"));
    assert!(!str_equals("watch", "watcher"));
    assert!(!str_equals("a", "b"));
    assert!(str_equals("", ""));
}

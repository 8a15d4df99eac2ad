use cctiles::number::{parse_u32, to_decimal};
use cctiles::split::{contains_word, find_with, split};
use cctiles::text::{
    chars_of, clone_opt, collapse_lines, find_word, is_text, is_whitespace, same_text, slice_of,
    text_of, trim, truncate,
};

fn chars(s: &str) -> Vec<char> {
    s.chars().collect()
}

#[test]
fn white_space_is_what_std_says() {
    for c in '\0'..=char::MAX {
        assert_eq!(is_whitespace(c), c.is_whitespace());
    }
}

#[test]
fn trim_takes_white_space_off_either_end() {
    for s in ["", " ", "a", " a b ", "\t\r\n\u{a0}x\u{2003}y\u{3000}", "\u{200b} z"] {
        assert_eq!(trim(s), s.trim());
    }
}

#[test]
fn words_end_at_white_space() {
    assert_eq!(find_word(&chars("  10 insertions")), Some(chars("10")));
    assert_eq!(find_word(&chars("10")), Some(chars("10")));
    assert_eq!(find_word(&chars(" \n")), None);
    assert_eq!(find_word(&[]), None);
}

#[test]
fn truncate_counts_characters_not_bytes() {
    assert_eq!(truncate("", 0), "");
    assert_eq!(truncate("abc", 3), "abc");
    assert_eq!(truncate("abcd", 3), "abc\u{2026}");
    assert_eq!(truncate("abcd", 0), "\u{2026}");
    assert_eq!(truncate("äöü", 3), "äöü");
    assert_eq!(truncate("äöüß", 3), "äöü\u{2026}");
}

#[test]
fn each_line_break_becomes_one_space() {
    assert_eq!(collapse_lines("a\nb\r\nc"), "a b  c");
    assert_eq!(collapse_lines("plain"), "plain");
}

#[test]
fn texts_are_compared_and_taken_apart() {
    assert!(same_text("a", "a"));
    assert!(!same_text("a", "ab"));
    assert!(is_text(&Some("x".to_string()), "x"));
    assert!(!is_text(&Some("x".to_string()), "y"));
    assert!(!is_text(&None, ""));
    assert_eq!(clone_opt(&Some("x".to_string())), Some("x".to_string()));
    assert_eq!(clone_opt(&None), None);
    assert_eq!(chars_of("aé"), vec!['a', 'é']);
    assert_eq!(text_of(&['a', 'é']), "aé");
    assert_eq!(slice_of(&['a', 'b', 'c', 'd'], 1, 3), vec!['b', 'c']);
}

#[test]
fn split_gives_one_more_part_than_separators() {
    for s in ["", ",", "a", "a,b", ",a,,b,"] {
        let expected: Vec<Vec<char>> = s.split(',').map(chars).collect();
        assert_eq!(split(&chars(s), ','), expected);
    }
}

#[test]
fn words_are_found_wherever_they_stand() {
    for (s, word) in [("aab", "ab"), ("ab", "ab"), ("a", "ab"), ("", ""), ("abc", ""), ("ba", "ab")]
    {
        assert_eq!(contains_word(&chars(s), &chars(word)), s.contains(word));
    }
    let parts = vec![chars("one"), chars("two"), chars("twofold")];
    assert_eq!(find_with(&parts, &chars("two")), Some(&parts[1]));
    assert_eq!(find_with(&parts, &chars("six")), None);
}

#[test]
fn decimals_round_trip() {
    for n in [0, 1, 9, 10, 99, 100, 65535, 1234567890, u32::MAX] {
        assert_eq!(to_decimal(n as u64), n.to_string());
        assert_eq!(parse_u32(&chars(&n.to_string())), Some(n));
    }
    assert_eq!(to_decimal(u64::MAX), u64::MAX.to_string());
}

#[test]
fn only_whole_numbers_are_read() {
    for s in ["", "+", "-", "-0", "+5", "007", "4294967295", "4294967296", "1x", "x1", " 1", "++1",
        "99999999999999999999999999", "\u{661}"]
    {
        assert_eq!(parse_u32(&chars(s)), s.parse::<u32>().ok());
    }
}

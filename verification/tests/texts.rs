use spotify_importer::numeral::{decimal, parse_u64};
use spotify_importer::text::{
    chars_of, contains, find, is_white_space, rfind, same_text, split_any, starts_with,
    strip_prefix, suffix, trim, trim_start_matches,
};

#[test]
fn white_space_is_that_of_the_standard_library() {
    for n in 0..=0x10ffffu32 {
        if let Some(c) = char::from_u32(n) {
            assert_eq!(is_white_space(c), c.is_whitespace(), "{:x}", n);
        }
    }
}

#[test]
fn characters_of_a_text() {
    assert_eq!(chars_of("aé漢"), vec!['a', 'é', '漢']);
    assert_eq!(chars_of(""), Vec::<char>::new());
}

#[test]
fn trimming_agrees_with_the_standard_library() {
    for s in [
        "", " ", "  a", "a  ", "\u{a0}a b\u{3000}", "\t\n x \r\n", "é ", "\u{200b}a", "\u{2028}",
    ] {
        assert_eq!(trim(s), s.trim());
        assert_eq!(trim(trim(s)), trim(s));
    }
}

#[test]
fn equality_of_texts() {
    assert!(same_text("", ""));
    assert!(same_text("álbum", "álbum"));
    assert!(!same_text("album", "albums"));
    assert!(!same_text("album", "alBum"));
}

#[test]
fn first_and_last_occurrence() {
    assert_eq!(find("éabcabc", "abc"), Some(1));
    assert_eq!(rfind("éabcabc", "abc"), Some(4));
    assert_eq!(find("abc", "abcd"), None);
    assert_eq!(rfind("abc", "x"), None);
    assert_eq!(find("abc", ""), Some(0));
    assert_eq!(rfind("abc", ""), Some(3));
    assert_eq!(find("aab", "ab"), Some(1));
    assert!(contains("main.js", ".js"));
    assert!(!contains("main.css", ".js"));
}

#[test]
fn prefixes() {
    assert!(starts_with("//cdn", "//"));
    assert!(!starts_with("/", "//"));
    assert_eq!(strip_prefix("album/1", "album/"), Some("1"));
    assert_eq!(strip_prefix("album", "album/"), None);
    assert_eq!(trim_start_matches("www.www.x", "www."), "x");
    assert_eq!(trim_start_matches("x", ""), "x");
    assert_eq!(suffix("aéb", 2), "b");
}

#[test]
fn splitting_agrees_with_the_standard_library() {
    let seps = vec!['?', '#', '/'];
    for s in ["", "abc", "a?b#c/d", "?", "a//b", "é/"] {
        let expected: Vec<&str> = s.split(['?', '#', '/']).collect();
        assert_eq!(split_any(s, &seps), expected);
    }
}

#[test]
fn numerals() {
    assert_eq!(decimal(0), "0");
    assert_eq!(decimal(100), "100");
    assert_eq!(decimal(u64::MAX), "18446744073709551615");
    for n in [0u64, 7, 10, 99, 404, 4294967295, u64::MAX] {
        assert_eq!(decimal(n), n.to_string());
        assert_eq!(parse_u64(&decimal(n)), Some(n));
    }
}

#[test]
fn reading_numbers_agrees_with_the_standard_library() {
    for s in [
        "", "+", "-", "-1", "+5", "++5", "007", "12a", " 12", "18446744073709551615",
        "18446744073709551616", "99999999999999999999999", "٣",
    ] {
        assert_eq!(parse_u64(s), s.parse::<u64>().ok(), "{}", s);
    }
}

use mdblog::text::{
    contains, find_from, from_chars, has_prefix, has_suffix, is_whitespace, join, less,
    same, same_chars, slice, split_chars, string_of, to_chars, to_decimal, trimmed,
};

fn chars(s: &str) -> Vec<char> {
    s.chars().collect()
}

fn text(v: &Vec<char>) -> String {
    v.iter().collect()
}

#[test]
fn characters_and_back() {
    assert_eq!(to_chars("héllo"), vec!['h', 'é', 'l', 'l', 'o']);
    assert_eq!(to_chars(""), Vec::<char>::new());
    assert_eq!(string_of(&chars("héllo")), "héllo");
    assert_eq!(from_chars(&chars("héllo"), 1, 3), "él");
    assert_eq!(slice(&chars("héllo"), 2, 5), chars("llo"));
    assert_eq!(slice(&chars("héllo"), 2, 2), chars(""));
}

#[test]
fn sameness() {
    assert!(same("a", "a"));
    assert!(!same("a", "b"));
    assert!(!same("a", "ab"));
    assert!(same_chars(&chars("ab"), &chars("ab")));
    assert!(!same_chars(&chars("ab"), &chars("ac")));
    assert!(!same_chars(&chars("ab"), &chars("a")));
    assert!(contains(&vec!["a".to_string(), "b".to_string()], "b"));
    assert!(!contains(&vec!["a".to_string(), "b".to_string()], "c"));
}

#[test]
fn white_space_is_what_std_calls_so() {
    for code in 0..0x3100u32 {
        if let Some(c) = char::from_u32(code) {
            assert_eq!(is_whitespace(c), c.is_whitespace());
        }
    }
    assert!(!is_whitespace('\u{FEFF}'));
}

#[test]
fn trimming_is_what_std_does() {
    for s in ["", " ", "a", "  a b \t\n", "\u{3000}x\u{a0}", "\n\n", " é ", "a  ", "  a"] {
        assert_eq!(text(&trimmed(&chars(s))), s.trim());
    }
}

#[test]
fn finding_and_splitting() {
    assert_eq!(find_from(&chars("a:b:c"), ':', 0), 1);
    assert_eq!(find_from(&chars("a:b:c"), ':', 2), 3);
    assert_eq!(find_from(&chars("a:b:c"), ':', 4), 5);
    assert_eq!(find_from(&chars("abc"), ':', 0), 3);
    for s in ["", "a", ",", "a,b", ",a,,b,", "a, b"] {
        let pieces: Vec<String> = split_chars(&chars(s), ',').iter().map(text).collect();
        let expected: Vec<String> = s.split(',').map(|p| p.to_string()).collect();
        assert_eq!(pieces, expected);
    }
}

#[test]
fn prefixes_and_suffixes() {
    assert!(has_prefix("hello", "he"));
    assert!(has_prefix("hello", ""));
    assert!(has_prefix("hello", "hello"));
    assert!(!has_prefix("hello", "hello!"));
    assert!(!has_prefix("hello", "el"));
    assert!(has_suffix("hello", "lo"));
    assert!(has_suffix("hello", ""));
    assert!(!has_suffix("hello", "hell"));
    assert!(!has_suffix("lo", "hello"));
}

#[test]
fn joining() {
    assert_eq!(mdblog::text::concat("ab", "cd"), "abcd");
    assert_eq!(mdblog::text::concat("", ""), "");
    let parts = vec!["a".to_string(), "".to_string(), "c".to_string()];
    assert_eq!(join(&parts, ", "), "a, , c");
    assert_eq!(join(&vec!["a".to_string()], ", "), "a");
    assert_eq!(join(&Vec::new(), ", "), "");
}

#[test]
fn decimal_numbers() {
    assert_eq!(to_decimal(0), "0");
    assert_eq!(to_decimal(7), "7");
    assert_eq!(to_decimal(10), "10");
    assert_eq!(to_decimal(1234567890), "1234567890");
    assert_eq!(to_decimal(usize::MAX), usize::MAX.to_string());
}

#[test]
fn order_is_that_of_std() {
    let words = ["", "a", "A", "ab", "b", "é", "z", "aa", "\u{10000}", "\u{ffff}"];
    for x in words {
        for y in words {
            assert_eq!(less(&chars(x), &chars(y)), x < y);
        }
    }
}

use mopro_ffi::text::{contains, ends_with, replace_all, replace_first, split_char, starts_with};

#[test]
fn replace_all_matches_str_replace() {
    for (s, from, to) in [
        ("aaaa", "aa", "b"),
        ("abcabc", "bc", "X"),
        ("", "a", "b"),
        ("héllo wörld", "ö", "o"),
        ("aaa", "aa", "aaa"),
    ] {
        assert_eq!(replace_all(s, from, to), s.replace(from, to));
    }
}

#[test]
fn replace_first_matches_str_replacen() {
    for (s, p, to) in [("abab", "ab", "X"), ("xyz", "q", "r"), ("aaa", "", "-")] {
        assert_eq!(replace_first(s, p, to), s.replacen(p, to, 1));
    }
}

#[test]
fn searching() {
    assert!(contains("hello", "ll"));
    assert!(contains("hello", ""));
    assert!(!contains("hello", "lo!"));
    assert!(starts_with("x86_64-apple-ios", "x86_64"));
    assert!(!starts_with("x86", "x86_64"));
    assert!(ends_with("aarch64-apple-ios-sim", "sim"));
    assert!(!ends_with("im", "sim"));
}

#[test]
fn splitting_matches_str_split() {
    for s in ["a,b,c", "", ",", "abc,", "ab,,c"] {
        let expected: Vec<String> = s.split(',').map(|p| p.to_string()).collect();
        assert_eq!(split_char(s, ','), expected);
    }
}

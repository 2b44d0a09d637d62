use torvax::text::{
    after_last, contains, ends_with, find_from, from_chars, is_space, join, lines, prefix, push_decimal,
    starts_with, strip_suffixes, to_chars, trim, word_count,
};

fn chars(s: &str) -> Vec<char> {
    s.chars().collect()
}

fn text(v: &Vec<char>) -> String {
    v.iter().collect()
}

#[test]
fn chars_round_trip() {
    let v = to_chars("héllo ✓");
    assert_eq!(v, chars("héllo ✓"));
    assert_eq!(from_chars(&v), "héllo ✓");
}

#[test]
fn lines_follow_std() {
    for case in ["", "\n", "a", "a\n", "a\nb", "a\r\nb\r\n", "a\r", "a\r\n\r\nb", "\r\n", "a\n\nb\n\n", "x\ry\n"] {
        let expected: Vec<String> = case.lines().map(|l| l.to_string()).collect();
        assert_eq!(lines(case), expected, "case {:?}", case);
    }
}

#[test]
fn trim_follows_std() {
    for case in ["", "  ", " a ", "\t\na b\r\n", "a", "\u{a0}x\u{3000}", " [1, 2] \n"] {
        assert_eq!(text(&trim(&chars(case))), case.trim(), "case {:?}", case);
    }
}

#[test]
fn word_count_follows_split_whitespace() {
    for case in ["", " ", "one", " one  two\tthree\n", "a b c d e", "tab\tsep\u{a0}nbsp"] {
        assert_eq!(word_count(&chars(case)), case.split_whitespace().count(), "case {:?}", case);
    }
}

#[test]
fn decimal_is_written_without_leading_zeros() {
    for n in [0u128, 7, 10, 42, 1000, 18_446_744_073_709_551_615, 18_446_744_073_709_551_616] {
        let mut out = chars("n=");
        push_decimal(&mut out, n);
        assert_eq!(text(&out), format!("n={}", n));
    }
}

#[test]
fn join_puts_separator_between() {
    let none: Vec<String> = vec![];
    assert_eq!(text(&join(&none, ", ")), "");
    assert_eq!(text(&join(&vec!["a".to_string()], ", ")), "a");
    assert_eq!(text(&join(&vec!["a".to_string(), "".to_string(), "c".to_string()], " | ")), "a |  | c");
}

#[test]
fn searches_find_first_occurrence() {
    let hay = chars("abcabc");
    assert_eq!(find_from(&hay, &chars("bc"), 0), Some(1));
    assert_eq!(find_from(&hay, &chars("bc"), 2), Some(4));
    assert_eq!(find_from(&hay, &chars("bc"), 5), None);
    assert_eq!(find_from(&hay, &chars(""), 6), Some(6));
    assert_eq!(find_from(&hay, &chars(""), 7), None);
    assert!(contains(&hay, &chars("cab")));
    assert!(!contains(&hay, &chars("cb")));
    assert!(starts_with(&hay, &chars("abc")));
    assert!(!starts_with(&hay, &chars("bc")));
    assert!(ends_with(&hay, &chars("abc")));
    assert!(!ends_with(&hay, &chars("abcabca")));
}

#[test]
fn prefix_takes_characters_not_bytes() {
    assert_eq!(text(&prefix(&chars("héllo"), 2)), "hé");
    assert_eq!(text(&prefix(&chars("héllo"), 9)), "héllo");
    assert_eq!(text(&prefix(&chars("héllo"), 0)), "");
}

#[test]
fn after_last_and_strip_suffixes() {
    assert_eq!(text(&after_last(&chars("a/b/c.rs"), '/')), "c.rs");
    assert_eq!(text(&after_last(&chars("c.rs"), '/')), "c.rs");
    assert_eq!(text(&after_last(&chars("a/b/"), '/')), "");
    assert_eq!(text(&strip_suffixes(&chars("repo.git.git"), &chars(".git"))), "repo");
    assert_eq!(text(&strip_suffixes(&chars("repo"), &chars(".git"))), "repo");
    assert_eq!(text(&strip_suffixes(&chars(".git"), &chars(".git"))), "");
    assert_eq!(text(&strip_suffixes(&chars("x"), &chars(""))), "x");
}

#[test]
fn white_space_is_what_std_tells() {
    for n in 0..=0x10FFFFu32 {
        if let Some(c) = char::from_u32(n) {
            assert_eq!(is_space(c), c.is_whitespace(), "U+{:04X}", n);
        }
    }
}

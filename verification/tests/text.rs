use fs_util::order::at_most;
use fs_util::order::sorted;
use fs_util::text::chars_of;
use fs_util::text::contains;
use fs_util::text::decimal_text;
use fs_util::text::join;
use fs_util::text::join3;
use fs_util::text::join4;
use fs_util::text::join_lines;
use fs_util::text::parse_number;
use fs_util::text::same;

fn owned(names: &[&str]) -> Vec<String> {
    names.iter().map(|name| name.to_string()).collect()
}

#[test]
fn numbers_are_decimal_digits() {
    assert_eq!(parse_number("0"), Some(0));
    assert_eq!(parse_number("42"), Some(42));
    assert_eq!(parse_number("007"), Some(7));
    assert_eq!(parse_number("+42"), Some(42));
    assert_eq!(parse_number("3145728"), Some(3145728));
}

#[test]
fn other_texts_are_no_numbers() {
    for text in ["", "+", "-1", "-0", "++1", "1+", " 1", "1 ", "1_000", "0x10", "1.0", "\u{664}"] {
        assert_eq!(parse_number(text), None, "{:?}", text);
        assert!(text.parse::<usize>().is_err(), "{:?}", text);
    }
}

#[test]
fn numbers_end_at_the_largest_size() {
    let largest = usize::MAX.to_string();
    assert_eq!(parse_number(&largest), Some(usize::MAX));
    assert_eq!(parse_number(&format!("+000{}", largest)), Some(usize::MAX));
    let beyond = (usize::MAX as u128 + 1).to_string();
    assert_eq!(parse_number(&beyond), None);
    assert_eq!(parse_number(&format!("{}0", largest)), None);
    assert_eq!(parse_number("99999999999999999999999999"), None);
}

#[test]
fn decimal_form_agrees_with_std_and_reads_back() {
    for n in [0, 1, 9, 10, 11, 99, 100, 12345, 3145728, usize::MAX - 1, usize::MAX] {
        assert_eq!(decimal_text(n), n.to_string());
        assert_eq!(parse_number(&decimal_text(n)), Some(n));
    }
}

#[test]
fn characters_of_a_text() {
    assert_eq!(chars_of("h\u{e9}\u{1f600}"), vec!['h', '\u{e9}', '\u{1f600}']);
    assert_eq!(chars_of(""), Vec::<char>::new());
}

#[test]
fn same_compares_whole_texts() {
    assert!(same("", ""));
    assert!(same("save", "save"));
    assert!(!same("save", "saved"));
    assert!(!same("saved", "save"));
    assert!(!same("save", "sane"));
}

#[test]
fn contains_finds_a_text_anywhere() {
    assert!(contains("Directory not found", "not found"));
    assert!(contains("not found: x", "not found"));
    assert!(contains("nonot founds", "not found"));
    assert!(contains("not found", "not found"));
    assert!(contains("abc", ""));
    assert!(contains("", ""));
    assert!(!contains("not foun", "not found"));
    assert!(!contains("Not Found", "not found"));
    assert!(!contains("", "not found"));
    assert!(contains("aab", "ab"));
}

#[test]
fn texts_are_joined_in_order() {
    assert_eq!(join("a", "b"), "ab");
    assert_eq!(join3("a", "", "c"), "ac");
    assert_eq!(join4("a", "b", "c", "d"), "abcd");
}

#[test]
fn every_line_ends_with_a_break() {
    assert_eq!(join_lines(&owned(&[])), "");
    assert_eq!(join_lines(&owned(&["a", "b/c"])), "a\nb/c\n");
}

#[test]
fn names_are_ordered_by_their_bytes() {
    assert!(at_most("a", "b"));
    assert!(!at_most("b", "a"));
    assert!(at_most("a", "a"));
    assert!(at_most("a", "aa"));
    assert!(!at_most("aa", "a"));
    assert!(at_most("", "a"));
    assert!(at_most("Z", "a"));
    assert!(at_most("a/b", "a0"));
    assert!(at_most("z", "\u{e9}"));
    assert!(at_most("\u{ffff}", "\u{10000}"));
}

#[test]
fn sorting_agrees_with_std() {
    let lists: [&[&str]; 5] = [
        &[],
        &["x"],
        &["b", "a"],
        &["roland", "a/b", "a", "a.txt", "a/b", "B", "\u{e9}", "", "zz", "z"],
        &["9", "8", "7", "6", "5", "4", "3", "2", "1", "0", "10"],
    ];
    for list in lists {
        let mut expected = owned(list);
        expected.sort();
        assert_eq!(sorted(owned(list)), expected);
    }
}

#[test]
fn sorting_keeps_every_copy() {
    assert_eq!(sorted(owned(&["b", "a", "b", "a", "b"])), owned(&["a", "a", "b", "b", "b"]));
}

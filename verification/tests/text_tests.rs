use xcompress::text::{
    chars_of, check_contains, check_ends_with, check_occurs_at, check_precedes, check_starts_with,
    decimal_text, find_char_from, find_last_char_before, join_texts, lowercase_chars,
    same_text, split_chars, text_of, text_of_range, trim_chars, trim_pieces,
};

fn c(s: &str) -> Vec<char> {
    s.chars().collect()
}

fn t(v: &Vec<char>) -> String {
    v.iter().collect()
}

#[test]
fn text_and_characters_convert_both_ways() {
    assert_eq!(chars_of("a\u{4e2d}b"), vec!['a', '\u{4e2d}', 'b']);
    assert_eq!(chars_of(""), Vec::<char>::new());
    assert_eq!(text_of(&c("héllo")), "héllo");
    assert_eq!(text_of_range(&c("héllo"), 1, 3), "él");
    assert_eq!(text_of_range(&c("héllo"), 2, 2), "");
    assert!(same_text("abc", "abc"));
    assert!(!same_text("abc", "abd"));
}

#[test]
fn trim_removes_outer_white_space() {
    assert_eq!(t(&trim_chars(&c("  ab c\t\n"))), "ab c");
    assert_eq!(t(&trim_chars(&c("\u{3000}x\u{a0}"))), "x");
    assert_eq!(t(&trim_chars(&c(" \t "))), "");
    assert_eq!(t(&trim_chars(&c(""))), "");
    assert_eq!(t(&trim_chars(&c("x"))), "x");
    for s in ["  ab c\t\n", "\u{2003}é \u{1680}", "\u{200b} x", "\u{85}y\u{2028}"] {
        assert_eq!(t(&trim_chars(&c(s))), s.trim());
    }
}

#[test]
fn lower_case_folds_ascii_capitals_only() {
    assert_eq!(t(&lowercase_chars(&c("LaTeST-09 É"))), "latest-09 É");
    assert_eq!(t(&lowercase_chars(&c("AZ@[az"))), "az@[az");
}

#[test]
fn occurrences_are_found() {
    assert!(check_occurs_at(&c("hello"), &c("ll"), 2));
    assert!(!check_occurs_at(&c("hello"), &c("ll"), 3));
    assert!(!check_occurs_at(&c("hello"), &c("lo"), 4));
    assert!(check_occurs_at(&c("hello"), &c(""), 5));
    assert!(!check_occurs_at(&c("hello"), &c(""), 6));
    assert!(check_starts_with(&c("ab12xy"), &c("ab12")));
    assert!(check_starts_with(&c("ab12xy"), &c("")));
    assert!(!check_starts_with(&c("ab"), &c("ab12")));
    assert!(check_ends_with(&c("/a/b/my_app"), &c("my_app")));
    assert!(!check_ends_with(&c("app"), &c("my_app")));
    assert!(check_contains(&c("Fatal: wrong password"), &c("wrong")));
    assert!(check_contains(&c("abc"), &c("")));
    assert!(check_contains(&c(""), &c("")));
    assert!(!check_contains(&c("abc"), &c("abcd")));
    assert!(!check_contains(&c("abc"), &c("bd")));
    assert!(check_contains(&c("aab"), &c("ab")));
}

#[test]
fn characters_are_searched_from_both_ends() {
    assert_eq!(find_char_from(&c("a[b[c"), '[', 0), 1);
    assert_eq!(find_char_from(&c("a[b[c"), '[', 2), 3);
    assert_eq!(find_char_from(&c("a[b[c"), '[', 4), 5);
    assert_eq!(find_last_char_before(&c("a]b]c"), ']', 5), Some(3));
    assert_eq!(find_last_char_before(&c("a]b]c"), ']', 3), Some(1));
    assert_eq!(find_last_char_before(&c("a]b]c"), ']', 1), None);
}

#[test]
fn split_keeps_empty_pieces_and_trim_pieces_drops_them() {
    let parts: Vec<String> = split_chars(&c("a, b,,c ,"), ',').iter().map(t).collect();
    assert_eq!(parts, vec!["a", " b", "", "c ", ""]);
    let parts: Vec<String> = split_chars(&c(""), ',').iter().map(t).collect();
    assert_eq!(parts, vec![""]);
    let kept: Vec<String> =
        trim_pieces(&split_chars(&c("a, b,, c ,  "), ',')).iter().map(t).collect();
    assert_eq!(kept, vec!["a", "b", "c"]);
}

#[test]
fn join_puts_the_separator_between_neighbours() {
    let v = vec!["a".to_string(), "b".to_string(), "c".to_string()];
    assert_eq!(join_texts(&v, ", "), "a, b, c");
    assert_eq!(join_texts(&vec!["a".to_string()], ", "), "a");
    assert_eq!(join_texts(&vec![], ", "), "");
    assert_eq!(join_texts(&vec!["".to_string(), "".to_string()], "-"), "-");
}

#[test]
fn numbers_are_written_in_decimal() {
    assert_eq!(decimal_text(0), "0");
    assert_eq!(decimal_text(7), "7");
    assert_eq!(decimal_text(10), "10");
    assert_eq!(decimal_text(128), "128");
    assert_eq!(decimal_text(1700000000), "1700000000");
    assert_eq!(decimal_text(u64::MAX), "18446744073709551615");
}

#[test]
fn texts_are_ordered_as_std_orders_them() {
    let samples = ["", "a", "ab", "b", "2023-01-01T00:00:00Z", "2024-06-01", "é", "z", "Z"];
    for a in samples {
        for b in samples {
            assert_eq!(check_precedes(&c(a), &c(b)), a < b, "{:?} {:?}", a, b);
        }
    }
}

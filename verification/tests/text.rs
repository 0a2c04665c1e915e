use qobine::text::{
    contains_text, copy_texts, decimal_text, remove_text, replace_text, split_by_text, split_text,
    trim_text, two_digit_text,
};

fn texts(list: &[&str]) -> Vec<String> {
    list.iter().map(|text| text.to_string()).collect()
}

#[test]
fn numbers_are_written_in_decimal() {
    assert_eq!(decimal_text(0), "0");
    assert_eq!(decimal_text(1907), "1907");
    assert_eq!(decimal_text(u128::MAX), u128::MAX.to_string());
    assert_eq!(two_digit_text(7), "07");
    assert_eq!(two_digit_text(123), "123");
}

#[test]
fn texts_are_divided() {
    assert_eq!(split_text("a..b.", '.'), texts(&["a", "", "b", ""]));
    assert_eq!(split_text("", '.'), texts(&[""]));
    assert_eq!(split_by_text("a - b - c", " - "), texts(&["a", "b", "c"]));
    assert_eq!(split_by_text("--", "--"), texts(&["", ""]));
}

#[test]
fn every_occurrence_is_replaced() {
    assert_eq!(replace_text("s/$SEGMENT$/$SEGMENT$.m4s", "$SEGMENT$", "12"), "s/12/12.m4s");
    assert_eq!(replace_text("aaa", "aa", "b"), "ba");
    assert_eq!(replace_text("none", "x", "y"), "none");
}

#[test]
fn white_space_at_the_ends_is_cut() {
    assert_eq!(trim_text(" \t a b\n\u{a0}"), "a b");
    assert_eq!(trim_text(" \r\n"), "");
}

#[test]
fn lists_of_texts_are_searched_and_thinned() {
    let mut list = texts(&["a", "b", "a"]);
    assert!(contains_text(&list, "b"));
    assert!(!contains_text(&list, "c"));
    let copy = copy_texts(&list);
    remove_text(&mut list, "a");
    assert_eq!(list, texts(&["b"]));
    assert_eq!(copy, texts(&["a", "b", "a"]));
}

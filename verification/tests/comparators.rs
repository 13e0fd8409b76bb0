use minishell::column::find_index_of_key_word;
use minishell::sort::{
    human_numeric_sort_comparator, lexicographical_sort_comparator, month_sort_comparator,
    numeric_sort_comparator,
};
use std::cmp::Ordering;

#[test]
fn test_numeric_sort_comparator() {
    assert_eq!(numeric_sort_comparator("10", "2", "10", "2", 0), Ordering::Greater);
}

#[test]
fn test_find_index_of_key_word_middle() {
    assert_eq!(find_index_of_key_word("a b c", 1), Some(2));
}

#[test]
fn test_find_index_of_key_word_beginning() {
    assert_eq!(find_index_of_key_word("a b c", 0), Some(0));
}

#[test]
fn test_compare_strings_with_column_0() {
    assert_eq!(lexicographical_sort_comparator("2 a", "2 b", 0), Ordering::Less);
}

#[test]
fn test_compare_strings_with_column_1() {
    assert_eq!(lexicographical_sort_comparator("2    a", "2  b", 1), Ordering::Less);
}

#[test]
fn test_compare_strings_with_column_when_no_column() {
    assert_eq!(lexicographical_sort_comparator("2", "2 b", 0), Ordering::Less);
}

#[test]
fn key_word_is_missing_on_a_short_line() {
    assert_eq!(find_index_of_key_word("a b c", 3), None);
    assert_eq!(find_index_of_key_word("", 0), None);
    assert_eq!(find_index_of_key_word("   \t ", 0), None);
}

#[test]
fn key_word_is_found_behind_runs_of_white_space() {
    assert_eq!(find_index_of_key_word("  ab \t cd", 0), Some(2));
    assert_eq!(find_index_of_key_word("  ab \t cd", 1), Some(7));
    assert_eq!(find_index_of_key_word("une\u{a0}\u{e9}t\u{e9}", 1), Some(4));
}

#[test]
fn lexicographic_comparison_starts_at_the_key_column() {
    assert_eq!(lexicographical_sort_comparator("z a", "a b", 1), Ordering::Less);
    assert_eq!(lexicographical_sort_comparator("z b", "a b", 1), Ordering::Equal);
    assert_eq!(lexicographical_sort_comparator("a c", "z b", 1), Ordering::Greater);
    assert_eq!(lexicographical_sort_comparator("a b c", "a b", 1), Ordering::Greater);
}

#[test]
fn numbers_are_compared_by_size() {
    assert_eq!(numeric_sort_comparator("-5", "3", "-5", "3", 0), Ordering::Less);
    assert_eq!(numeric_sort_comparator("+7", "7", "+7", "7", 0), Ordering::Less);
    assert_eq!(numeric_sort_comparator("7 b", "7 a", "7", "7", 0), Ordering::Greater);
    assert_eq!(numeric_sort_comparator("x 007", "x 7", "007", "7", 1), Ordering::Less);
    assert_eq!(
        numeric_sort_comparator("2147483647", "-2147483648", "2147483647", "-2147483648", 0),
        Ordering::Greater
    );
}

#[test]
fn a_number_beside_a_text_goes_by_its_sign() {
    assert_eq!(numeric_sort_comparator("5", "x", "5", "x", 0), Ordering::Greater);
    assert_eq!(numeric_sort_comparator("x", "5", "x", "5", 0), Ordering::Greater);
    assert_eq!(numeric_sort_comparator("0", "x", "0", "x", 0), Ordering::Less);
    assert_eq!(numeric_sort_comparator("x", "-1", "x", "-1", 0), Ordering::Less);
    assert_eq!(
        numeric_sort_comparator("2147483648", "1", "2147483648", "1", 0),
        Ordering::Greater
    );
}

#[test]
fn texts_that_are_no_numbers_are_compared_as_texts() {
    assert_eq!(numeric_sort_comparator("b", "a", "b", "a", 0), Ordering::Greater);
    assert_eq!(numeric_sort_comparator("1.5", "1.25", "1.5", "1.25", 0), Ordering::Greater);
    assert_eq!(numeric_sort_comparator("-", "+", "-", "+", 0), Ordering::Greater);
    assert_eq!(numeric_sort_comparator("", "", "", "", 0), Ordering::Equal);
}

#[test]
fn months_follow_the_calendar() {
    assert_eq!(month_sort_comparator("January", "February", 0), Ordering::Less);
    assert_eq!(month_sort_comparator("December", "March", 0), Ordering::Greater);
    assert_eq!(month_sort_comparator("May", "May", 0), Ordering::Equal);
    assert_eq!(month_sort_comparator("May", "may", 0), Ordering::Greater);
    assert_eq!(month_sort_comparator("zebra", "April", 0), Ordering::Less);
    assert_eq!(month_sort_comparator("b", "a", 0), Ordering::Greater);
    assert_eq!(month_sort_comparator("April 1", "April", 0), Ordering::Less);
}

#[test]
fn ranks_decide_before_texts() {
    assert_eq!(human_numeric_sort_comparator("1K", "999", 5, 4), Ordering::Greater);
    assert_eq!(human_numeric_sort_comparator("999", "1K", 4, 5), Ordering::Less);
    assert_eq!(human_numeric_sort_comparator("1K", "1000", 5, 5), Ordering::Greater);
    assert_eq!(human_numeric_sort_comparator("1K", "1K", -2, -2), Ordering::Equal);
}

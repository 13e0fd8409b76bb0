use minishell::cli::{Cli, Comparison};
use minishell::column::{key_word, word_end};
use minishell::human::{parse_human_numeric, power_of_suffix, rank_of_bits};
use minishell::number::{month_of, parse_i32};
use minishell::order::{order_bytes, order_texts, Order};
use minishell::sort::{from_std, order_lines, sort, to_std};
use std::cmp::Ordering;

fn options(key: usize) -> Cli {
    Cli {
        timeout: 10,
        host: String::new(),
        port: 0,
        key,
        numeric_sort: false,
        month_sort: false,
        human_numeric_sort: false,
    }
}

#[test]
fn lines_are_sorted_by_the_first_column() {
    let mut lines = vec!["pear 3", "apple 7", "fig 1"];
    sort(&mut lines, &options(1), &vec![]);
    assert_eq!(lines, vec!["apple 7", "fig 1", "pear 3"]);
}

#[test]
fn lines_are_sorted_from_the_key_column_on() {
    let mut lines = vec!["x b 2", "y a 9", "z b 1", "w a 1"];
    sort(&mut lines, &options(2), &vec![]);
    assert_eq!(lines, vec!["w a 1", "y a 9", "z b 1", "x b 2"]);
}

#[test]
fn lines_without_the_key_column_come_first() {
    let mut lines = vec!["b 2", "zebra", "a 1", "", "ant"];
    sort(&mut lines, &options(2), &vec![]);
    assert_eq!(lines, vec!["", "ant", "zebra", "a 1", "b 2"]);
}

#[test]
fn equal_lines_keep_their_order() {
    let mut lines = vec!["3 same", "1 same", "2 same", "0 other"];
    sort(&mut lines, &options(2), &vec![]);
    assert_eq!(lines, vec!["0 other", "3 same", "1 same", "2 same"]);
}

#[test]
fn numbers_are_sorted_by_size() {
    let mut cli = options(1);
    cli.numeric_sort = true;
    let mut lines = vec!["10", "9", "-3", "100", "0"];
    sort(&mut lines, &cli, &vec![]);
    assert_eq!(lines, vec!["-3", "0", "9", "10", "100"]);
    let mut lines = vec!["b 10 x", "a 9 y", "c 9 x"];
    cli.key = 2;
    sort(&mut lines, &cli, &vec![]);
    assert_eq!(lines, vec!["c 9 x", "a 9 y", "b 10 x"]);
}

#[test]
fn numeric_takes_precedence_over_the_other_comparisons() {
    let mut cli = options(1);
    cli.numeric_sort = true;
    cli.month_sort = true;
    cli.human_numeric_sort = true;
    assert_eq!(cli.comparison(), Comparison::Numeric);
    let mut lines = vec!["10", "9"];
    sort(&mut lines, &cli, &vec![1, 2]);
    assert_eq!(lines, vec!["9", "10"]);
    cli.numeric_sort = false;
    assert_eq!(cli.comparison(), Comparison::Month);
    cli.month_sort = false;
    assert_eq!(cli.comparison(), Comparison::HumanNumeric);
    cli.human_numeric_sort = false;
    assert_eq!(cli.comparison(), Comparison::Lexicographic);
}

#[test]
fn months_are_sorted_by_the_calendar() {
    let mut cli = options(1);
    cli.month_sort = true;
    let mut lines = vec!["March", "zzz", "January", "December", "aaa", "February"];
    sort(&mut lines, &cli, &vec![]);
    assert_eq!(lines, vec!["aaa", "zzz", "January", "February", "March", "December"]);
}

#[test]
fn quantities_are_sorted_by_their_ranks() {
    let mut cli = options(1);
    cli.human_numeric_sort = true;
    let mut lines = vec!["1G", "10K", "2M", "500", "10K"];
    sort(&mut lines, &cli, &vec![40, 20, 30, 10, 20]);
    assert_eq!(lines, vec!["500", "10K", "10K", "2M", "1G"]);
}

#[test]
fn quantities_of_equal_rank_are_sorted_as_texts() {
    let mut cli = options(1);
    cli.human_numeric_sort = true;
    let mut lines = vec!["1K", "1000", "0.001M"];
    sort(&mut lines, &cli, &vec![7, 7, 7]);
    assert_eq!(lines, vec!["0.001M", "1000", "1K"]);
}

#[test]
fn a_line_without_a_rank_has_rank_zero() {
    let mut cli = options(1);
    cli.human_numeric_sort = true;
    let mut lines = vec!["5", "-5", "x"];
    sort(&mut lines, &cli, &vec![3, -3]);
    assert_eq!(lines, vec!["-5", "x", "5"]);
}

#[test]
fn nothing_and_one_line_stay_as_they_are() {
    let mut lines: Vec<&str> = vec![];
    sort(&mut lines, &options(1), &vec![]);
    assert!(lines.is_empty());
    let mut lines = vec!["only"];
    sort(&mut lines, &options(3), &vec![]);
    assert_eq!(lines, vec!["only"]);
}

#[test]
fn sorting_agrees_with_a_stable_sort_of_the_standard_library() {
    let mut lines = vec![
        "m 5", "a 5", "z 1", "q", "b 3", "k 3", "", "c 9", "d 0", "e 3", "f 5", "g 1", "h 2",
        "i 8", "j 7", "l 6", "n 4",
    ];
    let cli = options(2);
    let mut expected = lines.clone();
    expected.sort_by(|a, b| to_std(order_lines(a, b, 0, 0, &cli)));
    sort(&mut lines, &cli, &vec![]);
    assert_eq!(lines, expected);
}

#[test]
fn mixed_numbers_and_texts_are_still_all_there() {
    let mut cli = options(1);
    cli.numeric_sort = true;
    let mut lines = vec!["5", "x", "-1", "y", "3"];
    sort(&mut lines, &cli, &vec![]);
    let mut found = lines.clone();
    found.sort();
    assert_eq!(found, vec!["-1", "3", "5", "x", "y"]);
}

#[test]
fn lines_are_compared_under_the_options() {
    let cli = options(2);
    assert_eq!(order_lines("a", "b c", 0, 0, &cli), Order::Less);
    assert_eq!(order_lines("b c", "a", 0, 0, &cli), Order::Greater);
    assert_eq!(order_lines("b", "a", 0, 0, &cli), Order::Greater);
    assert_eq!(order_lines("z a", "a b", 0, 0, &cli), Order::Less);
    assert_eq!(order_lines("z a", "a a", 0, 0, &cli), Order::Equal);
}

#[test]
fn orders_convert_both_ways() {
    assert_eq!(to_std(Order::Less), Ordering::Less);
    assert_eq!(to_std(Order::Equal), Ordering::Equal);
    assert_eq!(to_std(Order::Greater), Ordering::Greater);
    assert_eq!(from_std(Ordering::Less), Order::Less);
    assert_eq!(from_std(Ordering::Equal), Order::Equal);
    assert_eq!(from_std(Ordering::Greater), Order::Greater);
}

#[test]
fn bytes_are_compared_lexicographically() {
    assert_eq!(order_bytes(b"abc", 0, b"abd", 0), Order::Less);
    assert_eq!(order_bytes(b"abc", 0, b"ab", 0), Order::Greater);
    assert_eq!(order_bytes(b"xabc", 1, b"yyabc", 2), Order::Equal);
    assert_eq!(order_bytes(b"", 0, b"", 0), Order::Equal);
    assert_eq!(order_bytes(b"a", 1, b"a", 0), Order::Less);
    assert_eq!(order_texts("\u{e9}", "z"), Order::Greater);
    assert_eq!(order_texts("Z", "a"), Order::Less);
    for (a, b) in [("", "a"), ("abc", "abd"), ("b", "abc"), ("\u{e9}", "e"), ("same", "same")] {
        assert_eq!(to_std(order_texts(a, b)), a.cmp(b));
    }
}

#[test]
fn whole_numbers_are_read() {
    assert_eq!(parse_i32("0"), Some(0));
    assert_eq!(parse_i32("-0"), Some(0));
    assert_eq!(parse_i32("+12"), Some(12));
    assert_eq!(parse_i32("-12"), Some(-12));
    assert_eq!(parse_i32("007"), Some(7));
    assert_eq!(parse_i32("2147483647"), Some(2147483647));
    assert_eq!(parse_i32("-2147483648"), Some(-2147483648));
    assert_eq!(parse_i32("2147483648"), None);
    assert_eq!(parse_i32("-2147483649"), None);
    assert_eq!(parse_i32("99999999999999999999999999"), None);
    assert_eq!(parse_i32(""), None);
    assert_eq!(parse_i32("-"), None);
    assert_eq!(parse_i32("+"), None);
    assert_eq!(parse_i32("--1"), None);
    assert_eq!(parse_i32("1.5"), None);
    assert_eq!(parse_i32(" 1"), None);
    assert_eq!(parse_i32("1 "), None);
    assert_eq!(parse_i32("12a"), None);
    assert_eq!(parse_i32("\u{661}"), None);
    for text in ["0", "-0", "+5", "5+", "0005", "2147483647", "2147483648", "-2147483648", "x"] {
        assert_eq!(parse_i32(text), text.parse::<i32>().ok());
    }
}

#[test]
fn months_are_known_by_their_full_names() {
    assert_eq!(month_of("January"), Some(1));
    assert_eq!(month_of("February"), Some(2));
    assert_eq!(month_of("March"), Some(3));
    assert_eq!(month_of("April"), Some(4));
    assert_eq!(month_of("May"), Some(5));
    assert_eq!(month_of("June"), Some(6));
    assert_eq!(month_of("July"), Some(7));
    assert_eq!(month_of("August"), Some(8));
    assert_eq!(month_of("September"), Some(9));
    assert_eq!(month_of("October"), Some(10));
    assert_eq!(month_of("November"), Some(11));
    assert_eq!(month_of("December"), Some(12));
    assert_eq!(month_of("january"), None);
    assert_eq!(month_of("Jan"), None);
    assert_eq!(month_of("May "), None);
    assert_eq!(month_of(""), None);
}

#[test]
fn quantities_are_taken_apart() {
    assert_eq!(parse_human_numeric("10K"), ("10".to_string(), 3));
    assert_eq!(parse_human_numeric("1.5G"), ("1.5".to_string(), 9));
    assert_eq!(parse_human_numeric("-2M"), ("-2".to_string(), 6));
    assert_eq!(parse_human_numeric("42"), ("42".to_string(), 0));
    assert_eq!(parse_human_numeric("K"), ("".to_string(), 3));
    assert_eq!(parse_human_numeric(""), ("".to_string(), 0));
    assert_eq!(parse_human_numeric("1K2"), ("12".to_string(), 3));
    assert_eq!(parse_human_numeric("3KB"), ("3".to_string(), 0));
    assert_eq!(parse_human_numeric("7k"), ("7".to_string(), 0));
    assert_eq!(parse_human_numeric("1-2.3T"), ("1-2.3".to_string(), 12));
    assert_eq!(parse_human_numeric("5P"), ("5".to_string(), 15));
    assert_eq!(parse_human_numeric("5E"), ("5".to_string(), 18));
    assert_eq!(parse_human_numeric("5Z"), ("5".to_string(), 21));
    assert_eq!(parse_human_numeric("5Y"), ("5".to_string(), 24));
}

#[test]
fn suffixes_stand_for_powers_of_ten() {
    assert_eq!(power_of_suffix(""), 0);
    assert_eq!(power_of_suffix("K"), 3);
    assert_eq!(power_of_suffix("M"), 6);
    assert_eq!(power_of_suffix("G"), 9);
    assert_eq!(power_of_suffix("T"), 12);
    assert_eq!(power_of_suffix("X"), 0);
    assert_eq!(power_of_suffix("KK"), 0);
}

#[test]
fn a_word_ends_at_white_space_or_at_the_end() {
    assert_eq!(word_end("ab cd", 0), 2);
    assert_eq!(word_end("ab cd", 3), 5);
    assert_eq!(word_end("ab cd", 2), 2);
    assert_eq!(word_end("ab", 2), 2);
    assert_eq!(word_end("\u{e9}t\u{e9} x", 0), 3);
}

#[test]
fn key_words_are_found_by_their_number() {
    assert_eq!(key_word("alpha  beta\tgamma", 0), Some("alpha"));
    assert_eq!(key_word("alpha  beta\tgamma", 1), Some("beta"));
    assert_eq!(key_word("alpha  beta\tgamma", 2), Some("gamma"));
    assert_eq!(key_word("alpha  beta\tgamma", 3), None);
    assert_eq!(key_word("  x ", 0), Some("x"));
    assert_eq!(key_word("", 0), None);
    assert_eq!(key_word("\u{e9}t\u{e9} na\u{ef}f", 1), Some("na\u{ef}f"));
    for line in ["a b c", "  lead", "trail  ", "", " \t ", "one"] {
        let words: Vec<&str> = line.split_whitespace().collect();
        for column in 0..4 {
            assert_eq!(key_word(line, column), words.get(column).copied());
        }
    }
}

#[test]
fn ranks_order_floating_point_values() {
    let values = [
        f64::NEG_INFINITY,
        -1e24,
        -1000.5,
        -1.0,
        -1e-300,
        0.0,
        1e-300,
        0.5,
        1.0,
        999.0,
        1000.0,
        1e24,
        f64::INFINITY,
    ];
    for (i, a) in values.iter().enumerate() {
        for (j, b) in values.iter().enumerate() {
            let ranks = rank_of_bits(a.to_bits()).cmp(&rank_of_bits(b.to_bits()));
            assert_eq!(ranks, i.cmp(&j));
            assert_eq!(Some(ranks), a.partial_cmp(b));
        }
    }
    assert_eq!(rank_of_bits(0.0f64.to_bits()), 0);
    assert_eq!(rank_of_bits((-0.0f64).to_bits()), 0);
    assert_eq!(rank_of_bits(1), 1);
    assert_eq!(rank_of_bits(0x8000_0000_0000_0001), -1);
    assert_eq!(rank_of_bits(u64::MAX), -0x7fff_ffff_ffff_ffff);
    assert_eq!(rank_of_bits(0x7fff_ffff_ffff_ffff), i64::MAX);
}

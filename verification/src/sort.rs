//! Sorting lines by a key column.
//!
//! A line that lacks the key column comes before every line that has it. Lines
//! that have it are compared as the options say: as texts from the key column
//! on, as whole numbers, as names of months, or as quantities with a unit
//! suffix. The sort is stable.

use crate::cli::{Cli, Comparison};
use crate::column::{column_start, column_word, find_index_of_key_word, has_column, key_word};
use crate::number::{month_number, month_of, parse_i32, parsed_i32};
use crate::order::{byte_order, order_bytes, order_texts, text_order, Order};
use crate::text::lemma_encoding_no_shorter;
use std::cmp::Ordering;
use vstd::prelude::*;
use vstd::utf8::encode_utf8;

verus! {

/// The three-way comparison of the standard library that says the same.
pub open spec fn std_order(order: Order) -> Ordering {
    match order {
        Order::Less => Ordering::Less,
        Order::Equal => Ordering::Equal,
        Order::Greater => Ordering::Greater,
    }
}

/// Turns an order into the three-way comparison of the standard library.
pub fn to_std(order: Order) -> (result: Ordering)
    ensures
        result == std_order(order),
{
    match order {
        Order::Less => Ordering::Less,
        Order::Equal => Ordering::Equal,
        Order::Greater => Ordering::Greater,
    }
}

/// Turns a three-way comparison of the standard library into an order.
pub fn from_std(result: Ordering) -> (order: Order)
    ensures
        result == std_order(order),
{
    match result {
        Ordering::Less => Order::Less,
        Ordering::Equal => Order::Equal,
        Ordering::Greater => Order::Greater,
    }
}

/// The bytes of `s` from the offset of its key column on. The offset counts
/// the characters before the key column and is applied to the bytes of the
/// line: on a line whose characters before the key column are all ASCII, these
/// are the bytes of the line from the key column on.
pub open spec fn key_suffix(s: Seq<char>, column: usize) -> Seq<u8> {
    encode_utf8(s).skip(column_start(s, column))
}

/// The order of two lines by their texts from the key column on.
pub open spec fn lexicographic_order(a: Seq<char>, b: Seq<char>, column: usize) -> Order {
    byte_order(key_suffix(a, column), key_suffix(b, column))
}

/// The order of two lines by the whole numbers in their key columns
/// `a_value` and `b_value`.
///
/// Two different numbers are ordered by size, two equal numbers by the texts
/// of the lines from the key column on. A number beside a value that is no
/// number comes first when it is zero or negative, and last when it is
/// positive, whichever side it stands on. Two values that are no numbers are
/// ordered as texts.
pub open spec fn numeric_order(
    a: Seq<char>,
    b: Seq<char>,
    a_value: Seq<char>,
    b_value: Seq<char>,
    column: usize,
) -> Order {
    match (parsed_i32(a_value), parsed_i32(b_value)) {
        (Some(x), Some(y)) => if x == y {
            lexicographic_order(a, b, column)
        } else if x < y {
            Order::Less
        } else {
            Order::Greater
        },
        (Some(x), None) => if x <= 0 {
            Order::Less
        } else {
            Order::Greater
        },
        (None, Some(y)) => if y <= 0 {
            Order::Less
        } else {
            Order::Greater
        },
        (None, None) => text_order(a_value, b_value),
    }
}

/// The order of two lines as names of months.
///
/// A line that names a month comes after every line that names none. Two
/// months are ordered by the calendar, and two lines that name no month as
/// texts.
pub open spec fn month_order(a: Seq<char>, b: Seq<char>, column: usize) -> Order {
    match (month_number(a), month_number(b)) {
        (Some(x), Some(y)) => if x == y {
            lexicographic_order(a, b, column)
        } else if x < y {
            Order::Less
        } else {
            Order::Greater
        },
        (Some(_), None) => Order::Greater,
        (None, Some(_)) => Order::Less,
        (None, None) => text_order(a, b),
    }
}

/// The order of two lines by the ranks of the quantities in their key
/// columns; lines of equal rank are ordered as texts.
pub open spec fn human_order(a: Seq<char>, b: Seq<char>, a_rank: i64, b_rank: i64) -> Order {
    if a_rank < b_rank {
        Order::Less
    } else if a_rank > b_rank {
        Order::Greater
    } else {
        text_order(a, b)
    }
}

/// Compares two lines by their texts from the key column on.
///
/// Both lines must have the key column.
pub fn lexicographical_sort_comparator(a: &str, b: &str, column_index: usize) -> (result: Ordering)
    requires
        has_column(a@, column_index),
        has_column(b@, column_index),
    ensures
        result == std_order(lexicographic_order(a@, b@, column_index)),
{
    let from_a = find_index_of_key_word(a, column_index).unwrap();
    let from_b = find_index_of_key_word(b, column_index).unwrap();
    proof {
        lemma_encoding_no_shorter(a@);
        lemma_encoding_no_shorter(b@);
    }
    to_std(order_bytes(a.as_bytes(), from_a, b.as_bytes(), from_b))
}

/// Compares two lines by the whole numbers in their key columns, `a_value`
/// and `b_value`.
///
/// When both values are the same number, the lines are compared from the key
/// column on, and must have it.
pub fn numeric_sort_comparator(
    a: &str,
    b: &str,
    a_value: &str,
    b_value: &str,
    column_index: usize,
) -> (result: Ordering)
    requires
        parsed_i32(a_value@) is Some && parsed_i32(a_value@) == parsed_i32(b_value@) ==> has_column(
            a@,
            column_index,
        ) && has_column(b@, column_index),
    ensures
        result == std_order(numeric_order(a@, b@, a_value@, b_value@, column_index)),
{
    match (parse_i32(a_value), parse_i32(b_value)) {
        (Some(x), Some(y)) => {
            if x == y {
                lexicographical_sort_comparator(a, b, column_index)
            } else if x < y {
                Ordering::Less
            } else {
                Ordering::Greater
            }
        },
        (Some(x), None) => {
            if x <= 0 {
                Ordering::Less
            } else {
                Ordering::Greater
            }
        },
        (None, Some(y)) => {
            if y <= 0 {
                Ordering::Less
            } else {
                Ordering::Greater
            }
        },
        (None, None) => to_std(order_texts(a_value, b_value)),
    }
}

/// Compares two lines as names of months.
///
/// When both lines name the same month, they are compared from the key column
/// on, and must have it.
pub fn month_sort_comparator(a: &str, b: &str, column_index: usize) -> (result: Ordering)
    requires
        month_number(a@) is Some && month_number(a@) == month_number(b@) ==> has_column(
            a@,
            column_index,
        ) && has_column(b@, column_index),
    ensures
        result == std_order(month_order(a@, b@, column_index)),
{
    match (month_of(a), month_of(b)) {
        (Some(x), Some(y)) => {
            if x == y {
                lexicographical_sort_comparator(a, b, column_index)
            } else if x < y {
                Ordering::Less
            } else {
                Ordering::Greater
            }
        },
        (Some(_), None) => Ordering::Greater,
        (None, Some(_)) => Ordering::Less,
        (None, None) => to_std(order_texts(a, b)),
    }
}

/// Compares two lines by the ranks of the quantities in their key columns.
///
/// A rank is an integer that stands for a quantity: of two quantities the
/// smaller has the smaller rank, and equal quantities have equal ranks. The
/// caller computes the quantities and ranks them.
pub fn human_numeric_sort_comparator(a: &str, b: &str, a_rank: i64, b_rank: i64) -> (result:
    Ordering)
    ensures
        result == std_order(human_order(a@, b@, a_rank, b_rank)),
{
    if a_rank < b_rank {
        Ordering::Less
    } else if a_rank > b_rank {
        Ordering::Greater
    } else {
        to_std(order_texts(a, b))
    }
}

/// The order of two lines under the options `cli`.
///
/// A line without the key column comes before every line that has it, and two
/// lines without it are ordered as texts. Two lines that have it are ordered by
/// the comparison that the options select; `a_rank` and `b_rank` are read by
/// the human-numeric comparison only.
pub open spec fn line_order(a: Seq<char>, b: Seq<char>, a_rank: i64, b_rank: i64, cli: Cli) -> Order {
    let column = (cli.key - 1) as usize;
    if has_column(a, column) {
        if has_column(b, column) {
            match cli.selected() {
                Comparison::Numeric => numeric_order(
                    a,
                    b,
                    column_word(a, column),
                    column_word(b, column),
                    column,
                ),
                Comparison::Month => month_order(a, b, column),
                Comparison::HumanNumeric => human_order(a, b, a_rank, b_rank),
                Comparison::Lexicographic => lexicographic_order(a, b, column),
            }
        } else {
            Order::Greater
        }
    } else if has_column(b, column) {
        Order::Less
    } else {
        text_order(a, b)
    }
}

/// Compares two lines under the options `cli`, which count the key column
/// from one.
pub fn order_lines(a: &str, b: &str, a_rank: i64, b_rank: i64, cli: &Cli) -> (order: Order)
    requires
        cli.key >= 1,
    ensures
        order == line_order(a@, b@, a_rank, b_rank, *cli),
{
    let column = cli.key - 1;
    match (key_word(a, column), key_word(b, column)) {
        (Some(a_value), Some(b_value)) => match cli.comparison() {
            Comparison::Numeric => from_std(
                numeric_sort_comparator(a, b, a_value, b_value, column),
            ),
            Comparison::Month => from_std(month_sort_comparator(a, b, column)),
            Comparison::HumanNumeric => from_std(
                human_numeric_sort_comparator(a, b, a_rank, b_rank),
            ),
            Comparison::Lexicographic => from_std(
                lexicographical_sort_comparator(a, b, column),
            ),
        },
        (Some(_), None) => Order::Greater,
        (None, Some(_)) => Order::Less,
        (None, None) => order_texts(a, b),
    }
}

/// The rank of line number `i`: what `magnitudes` holds for it, and zero where
/// `magnitudes` is too short to hold anything.
pub open spec fn rank_at(magnitudes: Seq<i64>, i: int) -> i64 {
    if 0 <= i < magnitudes.len() {
        magnitudes[i]
    } else {
        0
    }
}

/// The order of line number `i` and line number `j` of `lines`.
pub open spec fn order_at(lines: Seq<&str>, magnitudes: Seq<i64>, cli: Cli, i: int, j: int) -> Order {
    line_order(lines[i]@, lines[j]@, rank_at(magnitudes, i), rank_at(magnitudes, j), cli)
}

/// Whether the comparison orders the given lines consistently: swapping two
/// lines swaps less and greater, and what is not greater than a second line,
/// which is not greater than a third, is not greater than the third.
#[verifier::opaque]
pub open spec fn consistent(lines: Seq<&str>, magnitudes: Seq<i64>, cli: Cli) -> bool {
    &&& forall|i: int, j: int|
        0 <= i < lines.len() && 0 <= j < lines.len() ==> ((#[trigger] order_at(
            lines,
            magnitudes,
            cli,
            i,
            j,
        )) == Order::Less <==> order_at(lines, magnitudes, cli, j, i) == Order::Greater)
    &&& forall|i: int, j: int, k: int|
        0 <= i < lines.len() && 0 <= j < lines.len() && 0 <= k < lines.len() && (#[trigger] order_at(
            lines,
            magnitudes,
            cli,
            i,
            j,
        )) != Order::Greater && (#[trigger] order_at(lines, magnitudes, cli, j, k))
            != Order::Greater ==> order_at(lines, magnitudes, cli, i, k) != Order::Greater
}

/// Whether line number `i` has its place before line number `j`: it is less, or
/// it is equal and stood before it.
pub open spec fn precedes(lines: Seq<&str>, magnitudes: Seq<i64>, cli: Cli, i: int, j: int) -> bool {
    order_at(lines, magnitudes, cli, i, j) == Order::Less || (order_at(lines, magnitudes, cli, i, j)
        == Order::Equal && i < j)
}

/// Whether `after` holds the lines of `before` in another arrangement, line
/// `k` of `after` being line `origin[k]` of `before`.
pub open spec fn rearranges(before: Seq<&str>, after: Seq<&str>, origin: Seq<int>) -> bool {
    &&& origin.len() == before.len()
    &&& after.len() == before.len()
    &&& forall|k: int|
        0 <= k < origin.len() ==> 0 <= #[trigger] origin[k] < before.len() && after[k]
            == before[origin[k]]
    &&& forall|k: int, l: int| 0 <= k < l < origin.len() ==> origin[k] != origin[l]
}

/// Whether the arrangement `origin` is sorted and stable: every line has its
/// place before all lines that follow it.
pub open spec fn stably_sorted(
    lines: Seq<&str>,
    magnitudes: Seq<i64>,
    cli: Cli,
    origin: Seq<int>,
) -> bool {
    forall|k: int, l: int|
        0 <= k < l < origin.len() ==> precedes(
            lines,
            magnitudes,
            cli,
            #[trigger] origin[k],
            #[trigger] origin[l],
        )
}

/// The positions in `run` as integers.
pub open spec fn positions(run: Seq<usize>) -> Seq<int> {
    run.map_values(|x: usize| x as int)
}

/// Whether `run` holds each position from `lo` up to `hi` once.
pub open spec fn covers(run: Seq<usize>, lo: int, hi: int) -> bool {
    &&& run.len() == hi - lo
    &&& forall|k: int| 0 <= k < run.len() ==> lo <= #[trigger] run[k] < hi
    &&& forall|k: int, l: int| 0 <= k < l < run.len() ==> run[k] != run[l]
}

/// Among consistently ordered lines, a line that is not greater than a second
/// one, which is not greater than a third that stood behind the first, has its
/// place before the third.
proof fn lemma_precedes_through(
    lines: Seq<&str>,
    magnitudes: Seq<i64>,
    cli: Cli,
    x: int,
    y: int,
    z: int,
)
    requires
        consistent(lines, magnitudes, cli),
        0 <= x < lines.len(),
        0 <= y < lines.len(),
        0 <= z < lines.len(),
        order_at(lines, magnitudes, cli, x, y) != Order::Greater,
        order_at(lines, magnitudes, cli, y, z) != Order::Greater,
        x < z,
    ensures
        precedes(lines, magnitudes, cli, x, z),
{
    reveal(consistent);
}

/// Among consistently ordered lines, a line that is greater than a second one
/// has the second one less than itself.
proof fn lemma_flip(lines: Seq<&str>, magnitudes: Seq<i64>, cli: Cli, x: int, y: int)
    requires
        consistent(lines, magnitudes, cli),
        0 <= x < lines.len(),
        0 <= y < lines.len(),
    ensures
        order_at(lines, magnitudes, cli, x, y) == Order::Greater <==> order_at(
            lines,
            magnitudes,
            cli,
            y,
            x,
        ) == Order::Less,
{
    reveal(consistent);
}

/// Among consistently ordered lines, a line that is less than a second one,
/// which is not greater than a third, is less than the third.
proof fn lemma_less_through(
    lines: Seq<&str>,
    magnitudes: Seq<i64>,
    cli: Cli,
    x: int,
    y: int,
    z: int,
)
    requires
        consistent(lines, magnitudes, cli),
        0 <= x < lines.len(),
        0 <= y < lines.len(),
        0 <= z < lines.len(),
        order_at(lines, magnitudes, cli, x, y) == Order::Less,
        order_at(lines, magnitudes, cli, y, z) != Order::Greater,
    ensures
        order_at(lines, magnitudes, cli, x, z) == Order::Less,
{
    reveal(consistent);
    if order_at(lines, magnitudes, cli, x, z) != Order::Less {
        assert(order_at(lines, magnitudes, cli, z, x) != Order::Greater);
        assert(order_at(lines, magnitudes, cli, y, x) != Order::Greater);
        assert(order_at(lines, magnitudes, cli, y, x) == Order::Greater);
    }
}

/// Compares line number `i` with line number `j`.
fn order_positions(lines: &Vec<&str>, magnitudes: &Vec<i64>, cli: &Cli, i: usize, j: usize) -> (order:
    Order)
    requires
        cli.key >= 1,
        i < lines.len(),
        j < lines.len(),
    ensures
        order == order_at(lines@, magnitudes@, *cli, i as int, j as int),
{
    let a_rank = if i < magnitudes.len() {
        magnitudes[i]
    } else {
        0
    };
    let b_rank = if j < magnitudes.len() {
        magnitudes[j]
    } else {
        0
    };
    order_lines(lines[i], lines[j], a_rank, b_rank, cli)
}

/// Merges two runs of positions into one. Where the lines are consistently
/// ordered and both runs are sorted, so is the result; a line of the right run
/// goes first only where it is less than the line of the left run.
fn merge(
    lines: &Vec<&str>,
    magnitudes: &Vec<i64>,
    cli: &Cli,
    left: &Vec<usize>,
    right: &Vec<usize>,
    lo: usize,
    mid: usize,
    hi: usize,
) -> (merged: Vec<usize>)
    requires
        cli.key >= 1,
        lo <= mid <= hi <= lines.len(),
        covers(left@, lo as int, mid as int),
        covers(right@, mid as int, hi as int),
        consistent(lines@, magnitudes@, *cli) ==> stably_sorted(
            lines@,
            magnitudes@,
            *cli,
            positions(left@),
        ) && stably_sorted(lines@, magnitudes@, *cli, positions(right@)),
    ensures
        covers(merged@, lo as int, hi as int),
        consistent(lines@, magnitudes@, *cli) ==> stably_sorted(
            lines@,
            magnitudes@,
            *cli,
            positions(merged@),
        ),
{
    let ghost ok = consistent(lines@, magnitudes@, *cli);
    let ghost ls = lines@;
    let ghost ms = magnitudes@;
    let mut merged: Vec<usize> = Vec::new();
    let mut i: usize = 0;
    let mut j: usize = 0;
    while i < left.len() || j < right.len()
        invariant
            cli.key >= 1,
            ls == lines@,
            ms == magnitudes@,
            ok == consistent(ls, ms, *cli),
            lo <= mid <= hi <= lines.len(),
            covers(left@, lo as int, mid as int),
            covers(right@, mid as int, hi as int),
            ok ==> stably_sorted(ls, ms, *cli, positions(left@)),
            ok ==> stably_sorted(ls, ms, *cli, positions(right@)),
            i <= left.len(),
            j <= right.len(),
            merged.len() == i + j,
            forall|k: int| 0 <= k < merged.len() ==> lo <= #[trigger] merged@[k] < hi,
            forall|k: int, l: int| 0 <= k < l < merged.len() ==> merged@[k] != merged@[l],
            forall|k: int, p: int|
                0 <= k < merged.len() && i <= p < left.len() ==> #[trigger] merged@[k]
                    != #[trigger] left@[p],
            forall|k: int, q: int|
                0 <= k < merged.len() && j <= q < right.len() ==> #[trigger] merged@[k]
                    != #[trigger] right@[q],
            ok ==> forall|k: int, l: int|
                0 <= k < l < merged.len() ==> precedes(
                    ls,
                    ms,
                    *cli,
                    #[trigger] merged@[k] as int,
                    #[trigger] merged@[l] as int,
                ),
            ok ==> forall|k: int, p: int|
                0 <= k < merged.len() && i <= p < left.len() ==> precedes(
                    ls,
                    ms,
                    *cli,
                    #[trigger] merged@[k] as int,
                    #[trigger] left@[p] as int,
                ),
            ok ==> forall|k: int, q: int|
                0 <= k < merged.len() && j <= q < right.len() ==> precedes(
                    ls,
                    ms,
                    *cli,
                    #[trigger] merged@[k] as int,
                    #[trigger] right@[q] as int,
                ),
        decreases left.len() - i + right.len() - j,
    {
        let take_left = if j >= right.len() {
            true
        } else if i >= left.len() {
            false
        } else {
            match order_positions(lines, magnitudes, cli, left[i], right[j]) {
                Order::Greater => false,
                _ => true,
            }
        };
        let ghost before = merged@;
        if take_left {
            let x = left[i];
            proof {
                if ok {
                    assert forall|p: int| i < p < left.len() implies precedes(
                        ls,
                        ms,
                        *cli,
                        x as int,
                        #[trigger] left@[p] as int,
                    ) by {
                        assert(positions(left@)[i as int] == x as int);
                        assert(positions(left@)[p] == left@[p] as int);
                    }
                    assert forall|q: int| j <= q < right.len() implies precedes(
                        ls,
                        ms,
                        *cli,
                        x as int,
                        #[trigger] right@[q] as int,
                    ) by {
                        let y = right@[j as int] as int;
                        let z = right@[q] as int;
                        if q > j {
                            assert(positions(right@)[j as int] == y);
                            assert(positions(right@)[q] == z);
                            assert(precedes(ls, ms, *cli, y, z));
                            lemma_precedes_through(ls, ms, *cli, x as int, y, z);
                        }
                    }
                }
            }
            merged.push(x);
            i = i + 1;
            proof {
                assert forall|k: int| 0 <= k < merged.len() implies lo <= #[trigger] merged@[k]
                    < hi by {
                    if k < before.len() {
                        assert(merged@[k] == before[k]);
                    }
                }
            }
        } else {
            let y = right[j];
            proof {
                if ok {
                    assert forall|q: int| j < q < right.len() implies precedes(
                        ls,
                        ms,
                        *cli,
                        y as int,
                        #[trigger] right@[q] as int,
                    ) by {
                        assert(positions(right@)[j as int] == y as int);
                        assert(positions(right@)[q] == right@[q] as int);
                    }
                    assert forall|p: int| i <= p < left.len() implies precedes(
                        ls,
                        ms,
                        *cli,
                        y as int,
                        #[trigger] left@[p] as int,
                    ) by {
                        let x = left@[i as int] as int;
                        let z = left@[p] as int;
                        assert(order_at(ls, ms, *cli, x, y as int) == Order::Greater);
                        lemma_flip(ls, ms, *cli, x, y as int);
                        assert(order_at(ls, ms, *cli, y as int, x) == Order::Less);
                        if p > i {
                            assert(positions(left@)[i as int] == x);
                            assert(positions(left@)[p] == z);
                            assert(precedes(ls, ms, *cli, x, z));
                            lemma_less_through(ls, ms, *cli, y as int, x, z);
                        }
                    }
                }
            }
            merged.push(y);
            j = j + 1;
            proof {
                assert forall|k: int| 0 <= k < merged.len() implies lo <= #[trigger] merged@[k]
                    < hi by {
                    if k < before.len() {
                        assert(merged@[k] == before[k]);
                    }
                }
            }
        }
    }
    proof {
        if ok {
            assert forall|k: int, l: int| 0 <= k < l < positions(merged@).len() implies precedes(
                ls,
                ms,
                *cli,
                #[trigger] positions(merged@)[k],
                #[trigger] positions(merged@)[l],
            ) by {
                assert(positions(merged@)[k] == merged@[k] as int);
                assert(positions(merged@)[l] == merged@[l] as int);
            }
        }
    }
    merged
}

/// The positions from `lo` up to `hi`, arranged by a stable merge sort.
fn sorted_run(lines: &Vec<&str>, magnitudes: &Vec<i64>, cli: &Cli, lo: usize, hi: usize) -> (run:
    Vec<usize>)
    requires
        cli.key >= 1,
        lo <= hi <= lines.len(),
    ensures
        covers(run@, lo as int, hi as int),
        consistent(lines@, magnitudes@, *cli) ==> stably_sorted(
            lines@,
            magnitudes@,
            *cli,
            positions(run@),
        ),
    decreases hi - lo,
{
    if hi - lo <= 1 {
        let mut run: Vec<usize> = Vec::new();
        if hi > lo {
            run.push(lo);
        }
        run
    } else {
        let mid = lo + (hi - lo) / 2;
        let left = sorted_run(lines, magnitudes, cli, lo, mid);
        let right = sorted_run(lines, magnitudes, cli, mid, hi);
        merge(lines, magnitudes, cli, &left, &right, lo, mid, hi)
    }
}

/// Sorts `lines` by the key column and the comparison that `cli` selects.
///
/// `cli.key` counts the columns from one. `magnitudes` is read by the
/// human-numeric comparison only: it holds, for each line, the rank of the
/// quantity in its key column, and a line for which it holds nothing has rank
/// zero.
///
/// The lines are rearranged, none is lost and none is added. Where the
/// comparison orders the given lines consistently, they end up sorted, and
/// lines that compare equal keep the order they came in.
pub fn sort<'a>(lines: &mut Vec<&'a str>, cli: &Cli, magnitudes: &Vec<i64>)
    requires
        cli.key >= 1,
    ensures
        exists|origin: Seq<int>|
            {
                &&& rearranges(old(lines)@, final(lines)@, origin)
                &&& consistent(old(lines)@, magnitudes@, *cli) ==> stably_sorted(
                    old(lines)@,
                    magnitudes@,
                    *cli,
                    origin,
                )
            },
{
    let run = sorted_run(lines, magnitudes, cli, 0, lines.len());
    let mut arranged: Vec<&'a str> = Vec::new();
    let mut k: usize = 0;
    while k < run.len()
        invariant
            k <= run.len(),
            covers(run@, 0, lines.len() as int),
            arranged.len() == k,
            forall|l: int| 0 <= l < k ==> arranged@[l] == lines@[#[trigger] run@[l] as int],
        decreases run.len() - k,
    {
        arranged.push(lines[run[k]]);
        k = k + 1;
    }
    proof {
        let origin = positions(run@);
        assert(rearranges(lines@, arranged@, origin));
    }
    *lines = arranged;
}

} // verus!

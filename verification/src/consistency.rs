//! When the comparison of lines is a consistent order, and what a sort leaves
//! of the lines it was given.

use crate::cli::{Cli, Comparison};
use crate::column::{column_word, has_column};
use crate::number::{month_number, parsed_i32};
use crate::order::{
    byte_order, lemma_byte_order_equal, lemma_byte_order_flip, lemma_byte_order_transitive, Order,
};
use crate::sort::{
    consistent, key_suffix, line_order, order_at, precedes, rank_at, rearranges, stably_sorted,
};
use vstd::prelude::*;
use vstd::set_lib::{lemma_int_range, lemma_len_subset, lemma_subset_equality, set_int_range};
use vstd::utf8::encode_utf8;

verus! {

/// Whether the numeric comparison meets only numbers, or no number at all, in
/// the key columns of the lines that have a key column.
pub open spec fn numbers_throughout(lines: Seq<&str>, cli: Cli) -> bool {
    let column = (cli.key - 1) as usize;
    ||| forall|i: int|
        0 <= i < lines.len() && has_column(lines[i]@, column) ==> parsed_i32(
            column_word(#[trigger] lines[i]@, column),
        ) is Some
    ||| forall|i: int|
        0 <= i < lines.len() && has_column(lines[i]@, column) ==> parsed_i32(
            column_word(#[trigger] lines[i]@, column),
        ) is None
}

/// Whether two lines can meet in a comparison that stays consistent: the
/// comparison is not the numeric one, or their key columns are both numbers
/// or both no numbers.
spec fn alike(a: Seq<char>, b: Seq<char>, cli: Cli) -> bool {
    let column = (cli.key - 1) as usize;
    cli.selected() == Comparison::Numeric && has_column(a, column) && has_column(b, column)
        ==> (parsed_i32(column_word(a, column)) is Some <==> parsed_i32(column_word(b, column))
        is Some)
}

/// Swapping two lines swaps less and greater.
proof fn lemma_line_order_flip(a: Seq<char>, b: Seq<char>, a_rank: i64, b_rank: i64, cli: Cli)
    requires
        alike(a, b, cli),
    ensures
        line_order(a, b, a_rank, b_rank, cli) == Order::Less <==> line_order(
            b,
            a,
            b_rank,
            a_rank,
            cli,
        ) == Order::Greater,
{
    let column = (cli.key - 1) as usize;
    lemma_byte_order_flip(key_suffix(a, column), key_suffix(b, column));
    lemma_byte_order_flip(encode_utf8(a), encode_utf8(b));
    lemma_byte_order_flip(
        encode_utf8(column_word(a, column)),
        encode_utf8(column_word(b, column)),
    );
}

/// A line that is not greater than a second one, which is not greater than a
/// third, is not greater than the third.
proof fn lemma_line_order_transitive(
    a: Seq<char>,
    b: Seq<char>,
    c: Seq<char>,
    a_rank: i64,
    b_rank: i64,
    c_rank: i64,
    cli: Cli,
)
    requires
        alike(a, b, cli),
        alike(b, c, cli),
        alike(a, c, cli),
        line_order(a, b, a_rank, b_rank, cli) != Order::Greater,
        line_order(b, c, b_rank, c_rank, cli) != Order::Greater,
    ensures
        line_order(a, c, a_rank, c_rank, cli) != Order::Greater,
{
    let column = (cli.key - 1) as usize;
    lemma_through(key_suffix(a, column), key_suffix(b, column), key_suffix(c, column));
    lemma_through(encode_utf8(a), encode_utf8(b), encode_utf8(c));
    lemma_through(
        encode_utf8(column_word(a, column)),
        encode_utf8(column_word(b, column)),
        encode_utf8(column_word(c, column)),
    );
    lemma_byte_order_equal(key_suffix(a, column), key_suffix(c, column));
    if month_number(a) is Some && month_number(a) == month_number(b) {
        assert(a == b);
    }
    if month_number(b) is Some && month_number(b) == month_number(c) {
        assert(b == c);
    }
}

/// The transitivity of the order of bytes, as an implication.
proof fn lemma_through(a: Seq<u8>, b: Seq<u8>, c: Seq<u8>)
    ensures
        byte_order(a, b) != Order::Greater && byte_order(b, c) != Order::Greater ==> byte_order(
            a,
            c,
        ) != Order::Greater,
{
    if byte_order(a, b) != Order::Greater && byte_order(b, c) != Order::Greater {
        lemma_byte_order_transitive(a, b, c);
    }
}

/// The lexicographic, the month and the human-numeric comparison order every
/// sequence of lines consistently, whatever the ranks.
pub proof fn lemma_comparison_is_consistent(lines: Seq<&str>, magnitudes: Seq<i64>, cli: Cli)
    requires
        cli.selected() != Comparison::Numeric,
    ensures
        consistent(lines, magnitudes, cli),
{
    reveal(consistent);
    assert forall|i: int, j: int| 0 <= i < lines.len() && 0 <= j < lines.len() implies ((
    #[trigger] order_at(lines, magnitudes, cli, i, j)) == Order::Less <==> order_at(
        lines,
        magnitudes,
        cli,
        j,
        i,
    ) == Order::Greater) by {
        lemma_line_order_flip(
            lines[i]@,
            lines[j]@,
            rank_at(magnitudes, i),
            rank_at(magnitudes, j),
            cli,
        );
    }
    assert forall|i: int, j: int, k: int|
        0 <= i < lines.len() && 0 <= j < lines.len() && 0 <= k < lines.len() && (
        #[trigger] order_at(lines, magnitudes, cli, i, j)) != Order::Greater && (
        #[trigger] order_at(lines, magnitudes, cli, j, k)) != Order::Greater implies order_at(
        lines,
        magnitudes,
        cli,
        i,
        k,
    ) != Order::Greater by {
        lemma_line_order_transitive(
            lines[i]@,
            lines[j]@,
            lines[k]@,
            rank_at(magnitudes, i),
            rank_at(magnitudes, j),
            rank_at(magnitudes, k),
            cli,
        );
    }
}

/// The numeric comparison orders a sequence of lines consistently where the
/// key columns are numbers throughout, or no numbers throughout. It is not
/// consistent on lines that mix the two: a positive number is greater than a
/// text, and the text is greater than the number as well.
pub proof fn lemma_numeric_is_consistent(lines: Seq<&str>, magnitudes: Seq<i64>, cli: Cli)
    requires
        cli.selected() == Comparison::Numeric,
        numbers_throughout(lines, cli),
    ensures
        consistent(lines, magnitudes, cli),
{
    reveal(consistent);
    assert forall|i: int, j: int| 0 <= i < lines.len() && 0 <= j < lines.len() implies alike(
        #[trigger] lines[i]@,
        #[trigger] lines[j]@,
        cli,
    ) by {}
    assert forall|i: int, j: int| 0 <= i < lines.len() && 0 <= j < lines.len() implies ((
    #[trigger] order_at(lines, magnitudes, cli, i, j)) == Order::Less <==> order_at(
        lines,
        magnitudes,
        cli,
        j,
        i,
    ) == Order::Greater) by {
        assert(alike(lines[i]@, lines[j]@, cli));
        lemma_line_order_flip(
            lines[i]@,
            lines[j]@,
            rank_at(magnitudes, i),
            rank_at(magnitudes, j),
            cli,
        );
    }
    assert forall|i: int, j: int, k: int|
        0 <= i < lines.len() && 0 <= j < lines.len() && 0 <= k < lines.len() && (
        #[trigger] order_at(lines, magnitudes, cli, i, j)) != Order::Greater && (
        #[trigger] order_at(lines, magnitudes, cli, j, k)) != Order::Greater implies order_at(
        lines,
        magnitudes,
        cli,
        i,
        k,
    ) != Order::Greater by {
        assert(alike(lines[i]@, lines[j]@, cli));
        assert(alike(lines[j]@, lines[k]@, cli));
        assert(alike(lines[i]@, lines[k]@, cli));
        lemma_line_order_transitive(
            lines[i]@,
            lines[j]@,
            lines[k]@,
            rank_at(magnitudes, i),
            rank_at(magnitudes, j),
            rank_at(magnitudes, k),
            cli,
        );
    }
}

/// A rearrangement loses no line: every line of the sequence before has a
/// place in the sequence after.
pub proof fn lemma_every_line_is_kept(
    before: Seq<&str>,
    after: Seq<&str>,
    origin: Seq<int>,
    i: int,
) -> (k: int)
    requires
        rearranges(before, after, origin),
        0 <= i < before.len(),
    ensures
        0 <= k < after.len(),
        origin[k] == i,
        after[k] == before[i],
{
    let n = before.len() as int;
    let places = origin.to_set();
    let all = set_int_range(0, n);
    lemma_int_range(0, n);
    assert(origin.no_duplicates());
    origin.unique_seq_to_set();
    assert(places.subset_of(all)) by {
        assert forall|x: int| places.contains(x) implies all.contains(x) by {
            let k = choose|k: int| 0 <= k < origin.len() && origin[k] == x;
            assert(0 <= origin[k] < n);
        }
    }
    lemma_len_subset(places, all);
    lemma_subset_equality(places, all);
    assert(all.contains(i));
    assert(places.contains(i));
    choose|k: int| 0 <= k < origin.len() && origin[k] == i
}

/// The lines that have their place before line number `x`.
spec fn lines_before(lines: Seq<&str>, magnitudes: Seq<i64>, cli: Cli, x: int) -> Set<int> {
    Set::new(|y: int| 0 <= y < lines.len() && precedes(lines, magnitudes, cli, y, x))
}

/// Among consistently ordered lines, no two lines have their place before each
/// other, and no line has its place before itself.
proof fn lemma_precedes_one_way(lines: Seq<&str>, magnitudes: Seq<i64>, cli: Cli, x: int, y: int)
    requires
        consistent(lines, magnitudes, cli),
        0 <= x < lines.len(),
        0 <= y < lines.len(),
    ensures
        !(precedes(lines, magnitudes, cli, x, y) && precedes(lines, magnitudes, cli, y, x)),
{
    reveal(consistent);
}

/// In a sorted and stable arrangement of consistently ordered lines, the lines
/// that have their place before the line at place `m` are the lines at the
/// places before `m`, and so there are `m` of them.
proof fn lemma_place_counts_lines_before(
    lines: Seq<&str>,
    magnitudes: Seq<i64>,
    cli: Cli,
    after: Seq<&str>,
    origin: Seq<int>,
    m: int,
)
    requires
        consistent(lines, magnitudes, cli),
        rearranges(lines, after, origin),
        stably_sorted(lines, magnitudes, cli, origin),
        0 <= m < origin.len(),
    ensures
        lines_before(lines, magnitudes, cli, origin[m]).finite(),
        lines_before(lines, magnitudes, cli, origin[m]).len() == m,
{
    let front = origin.take(m);
    let found = lines_before(lines, magnitudes, cli, origin[m]);
    assert(front.no_duplicates());
    front.unique_seq_to_set();
    assert forall|y: int| front.to_set().contains(y) implies found.contains(y) by {
        let j = choose|j: int| 0 <= j < front.len() && front[j] == y;
        assert(origin[j] == y);
        assert(precedes(lines, magnitudes, cli, origin[j], origin[m]));
    }
    assert forall|y: int| found.contains(y) implies front.to_set().contains(y) by {
        let j = lemma_every_line_is_kept(lines, after, origin, y);
        lemma_precedes_one_way(lines, magnitudes, cli, y, origin[m]);
        if j >= m {
            if j > m {
                assert(precedes(lines, magnitudes, cli, origin[m], origin[j]));
            }
            assert(false);
        }
        assert(front[j] == y);
    }
    assert(found =~= front.to_set());
    vstd::seq_lib::seq_to_set_is_finite(front);
}

/// A consistent comparison leaves one sorted and stable arrangement only: two
/// arrangements of the same lines that are both sorted and stable are the same
/// arrangement.
pub proof fn lemma_sorted_arrangement_is_unique(
    lines: Seq<&str>,
    magnitudes: Seq<i64>,
    cli: Cli,
    first: Seq<&str>,
    first_origin: Seq<int>,
    second: Seq<&str>,
    second_origin: Seq<int>,
)
    requires
        consistent(lines, magnitudes, cli),
        rearranges(lines, first, first_origin),
        stably_sorted(lines, magnitudes, cli, first_origin),
        rearranges(lines, second, second_origin),
        stably_sorted(lines, magnitudes, cli, second_origin),
    ensures
        first_origin == second_origin,
        first == second,
{
    assert forall|k: int| 0 <= k < first_origin.len() implies first_origin[k]
        == second_origin[k] by {
        let x = second_origin[k];
        let m = lemma_every_line_is_kept(lines, first, first_origin, x);
        lemma_place_counts_lines_before(lines, magnitudes, cli, first, first_origin, m);
        lemma_place_counts_lines_before(lines, magnitudes, cli, second, second_origin, k);
    }
    assert(first_origin =~= second_origin);
    assert forall|k: int| 0 <= k < first.len() implies first[k] == second[k] by {
        assert(first[k] == lines[first_origin[k]]);
        assert(second[k] == lines[second_origin[k]]);
    }
    assert(first =~= second);
}

} // verus!

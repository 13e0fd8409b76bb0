//! The columns of a line: its words, counted from the left, and where each of
//! them begins.

use crate::text::{
    is_space, lemma_encoding_no_shorter, lemma_word_len_run, skip_word, to_chars, word_len, words,
};
use vstd::prelude::*;

verus! {

/// Whether a word of `s` begins at position `i`: a character that is not white
/// space stands there, at the front of `s` or behind white space.
pub open spec fn is_word_start(s: Seq<char>, i: int) -> bool {
    0 <= i < s.len() && !is_space(s[i]) && (i == 0 || is_space(s[i - 1]))
}

/// How many words of `s` begin before position `end`.
pub open spec fn words_before(s: Seq<char>, end: int) -> nat
    decreases end,
{
    if end <= 0 {
        0
    } else {
        words_before(s, end - 1) + if is_word_start(s, end - 1) {
            1nat
        } else {
            0nat
        }
    }
}

/// How many words `s` has.
pub open spec fn word_count(s: Seq<char>) -> nat {
    words_before(s, s.len() as int)
}

/// Whether `s` has a word number `column`, counting from zero.
pub open spec fn has_column(s: Seq<char>, column: usize) -> bool {
    word_count(s) > column
}

/// Where word number `number` of `s` begins, counting words and characters
/// from zero.
pub open spec fn word_start(s: Seq<char>, number: int) -> int {
    choose|i: int| is_word_start(s, i) && words_before(s, i) == number
}

/// The word of `s` that begins at position `start`.
pub open spec fn word_at(s: Seq<char>, start: int) -> Seq<char> {
    s.subrange(start, start + word_len(s.skip(start)))
}

/// Where word number `column` of `s` begins, counting words and characters from
/// zero.
pub open spec fn column_start(s: Seq<char>, column: usize) -> int {
    word_start(s, column as int)
}

/// Word number `column` of `s`.
pub open spec fn column_word(s: Seq<char>, column: usize) -> Seq<char> {
    word_at(s, column_start(s, column))
}

/// The count of words that begin before a position never falls as the position
/// moves right, and it steps up behind each start of a word.
pub proof fn lemma_words_before_grows(s: Seq<char>, i: int, j: int)
    requires
        i <= j,
    ensures
        words_before(s, i) <= words_before(s, j),
        is_word_start(s, i) && i < j ==> words_before(s, i) < words_before(s, j),
    decreases j - i,
{
    if i < j {
        lemma_words_before_grows(s, i, j - 1);
        if i == j - 1 {
            assert(words_before(s, j) == words_before(s, i) + if is_word_start(s, i) {
                1nat
            } else {
                0nat
            });
        }
    }
}

/// No two words share a number: a start of a word is known by the count of the
/// words before it.
pub proof fn lemma_word_start_is_unique(s: Seq<char>, i: int, j: int)
    requires
        is_word_start(s, i),
        is_word_start(s, j),
        words_before(s, i) == words_before(s, j),
    ensures
        i == j,
{
    if i < j {
        lemma_words_before_grows(s, i, j);
    } else if j < i {
        lemma_words_before_grows(s, j, i);
    }
}

/// A line with more than `column` words has a word of that number, and no
/// other line has.
pub proof fn lemma_column_exists(s: Seq<char>, column: usize)
    ensures
        has_column(s, column) <==> exists|i: int|
            is_word_start(s, i) && words_before(s, i) == column,
        has_column(s, column) ==> is_word_start(s, column_start(s, column)) && words_before(
            s,
            column_start(s, column),
        ) == column,
{
    if has_column(s, column) {
        let i = lemma_find_start(s, s.len() as int, column as nat);
        assert(is_word_start(s, i) && words_before(s, i) == column);
    }
    if exists|i: int| is_word_start(s, i) && words_before(s, i) == column {
        let i = choose|i: int| is_word_start(s, i) && words_before(s, i) == column;
        lemma_words_before_grows(s, i, s.len() as int);
    }
}

/// Among the positions before `end`, the start of word number `column` can be
/// found whenever more than `column` words begin before `end`.
proof fn lemma_find_start(s: Seq<char>, end: int, column: nat) -> (i: int)
    requires
        words_before(s, end) > column,
    ensures
        is_word_start(s, i),
        words_before(s, i) == column,
        i < end,
    decreases end,
{
    if words_before(s, end - 1) > column {
        lemma_find_start(s, end - 1, column)
    } else {
        end - 1
    }
}

/// Finds where word number `key` of `line` begins, counting words and
/// characters from zero. There is no such position when the line has no more
/// than `key` words.
pub fn find_index_of_key_word(line: &str, key: usize) -> (found: Option<usize>)
    ensures
        match found {
            Some(i) => is_word_start(line@, i as int) && words_before(line@, i as int) == key,
            None => !has_column(line@, key),
        },
        found is Some <==> has_column(line@, key),
        found is Some ==> found->Some_0 == column_start(line@, key),
{
    let limit = line.as_bytes().len();
    proof {
        lemma_encoding_no_shorter(line@);
        lemma_column_exists(line@, key);
    }
    let mut is_word = false;
    let mut left: usize = key;
    let mut i: usize = 0;
    for c in it: line.chars()
        invariant
            it.seq() == line@,
            i == it.index(),
            line@.len() <= limit,
            left + words_before(line@, i as int) == key,
            is_word == (i > 0 && !is_space(line@[i - 1])),
            has_column(line@, key) <==> exists|i: int|
                is_word_start(line@, i) && words_before(line@, i) == key,
            has_column(line@, key) ==> is_word_start(line@, column_start(line@, key))
                && words_before(line@, column_start(line@, key)) == key,
    {
        if c.is_whitespace() {
            is_word = false;
        } else if !is_word {
            is_word = true;
            if left == 0 {
                proof {
                    assert(is_word_start(line@, i as int));
                    lemma_word_start_is_unique(line@, i as int, column_start(line@, key));
                }
                return Some(i);
            }
            left = left - 1;
        }
        i = i + 1;
    }
    None
}

/// The end of the word that begins at character `start` of `line`.
pub fn word_end(line: &str, start: usize) -> (end: usize)
    requires
        start <= line@.len(),
    ensures
        end == start + word_len(line@.skip(start as int)),
        start <= end <= line@.len(),
{
    let chars = to_chars(line);
    skip_word(&chars, start)
}

/// Word number `column` of `line`, counting from zero, if the line has so many
/// words.
pub fn key_word<'a>(line: &'a str, column: usize) -> (word: Option<&'a str>)
    ensures
        match word {
            Some(found) => has_column(line@, column) && found@ == column_word(line@, column),
            None => !has_column(line@, column),
        },
{
    match find_index_of_key_word(line, column) {
        Some(start) => Some(line.substring_char(start, word_end(line, start))),
        None => None,
    }
}

/// Inside and right behind a word that begins at `start`, one more word has
/// begun than before `start`.
proof fn lemma_one_start_per_word(s: Seq<char>, start: int, end: int)
    requires
        is_word_start(s, start),
        start < end <= s.len(),
        forall|j: int| start <= j < end ==> !is_space(#[trigger] s[j]),
    ensures
        words_before(s, end) == words_before(s, start) + 1,
    decreases end - start,
{
    if end > start + 1 {
        lemma_one_start_per_word(s, start, end - 1);
        assert(!is_space(s[end - 2]));
    }
}

/// Whether word number `j` among the words of `s` from `from` on is the word
/// of `s` that has `j` more words before it than begin before `from`.
spec fn word_matches(s: Seq<char>, from: int, j: int) -> bool {
    let i = word_start(s, words_before(s, from) + j);
    &&& is_word_start(s, i)
    &&& words_before(s, i) == words_before(s, from) + j
    &&& words(s.skip(from))[j] == word_at(s, i)
}

/// The words of `s` from a position on that stands at the front of `s` or
/// behind white space are the words of `s` that begin at or after that
/// position, one for each start of a word.
proof fn lemma_words_from(s: Seq<char>, from: int)
    requires
        0 <= from <= s.len(),
        from == 0 || is_space(s[from - 1]),
    ensures
        words(s.skip(from)).len() == word_count(s) - words_before(s, from),
        forall|j: int| 0 <= j < words(s.skip(from)).len() ==> word_matches(s, from, j),
    decreases s.len() - from,
{
    let rest = s.skip(from);
    lemma_words_before_grows(s, from, s.len() as int);
    if from == s.len() {
        assert(rest.len() == 0);
        assert(words(rest).len() == 0);
    } else if is_space(s[from]) {
        assert(rest[0] == s[from]);
        assert(rest.drop_first() =~= s.skip(from + 1));
        lemma_words_from(s, from + 1);
        assert(words(rest) == words(s.skip(from + 1)));
        assert(words_before(s, from + 1) == words_before(s, from));
        assert forall|j: int| 0 <= j < words(rest).len() implies word_matches(s, from, j) by {
            assert(word_matches(s, from + 1, j));
        }
    } else {
        assert(rest[0] == s[from]);
        assert(is_word_start(s, from));
        lemma_word_len_run(rest);
        let n = word_len(rest) as int;
        let end = from + n;
        assert forall|j: int| from <= j < end implies !is_space(#[trigger] s[j]) by {
            assert(rest[j - from] == s[j]);
        }
        lemma_one_start_per_word(s, from, end);
        assert(rest.take(n) =~= word_at(s, from));
        assert(rest.skip(n) =~= s.skip(end));
        let later = words(s.skip(end));
        assert(words(rest) == seq![rest.take(n)] + later);
        if end < s.len() {
            assert(rest[n] == s[end]);
            assert(s.skip(end)[0] == s[end]);
            assert(s.skip(end).drop_first() =~= s.skip(end + 1));
            lemma_words_from(s, end + 1);
            assert(later == words(s.skip(end + 1)));
            assert(words_before(s, end + 1) == words_before(s, end));
        } else {
            assert(s.skip(end).len() == 0);
            assert(later.len() == 0);
        }
        assert forall|j: int| 0 <= j < words(rest).len() implies word_matches(s, from, j) by {
            let i = word_start(s, words_before(s, from) + j);
            if j == 0 {
                assert(is_word_start(s, from) && words_before(s, from) == words_before(s, from)
                    + 0);
                lemma_word_start_is_unique(s, i, from);
            } else {
                assert(words(rest)[j] == later[j - 1]);
                assert(word_matches(s, end + 1, j - 1));
                assert(words_before(s, end + 1) + (j - 1) == words_before(s, from) + j);
            }
        }
    }
}

/// The columns of a line are its words: a line has a column exactly when it
/// has a word of that number, and the column is that word.
pub proof fn lemma_columns_are_words(s: Seq<char>, column: usize)
    ensures
        has_column(s, column) <==> column < words(s).len(),
        has_column(s, column) ==> column_word(s, column) == words(s)[column as int],
{
    lemma_words_from(s, 0);
    assert(s.skip(0) =~= s);
    if has_column(s, column) {
        assert(word_matches(s, 0, column as int));
    }
}

} // verus!

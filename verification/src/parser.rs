//! From one line of input to the token sequences of its stages.

use crate::error::ShellError;
use crate::text::{
    is_blank, is_solid, leading_spaces, lemma_leading_spaces, lemma_leading_spaces_run,
    lemma_trailing_is_short, lemma_words_are_solid, split_whitespace, to_chars, trim, trimmed,
    trimmed_start, words,
};
use vstd::prelude::*;

verus! {

/// Whether the separator of stages, a bar between two blanks, stands at
/// position `i` of `s`.
pub open spec fn separator_at(s: Seq<char>, i: int) -> bool {
    0 <= i && i + 3 <= s.len() && s[i] == ' ' && s[i + 1] == '|' && s[i + 2] == ' '
}

/// Position of the leftmost separator in `s`; the length of `s` when it holds
/// none.
pub open spec fn first_separator(s: Seq<char>) -> int
    decreases s.len(),
{
    if s.len() == 0 || separator_at(s, 0) {
        0
    } else {
        1 + first_separator(s.drop_first())
    }
}

/// The pieces of `s` between its separators, found from left to right. A
/// separator is taken where it is first met, and the search goes on behind it,
/// so that separators never share a blank.
pub open spec fn segments(s: Seq<char>) -> Seq<Seq<char>>
    decreases s.len(),
{
    let i = first_separator(s);
    if 0 <= i && i + 3 <= s.len() {
        seq![s.take(i)] + segments(s.skip(i + 3))
    } else {
        seq![s]
    }
}

/// The stages of a line: the words of each piece between separators, after the
/// line has lost the white space around it.
pub open spec fn pipeline(line: Seq<char>) -> Seq<Seq<Seq<char>>> {
    segments(trimmed(line)).map_values(|piece: Seq<char>| words(piece))
}

/// Whether every token of every stage is a word: not empty, and without white
/// space.
pub open spec fn all_solid(stages: Seq<Seq<Seq<char>>>) -> bool {
    forall|i: int, j: int|
        0 <= i < stages.len() && 0 <= j < stages[i].len() ==> is_solid(#[trigger] stages[i][j])
}

/// The tokens of a parsed line are words: none is empty, and none holds white
/// space.
pub proof fn lemma_pipeline_is_solid(line: Seq<char>)
    ensures
        all_solid(pipeline(line)),
{
    let pieces = segments(trimmed(line));
    assert forall|i: int, j: int|
        0 <= i < pipeline(line).len() && 0 <= j < pipeline(line)[i].len() implies is_solid(
        #[trigger] pipeline(line)[i][j],
    ) by {
        assert(pipeline(line)[i] == words(pieces[i]));
        lemma_words_are_solid(pieces[i]);
    }
}

/// A position before which no separator begins, and at which one begins unless
/// it is the end, is the position of the leftmost separator.
pub proof fn lemma_first_separator(s: Seq<char>, k: int)
    requires
        0 <= k <= s.len(),
        forall|j: int| 0 <= j < k ==> !separator_at(s, j),
        k == s.len() || separator_at(s, k),
    ensures
        first_separator(s) == k,
    decreases k,
{
    if k > 0 {
        let t = s.drop_first();
        assert forall|j: int| 0 <= j < k - 1 implies !separator_at(t, j) by {
            assert(!separator_at(s, j + 1));
            if 0 <= j && j + 3 <= t.len() {
                assert(t[j] == s[j + 1]);
                assert(t[j + 1] == s[j + 2]);
                assert(t[j + 2] == s[j + 3]);
            }
        }
        if k < s.len() {
            assert(t[k - 1] == s[k]);
            assert(t[k] == s[k + 1]);
            assert(t[k + 1] == s[k + 2]);
        }
        assert(!separator_at(s, 0));
        lemma_first_separator(t, k - 1);
    }
}

/// A line is blank exactly when nothing is left of it after trimming.
pub proof fn lemma_blank_iff_trimmed_empty(s: Seq<char>)
    ensures
        is_blank(s) <==> trimmed(s).len() == 0,
{
    lemma_leading_spaces_run(s);
    let k = leading_spaces(s) as int;
    let rest = trimmed_start(s);
    if is_blank(s) {
        lemma_leading_spaces(s, s.len() as int);
        assert(rest.len() == 0);
    } else {
        if k == s.len() {
            assert(is_blank(s));
        }
        assert(rest.len() > 0);
        assert(rest[0] == s[k]);
        lemma_trailing_is_short(rest);
    }
}

/// The pieces of `s` between the separators of stages.
pub fn split_stages<'a>(s: &'a str) -> (pieces: Vec<&'a str>)
    ensures
        pieces.deep_view() == segments(s@),
{
    let chars = to_chars(s);
    let n = chars.len();
    let mut pieces: Vec<&'a str> = Vec::new();
    let mut start: usize = 0;
    let mut at: usize = 0;
    proof {
        assert(s@.skip(0) =~= s@);
        assert(pieces.deep_view() =~= Seq::<Seq<char>>::empty());
    }
    while at < n && n - at >= 3
        invariant
            chars@ == s@,
            n == chars.len(),
            start <= at <= n,
            forall|j: int| 0 <= j < at - start ==> !separator_at(s@.skip(start as int), j),
            segments(s@) == pieces.deep_view() + segments(s@.skip(start as int)),
        decreases n - at,
    {
        let ghost rest = s@.skip(start as int);
        if chars[at] == ' ' && chars[at + 1] == '|' && chars[at + 2] == ' ' {
            let piece = s.substring_char(start, at);
            proof {
                let k = at - start;
                assert(rest[k] == s@[at as int]);
                assert(rest[k + 1] == s@[at + 1]);
                assert(rest[k + 2] == s@[at + 2]);
                assert(separator_at(rest, k));
                lemma_first_separator(rest, k);
                assert(rest.take(k) =~= s@.subrange(start as int, at as int));
                assert(rest.skip(k + 3) =~= s@.skip(at + 3));
            }
            let ghost before = pieces.deep_view();
            pieces.push(piece);
            proof {
                assert(pieces.deep_view() =~= before.push(piece@));
                assert(before.push(piece@) + segments(s@.skip(at + 3)) =~= before + (seq![piece@]
                    + segments(s@.skip(at + 3))));
            }
            start = at + 3;
            at = start;
        } else {
            proof {
                let k = at - start;
                if separator_at(rest, k) {
                    assert(rest[k] == s@[at as int]);
                    assert(rest[k + 1] == s@[at + 1]);
                    assert(rest[k + 2] == s@[at + 2]);
                }
            }
            at = at + 1;
        }
    }
    let piece = s.substring_char(start, n);
    proof {
        let rest = s@.skip(start as int);
        assert forall|j: int| 0 <= j < rest.len() implies !separator_at(rest, j) by {
            if j >= at - start {
                assert(j + 3 > rest.len());
            }
        }
        lemma_first_separator(rest, rest.len() as int);
        assert(rest =~= s@.subrange(start as int, n as int));
    }
    let ghost before = pieces.deep_view();
    pieces.push(piece);
    proof {
        assert(pieces.deep_view() =~= before.push(piece@));
    }
    pieces
}

/// Owned copies of the words of `piece`.
fn tokens_of(piece: &str) -> (tokens: Vec<String>)
    ensures
        tokens.deep_view() == words(piece@),
{
    let parts = split_whitespace(piece);
    let mut tokens: Vec<String> = Vec::new();
    let mut i: usize = 0;
    while i < parts.len()
        invariant
            i <= parts.len(),
            tokens.deep_view() == parts.deep_view().take(i as int),
        decreases parts.len() - i,
    {
        let ghost before = tokens.deep_view();
        tokens.push(parts[i].to_owned());
        proof {
            assert(tokens.deep_view() =~= before.push(parts@[i as int]@));
            assert(before.push(parts@[i as int]@) =~= parts.deep_view().take(i + 1));
        }
        i = i + 1;
    }
    proof {
        assert(parts.deep_view().take(i as int) =~= parts.deep_view());
    }
    tokens
}

/// Parses one line into the token sequences of its stages.
///
/// The line is trimmed; a blank line is refused as empty input. What is left is
/// cut at each separator of stages, and every piece is cut into its words. No
/// quoting or escaping is known.
pub fn parse_line(line: &str) -> (parsed: Result<Vec<Vec<String>>, ShellError>)
    ensures
        match parsed {
            Ok(stages) => !is_blank(line@) && stages.deep_view() == pipeline(line@),
            Err(error) => is_blank(line@) && error == ShellError::EmptyInput,
        },
{
    let text = trim(line);
    proof {
        lemma_blank_iff_trimmed_empty(line@);
    }
    if text.is_empty() {
        return Err(ShellError::EmptyInput);
    }
    let pieces = split_stages(text);
    let mut stages: Vec<Vec<String>> = Vec::new();
    let mut i: usize = 0;
    while i < pieces.len()
        invariant
            i <= pieces.len(),
            pieces.deep_view() == segments(trimmed(line@)),
            stages.deep_view() == pipeline(line@).take(i as int),
        decreases pieces.len() - i,
    {
        let tokens = tokens_of(pieces[i]);
        let ghost before = stages.deep_view();
        proof {
            assert(pieces.deep_view()[i as int] == pieces@[i as int]@);
        }
        stages.push(tokens);
        proof {
            assert(stages.deep_view() =~= before.push(tokens.deep_view()));
            assert(before.push(tokens.deep_view()) =~= pipeline(line@).take(i + 1));
        }
        i = i + 1;
    }
    proof {
        assert(pipeline(line@).take(i as int) =~= pipeline(line@));
    }
    Ok(stages)
}

} // verus!

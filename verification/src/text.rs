//! Text primitives shared by the line parser and the line sorter: white space,
//! trimming, words and their positions, all stated over sequences of characters.

use vstd::prelude::*;
use vstd::utf8::{encode_utf8, encode_utf8_decode_utf8};

verus! {

/// The characters that Unicode classes as `White_Space`.
pub open spec fn is_space(c: char) -> bool {
    ||| c == ' '
    ||| '\u{9}' <= c <= '\u{d}'
    ||| c == '\u{85}'
    ||| c == '\u{a0}'
    ||| c == '\u{1680}'
    ||| '\u{2000}' <= c <= '\u{200a}'
    ||| c == '\u{2028}'
    ||| c == '\u{2029}'
    ||| c == '\u{202f}'
    ||| c == '\u{205f}'
    ||| c == '\u{3000}'
}

/// `char::is_whitespace` of the standard library, which is documented to answer
/// whether the Unicode character database classes a character as `White_Space`.
/// The contract spells that class out as the list of its code points. Nothing
/// of this is proved here.
pub assume_specification[ char::is_whitespace ](c: char) -> (b: bool)
    ensures
        b == is_space(c),
;

/// How many white-space characters stand at the front of `s`.
pub open spec fn leading_spaces(s: Seq<char>) -> nat
    decreases s.len(),
{
    if s.len() > 0 && is_space(s[0]) {
        1 + leading_spaces(s.drop_first())
    } else {
        0
    }
}

/// How many white-space characters stand at the back of `s`.
pub open spec fn trailing_spaces(s: Seq<char>) -> nat
    decreases s.len(),
{
    if s.len() > 0 && is_space(s.last()) {
        1 + trailing_spaces(s.drop_last())
    } else {
        0
    }
}

/// Length of the word at the front of `s`: the characters before the first
/// white space.
pub open spec fn word_len(s: Seq<char>) -> nat
    decreases s.len(),
{
    if s.len() > 0 && !is_space(s[0]) {
        1 + word_len(s.drop_first())
    } else {
        0
    }
}

/// `s` without its leading white space.
pub open spec fn trimmed_start(s: Seq<char>) -> Seq<char> {
    s.skip(leading_spaces(s) as int)
}

/// `s` without its trailing white space.
pub open spec fn trimmed_end(s: Seq<char>) -> Seq<char> {
    s.take(s.len() - trailing_spaces(s))
}

/// `s` without leading and trailing white space.
pub open spec fn trimmed(s: Seq<char>) -> Seq<char> {
    trimmed_end(trimmed_start(s))
}

/// A line is blank when it holds nothing but white space.
pub open spec fn is_blank(s: Seq<char>) -> bool {
    forall|i: int| 0 <= i < s.len() ==> is_space(#[trigger] s[i])
}

/// The words of `s`: its maximal runs of characters that are not white space,
/// from left to right.
pub open spec fn words(s: Seq<char>) -> Seq<Seq<char>>
    decreases s.len(),
{
    if s.len() == 0 {
        Seq::empty()
    } else if is_space(s[0]) {
        words(s.drop_first())
    } else {
        let n = word_len(s) as int;
        if 0 < n <= s.len() {
            seq![s.take(n)] + words(s.skip(n))
        } else {
            Seq::empty()
        }
    }
}

/// A run of white space of length `k` is the whole leading white space when the
/// character after it, if there is one, is not white space.
pub proof fn lemma_leading_spaces(s: Seq<char>, k: int)
    requires
        0 <= k <= s.len(),
        forall|j: int| 0 <= j < k ==> is_space(#[trigger] s[j]),
        k == s.len() || !is_space(s[k]),
    ensures
        leading_spaces(s) == k,
    decreases k,
{
    if k > 0 {
        let t = s.drop_first();
        assert forall|j: int| 0 <= j < k - 1 implies is_space(#[trigger] t[j]) by {
            assert(t[j] == s[j + 1]);
        }
        lemma_leading_spaces(t, k - 1);
    }
}

/// The mirror image of [`lemma_leading_spaces`] for the back of the sequence.
pub proof fn lemma_trailing_spaces(s: Seq<char>, k: int)
    requires
        0 <= k <= s.len(),
        forall|j: int| s.len() - k <= j < s.len() ==> is_space(#[trigger] s[j]),
        k == s.len() || !is_space(s[s.len() - k - 1]),
    ensures
        trailing_spaces(s) == k,
    decreases k,
{
    if k > 0 {
        let t = s.drop_last();
        assert forall|j: int| t.len() - (k - 1) <= j < t.len() implies is_space(
            #[trigger] t[j],
        ) by {
            assert(t[j] == s[j]);
        }
        lemma_trailing_spaces(t, k - 1);
    }
}

/// A run of `k` characters without white space is the whole word at the front
/// when the character after it, if there is one, is white space.
pub proof fn lemma_word_len(s: Seq<char>, k: int)
    requires
        0 <= k <= s.len(),
        forall|j: int| 0 <= j < k ==> !is_space(#[trigger] s[j]),
        k == s.len() || is_space(s[k]),
    ensures
        word_len(s) == k,
    decreases k,
{
    if k > 0 {
        let t = s.drop_first();
        assert forall|j: int| 0 <= j < k - 1 implies !is_space(#[trigger] t[j]) by {
            assert(t[j] == s[j + 1]);
        }
        lemma_word_len(t, k - 1);
    }
}

/// The leading white space of `s` is a run of white space in `s`, followed by
/// another character or by the end.
pub proof fn lemma_leading_spaces_run(s: Seq<char>)
    ensures
        leading_spaces(s) <= s.len(),
        forall|j: int| 0 <= j < leading_spaces(s) ==> is_space(#[trigger] s[j]),
        leading_spaces(s) < s.len() ==> !is_space(s[leading_spaces(s) as int]),
    decreases s.len(),
{
    if s.len() > 0 && is_space(s[0]) {
        let t = s.drop_first();
        lemma_leading_spaces_run(t);
        assert forall|j: int| 0 <= j < leading_spaces(s) implies is_space(#[trigger] s[j]) by {
            if j > 0 {
                assert(s[j] == t[j - 1]);
            }
        }
        if leading_spaces(s) < s.len() {
            assert(s[leading_spaces(s) as int] == t[leading_spaces(t) as int]);
        }
    }
}

/// Trailing white space never reaches back to a first character that is not
/// white space.
pub proof fn lemma_trailing_is_short(s: Seq<char>)
    requires
        s.len() > 0,
        !is_space(s[0]),
    ensures
        trailing_spaces(s) < s.len(),
    decreases s.len(),
{
    if is_space(s.last()) {
        let t = s.drop_last();
        assert(t.len() > 0);
        assert(t[0] == s[0]);
        lemma_trailing_is_short(t);
    }
}

/// The word at the front of `s` is a run of characters that are not white
/// space, followed by white space or by the end.
pub proof fn lemma_word_len_run(s: Seq<char>)
    ensures
        word_len(s) <= s.len(),
        forall|j: int| 0 <= j < word_len(s) ==> !is_space(#[trigger] s[j]),
        word_len(s) < s.len() ==> is_space(s[word_len(s) as int]),
    decreases s.len(),
{
    if s.len() > 0 && !is_space(s[0]) {
        let t = s.drop_first();
        lemma_word_len_run(t);
        assert forall|j: int| 0 <= j < word_len(s) implies !is_space(#[trigger] s[j]) by {
            if j > 0 {
                assert(s[j] == t[j - 1]);
            }
        }
        if word_len(s) < s.len() {
            assert(s[word_len(s) as int] == t[word_len(t) as int]);
        }
    }
}

/// Whether `word` is a word: it is not empty and holds no white space.
pub open spec fn is_solid(word: Seq<char>) -> bool {
    word.len() > 0 && forall|j: int| 0 <= j < word.len() ==> !is_space(#[trigger] word[j])
}

/// Every word of a sequence is a word indeed: none is empty, and none holds
/// white space.
pub proof fn lemma_words_are_solid(s: Seq<char>)
    ensures
        forall|i: int| 0 <= i < words(s).len() ==> is_solid(#[trigger] words(s)[i]),
    decreases s.len(),
{
    if s.len() == 0 {
        assert(words(s).len() == 0);
    } else if is_space(s[0]) {
        lemma_words_are_solid(s.drop_first());
        assert(words(s) == words(s.drop_first()));
        assert forall|i: int| 0 <= i < words(s).len() implies is_solid(#[trigger] words(s)[i]) by {
            assert(is_solid(words(s.drop_first())[i]));
        }
    } else {
        lemma_word_len_run(s);
        let n = word_len(s) as int;
        lemma_words_are_solid(s.skip(n));
        assert(words(s) == seq![s.take(n)] + words(s.skip(n)));
        let first = s.take(n);
        assert(is_solid(first)) by {
            assert forall|j: int| 0 <= j < first.len() implies !is_space(#[trigger] first[j]) by {
                assert(first[j] == s[j]);
            }
        }
        assert forall|i: int| 0 <= i < words(s).len() implies is_solid(#[trigger] words(s)[i]) by {
            if i > 0 {
                assert(words(s)[i] == words(s.skip(n))[i - 1]);
                assert(is_solid(words(s.skip(n))[i - 1]));
            } else {
                assert(words(s)[0] == first);
            }
        }
    }
}

/// White space in front of a sequence adds no word.
pub proof fn lemma_words_skip_spaces(s: Seq<char>, k: int)
    requires
        0 <= k <= s.len(),
        forall|j: int| 0 <= j < k ==> is_space(#[trigger] s[j]),
    ensures
        words(s) == words(s.skip(k)),
    decreases k,
{
    if k == 0 {
        assert(s.skip(0) =~= s);
    } else {
        let t = s.drop_first();
        assert forall|j: int| 0 <= j < k - 1 implies is_space(#[trigger] t[j]) by {
            assert(t[j] == s[j + 1]);
        }
        lemma_words_skip_spaces(t, k - 1);
        assert(t.skip(k - 1) =~= s.skip(k));
    }
}

/// A blank sequence has no words.
pub proof fn lemma_words_of_blank(s: Seq<char>)
    requires
        is_blank(s),
    ensures
        words(s) == Seq::<Seq<char>>::empty(),
{
    lemma_words_skip_spaces(s, s.len() as int);
    assert(s.skip(s.len() as int).len() == 0);
}

/// The characters of `s`, one by one.
pub fn to_chars(s: &str) -> (chars: Vec<char>)
    ensures
        chars@ == s@,
{
    let mut chars: Vec<char> = Vec::new();
    for c in it: s.chars()
        invariant
            it.seq() == s@,
            chars@ == s@.take(it.index() as int),
    {
        proof {
            let k = it.index() as int;
            assert(s@.take(k).push(s@[k]) =~= s@.take(k + 1));
        }
        chars.push(c);
    }
    proof {
        assert(s@.take(s@.len() as int) =~= s@);
    }
    chars
}

/// Position of the first character of `chars`, at or after `from`, that is not
/// white space; the length of `chars` when there is none.
pub fn skip_spaces(chars: &Vec<char>, from: usize) -> (at: usize)
    requires
        from <= chars.len(),
    ensures
        from <= at <= chars.len(),
        at == from + leading_spaces(chars@.skip(from as int)),
        forall|j: int| from <= j < at ==> is_space(#[trigger] chars@[j]),
        at < chars.len() ==> !is_space(chars@[at as int]),
{
    let mut at: usize = from;
    while at < chars.len() && chars[at].is_whitespace()
        invariant
            from <= at <= chars.len(),
            forall|j: int| from <= j < at ==> is_space(#[trigger] chars@[j]),
        decreases chars.len() - at,
    {
        at = at + 1;
    }
    proof {
        let rest = chars@.skip(from as int);
        assert forall|j: int| 0 <= j < at - from implies is_space(#[trigger] rest[j]) by {
            assert(rest[j] == chars@[from + j]);
        }
        lemma_leading_spaces(rest, at - from);
    }
    at
}

/// Position just after the word that begins at `from`: the first white space
/// at or after `from`, or the length of `chars`.
pub fn skip_word(chars: &Vec<char>, from: usize) -> (at: usize)
    requires
        from <= chars.len(),
    ensures
        from <= at <= chars.len(),
        at == from + word_len(chars@.skip(from as int)),
        forall|j: int| from <= j < at ==> !is_space(#[trigger] chars@[j]),
        at < chars.len() ==> is_space(chars@[at as int]),
{
    let mut at: usize = from;
    while at < chars.len() && !chars[at].is_whitespace()
        invariant
            from <= at <= chars.len(),
            forall|j: int| from <= j < at ==> !is_space(#[trigger] chars@[j]),
        decreases chars.len() - at,
    {
        at = at + 1;
    }
    proof {
        let rest = chars@.skip(from as int);
        assert forall|j: int| 0 <= j < at - from implies !is_space(#[trigger] rest[j]) by {
            assert(rest[j] == chars@[from + j]);
        }
        lemma_word_len(rest, at - from);
    }
    at
}

/// `s` without leading and trailing white space.
pub fn trim<'a>(s: &'a str) -> (t: &'a str)
    ensures
        t@ == trimmed(s@),
{
    let chars = to_chars(s);
    let start = skip_spaces(&chars, 0);
    let mut end: usize = chars.len();
    while end > start && chars[end - 1].is_whitespace()
        invariant
            start <= end <= chars.len(),
            forall|j: int| end <= j < chars.len() ==> is_space(#[trigger] chars@[j]),
        decreases end,
    {
        end = end - 1;
    }
    proof {
        assert(chars@.skip(0) =~= chars@);
        let rest = trimmed_start(s@);
        assert(rest =~= s@.skip(start as int));
        let k = chars.len() - end;
        assert forall|j: int| rest.len() - k <= j < rest.len() implies is_space(
            #[trigger] rest[j],
        ) by {
            assert(rest[j] == chars@[start + j]);
        }
        if k != rest.len() {
            assert(rest[rest.len() - k - 1] == chars@[end - 1]);
        }
        lemma_trailing_spaces(rest, k as int);
        assert(trimmed(s@) =~= s@.subrange(start as int, end as int));
    }
    s.substring_char(start, end)
}

/// The words of `s`, in order: what lies between runs of white space.
pub fn split_whitespace<'a>(s: &'a str) -> (parts: Vec<&'a str>)
    ensures
        parts.deep_view() == words(s@),
{
    let chars = to_chars(s);
    let mut parts: Vec<&'a str> = Vec::new();
    let mut at: usize = skip_spaces(&chars, 0);
    proof {
        assert(chars@.skip(0) =~= chars@);
        lemma_words_skip_spaces(s@, at as int);
        assert(parts.deep_view() =~= Seq::<Seq<char>>::empty());
    }
    while at < chars.len()
        invariant
            chars@ == s@,
            at <= chars.len(),
            at < chars.len() ==> !is_space(chars@[at as int]),
            words(s@) == parts.deep_view() + words(s@.skip(at as int)),
        decreases chars.len() - at,
    {
        let end = skip_word(&chars, at);
        let word = s.substring_char(at, end);
        let next = skip_spaces(&chars, end);
        proof {
            let rest = s@.skip(at as int);
            let n = end - at;
            assert(rest[0] == s@[at as int]);
            assert(rest.take(n) =~= s@.subrange(at as int, end as int));
            assert(rest.skip(n) =~= s@.skip(end as int));
            let tail = s@.skip(end as int);
            assert forall|j: int| 0 <= j < next - end implies is_space(#[trigger] tail[j]) by {
                assert(tail[j] == s@[end + j]);
            }
            lemma_words_skip_spaces(tail, next - end);
            assert(tail.skip(next - end) =~= s@.skip(next as int));
            assert(parts.deep_view().push(word@) =~= parts.deep_view() + seq![rest.take(n)]);
            assert(parts@.push(word).len() == parts@.len() + 1);
        }
        let ghost before = parts.deep_view();
        parts.push(word);
        proof {
            assert(parts.deep_view() =~= before.push(word@));
        }
        at = next;
    }
    proof {
        assert(s@.skip(at as int).len() == 0);
    }
    parts
}

/// The encoding of a text has at least as many bytes as the text has
/// characters.
pub proof fn lemma_encoding_no_shorter(s: Seq<char>)
    ensures
        s.len() <= encode_utf8(s).len(),
    decreases s.len(),
{
    if s.len() > 0 {
        lemma_encoding_no_shorter(s.drop_first());
    }
}

/// Two texts have the same encoding exactly when they hold the same characters.
pub proof fn lemma_encoding_is_injective(a: Seq<char>, b: Seq<char>)
    ensures
        (encode_utf8(a) == encode_utf8(b)) <==> (a == b),
{
    encode_utf8_decode_utf8(a);
    encode_utf8_decode_utf8(b);
}

/// Whether `a` and `b` hold the same characters.
pub fn same_text(a: &str, b: &str) -> (same: bool)
    ensures
        same == (a@ == b@),
{
    let x = a.as_bytes();
    let y = b.as_bytes();
    proof {
        lemma_encoding_is_injective(a@, b@);
    }
    if x.len() != y.len() {
        return false;
    }
    let mut i: usize = 0;
    while i < x.len()
        invariant
            x@ == encode_utf8(a@),
            y@ == encode_utf8(b@),
            (x@ == y@) <==> (a@ == b@),
            x@.len() == y@.len(),
            i <= x@.len(),
            forall|j: int| 0 <= j < i ==> x@[j] == y@[j],
        decreases x.len() - i,
    {
        if x[i] != y[i] {
            return false;
        }
        i = i + 1;
    }
    proof {
        assert(x@ =~= y@);
    }
    true
}

} // verus!

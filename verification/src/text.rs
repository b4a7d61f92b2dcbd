//! Splitting and joining of command-line text.
//!
//! A text is split in two steps. First every character is marked as whitespace
//! or not; that is the one thing left to the standard library. Then the marks
//! alone decide where the first word ends and where the rest begins.

use vstd::prelude::*;
use vstd::std_specs::iter::IteratorSpec;

verus! {

/// Whether `c` is a whitespace character, as `char::is_whitespace` decides it
/// (the Unicode `White_Space` property).
pub uninterp spec fn is_whitespace(c: char) -> bool;

/// Trusted, not proved: std's `char::is_whitespace` answers by the character
/// alone, and its answer is what [`is_whitespace`] names. Nothing else is
/// claimed of it.
pub assume_specification[ char::is_whitespace ](c: char) -> (b: bool)
    ensures
        b == is_whitespace(c),
;

/// Trusted, not proved: std's equality of string slices, the `eq` of
/// `impl PartialEq for str`, holds exactly when the two hold the same
/// characters in the same order.
pub assume_specification[ <str as PartialEq>::eq ](a: &str, b: &str) -> (equal: bool)
    ensures
        equal == (a@ == b@),
;

/// For each character of `s`, whether it is whitespace.
pub open spec fn whitespace_marks(s: Seq<char>) -> Seq<bool> {
    s.map_values(|c: char| is_whitespace(c))
}

/// Number of marks at the front of `marks` that are equal to `mark`.
pub open spec fn run_len(marks: Seq<bool>, mark: bool) -> nat
    decreases marks.len(),
{
    if marks.len() == 0 || marks.first() != mark {
        0
    } else {
        1 + run_len(marks.drop_first(), mark)
    }
}

/// Where the first word ends: at the first set mark, or at the end.
pub open spec fn word_end(marks: Seq<bool>) -> nat {
    run_len(marks, false)
}

/// Where the text after the first word begins: at the first clear mark after
/// the end of the first word, or at the end.
pub open spec fn rest_start(marks: Seq<bool>) -> nat {
    word_end(marks) + run_len(marks.skip(word_end(marks) as int), true)
}

/// The first word of `s`: everything before the first whitespace character.
pub open spec fn first_word(s: Seq<char>) -> Seq<char> {
    s.take(word_end(whitespace_marks(s)) as int)
}

/// The whitespace between the first word of `s` and what follows it.
pub open spec fn gap_after_first_word(s: Seq<char>) -> Seq<char> {
    s.subrange(word_end(whitespace_marks(s)) as int, rest_start(whitespace_marks(s)) as int)
}

/// What follows the first word of `s`, without the whitespace between the
/// two. Empty when `s` holds no whitespace.
pub open spec fn after_first_word(s: Seq<char>) -> Seq<char> {
    s.skip(rest_start(whitespace_marks(s)) as int)
}

/// A run ends within the marks. Every mark of the run is `mark`, and the mark
/// after the run, if there is one, is not.
pub proof fn lemma_run_len(marks: Seq<bool>, mark: bool)
    ensures
        run_len(marks, mark) <= marks.len(),
        forall|j: int| 0 <= j < run_len(marks, mark) ==> #[trigger] marks[j] == mark,
        run_len(marks, mark) < marks.len() ==> marks[run_len(marks, mark) as int] != mark,
    decreases marks.len(),
{
    if marks.len() == 0 || marks.first() != mark {
    } else {
        let rest = marks.drop_first();
        lemma_run_len(rest, mark);
        assert forall|j: int| 0 <= j < run_len(marks, mark) implies #[trigger] marks[j]
            == mark by {
            if j > 0 {
                assert(marks[j] == rest[j - 1]);
            }
        }
        if run_len(marks, mark) < marks.len() {
            assert(marks[run_len(marks, mark) as int] == rest[run_len(rest, mark) as int]);
        }
    }
}

/// The run is the only one of its kind: a position that only `mark` precedes,
/// and that is the end of the marks or holds another mark, is its length.
pub proof fn lemma_run_len_unique(marks: Seq<bool>, mark: bool, n: int)
    requires
        0 <= n <= marks.len(),
        forall|j: int| 0 <= j < n ==> #[trigger] marks[j] == mark,
        n < marks.len() ==> marks[n] != mark,
    ensures
        run_len(marks, mark) == n,
    decreases marks.len(),
{
    if marks.len() == 0 || n == 0 {
    } else {
        assert(marks[0] == mark);
        let rest = marks.drop_first();
        assert forall|j: int| 0 <= j < n - 1 implies #[trigger] rest[j] == mark by {
            assert(rest[j] == marks[j + 1]);
        }
        lemma_run_len_unique(rest, mark, n - 1);
    }
}

/// Splitting at the first word loses nothing but whitespace: `s` is its first
/// word, a run of whitespace, and the rest. The first word holds no
/// whitespace, the rest does not begin with any, and the run is empty only
/// where the first word is all of `s`. A text without whitespace is its own
/// first word, with nothing after it.
pub proof fn lemma_split_first_word(s: Seq<char>)
    ensures
        s == first_word(s) + gap_after_first_word(s) + after_first_word(s),
        forall|j: int| 0 <= j < first_word(s).len() ==> !is_whitespace(#[trigger] first_word(s)[j]),
        forall|j: int|
            0 <= j < gap_after_first_word(s).len() ==> is_whitespace(
                #[trigger] gap_after_first_word(s)[j],
            ),
        after_first_word(s).len() > 0 ==> !is_whitespace(after_first_word(s)[0]),
        gap_after_first_word(s).len() == 0 <==> first_word(s) == s,
        (forall|j: int| 0 <= j < s.len() ==> !is_whitespace(#[trigger] s[j])) ==> first_word(s) == s
            && after_first_word(s) == Seq::<char>::empty(),
{
    let marks = whitespace_marks(s);
    let w = word_end(marks) as int;
    let tail = marks.skip(w);
    lemma_run_len(marks, false);
    lemma_run_len(tail, true);
    let r = rest_start(marks) as int;
    let word = first_word(s);
    let gap = gap_after_first_word(s);
    let rest = after_first_word(s);
    assert forall|j: int| 0 <= j < word.len() implies !is_whitespace(#[trigger] word[j]) by {
        assert(marks[j] == is_whitespace(s[j]));
    }
    assert forall|j: int| 0 <= j < gap.len() implies is_whitespace(#[trigger] gap[j]) by {
        assert(tail[j] == marks[w + j]);
        assert(marks[w + j] == is_whitespace(s[w + j]));
    }
    if rest.len() > 0 {
        assert(tail[r - w] == marks[r]);
        assert(marks[r] == is_whitespace(s[r]));
    }
    assert(s =~= word + gap + rest);
    if w < s.len() {
        assert(tail[0] == marks[w]);
        assert(r > w);
        assert(word.len() < s.len());
    } else {
        assert(word =~= s);
    }
    if forall|j: int| 0 <= j < s.len() ==> !is_whitespace(#[trigger] s[j]) {
        if w < s.len() {
            assert(marks[w] == is_whitespace(s[w]));
        }
        assert(rest =~= Seq::<char>::empty());
    }
}

/// Marks each character of `s` as whitespace or not.
pub fn mark_whitespace(s: &str) -> (marks: Vec<bool>)
    ensures
        marks@ == whitespace_marks(s@),
{
    let n = s.unicode_len();
    let mut marks: Vec<bool> = Vec::new();
    let mut rest = s.chars();
    let mut more = true;
    while more
        invariant
            n == s@.len(),
            marks.len() <= n,
            more ==> rest.remaining() == s@.skip(marks.len() as int),
            !more ==> marks.len() == n,
            forall|j: int| 0 <= j < marks.len() ==> #[trigger] marks[j] == is_whitespace(s@[j]),
        decreases n - marks.len(), if more { 1int } else { 0int },
    {
        match rest.next() {
            Some(c) => {
                assert(c == s@[marks.len() as int]);
                marks.push(c.is_whitespace());
            },
            None => {
                more = false;
            },
        }
    }
    assert(marks@ =~= whitespace_marks(s@));
    marks
}

/// Finds in the marks of a text where its first word ends and where the rest
/// begins: the position of the first set mark, and the position of the first
/// clear mark after that. Either is the number of marks where there is no such
/// mark.
pub fn split_points(marks: &[bool]) -> (points: (usize, usize))
    ensures
        points.0 == word_end(marks@),
        points.1 == rest_start(marks@),
        points.0 <= points.1 <= marks@.len(),
        forall|j: int| 0 <= j < points.0 ==> !(#[trigger] marks@[j]),
        forall|j: int| points.0 <= j < points.1 ==> #[trigger] marks@[j],
        points.0 < marks@.len() ==> points.0 < points.1,
        points.1 < marks@.len() ==> !marks@[points.1 as int],
{
    let n = marks.len();
    let mut end: usize = 0;
    while end < n && !marks[end]
        invariant
            n == marks@.len(),
            end <= n,
            forall|j: int| 0 <= j < end ==> !(#[trigger] marks@[j]),
        decreases n - end,
    {
        end += 1;
    }
    let mut start: usize = end;
    while start < n && marks[start]
        invariant
            n == marks@.len(),
            end <= start <= n,
            forall|j: int| end <= j < start ==> #[trigger] marks@[j],
        decreases n - start,
    {
        start += 1;
    }
    proof {
        lemma_run_len_unique(marks@, false, end as int);
        let tail = marks@.skip(end as int);
        assert forall|j: int| 0 <= j < start - end implies #[trigger] tail[j] == true by {
            assert(tail[j] == marks@[end + j]);
        }
        lemma_run_len_unique(tail, true, start - end);
    }
    (end, start)
}

/// Splits `s` at its first whitespace character: the text before it, and the
/// text after it with leading whitespace removed. Without any whitespace the
/// whole of `s` is the first part and the second is empty.
pub fn split_first_word<'a>(s: &'a str) -> (parts: (&'a str, &'a str))
    ensures
        parts.0@ == first_word(s@),
        parts.1@ == after_first_word(s@),
{
    let marks = mark_whitespace(s);
    let (end, start) = split_points(marks.as_slice());
    assert(s@.subrange(0, end as int) =~= s@.take(end as int));
    assert(s@.subrange(start as int, s@.len() as int) =~= s@.skip(start as int));
    (s.substring_char(0, end), s.substring_char(start, marks.len()))
}

/// The words joined into one text, with a single space between neighbours.
pub open spec fn joined(words: Seq<Seq<char>>) -> Seq<char>
    decreases words.len(),
{
    if words.len() == 0 {
        Seq::empty()
    } else if words.len() == 1 {
        words[0]
    } else {
        joined(words.drop_last()) + seq![' '] + words.last()
    }
}

/// Joins the words with single spaces.
pub fn join_words(words: &[String]) -> (text: String)
    ensures
        text@ == joined(words.deep_view()),
{
    let n = words.len();
    let mut text = String::new();
    let mut i: usize = 0;
    while i < n
        invariant
            n == words.len(),
            i <= n,
            text@ == joined(words.deep_view().take(i as int)),
        decreases n - i,
    {
        proof {
            reveal_strlit(" ");
            assert(" "@ =~= seq![' ']);
            let before = words.deep_view().take(i as int);
            let after = words.deep_view().take(i + 1);
            assert(after.drop_last() =~= before);
            assert(after.last() == words[i as int]@);
        }
        if i > 0 {
            text.append(" ");
        }
        text.append(words[i].as_str());
        i += 1;
    }
    assert(words.deep_view().take(n as int) =~= words.deep_view());
    text
}

} // verus!

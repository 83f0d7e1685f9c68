//! Splitting text into lines.
//!
//! A line ends at a line feed, or at a carriage return directly followed by
//! a line feed; neither belongs to the line. The last line needs no ending,
//! and a text that ends with a line ending has no empty line after it. A
//! carriage return that is not followed by a line feed is part of its line.

use vstd::prelude::*;

verus! {

/// The number of characters of `s` before its first line feed; the length
/// of `s` if it holds none.
pub open spec fn line_end(s: Seq<char>) -> int
    decreases s.len(),
{
    if s.len() == 0 || s[0] == '\n' {
        0
    } else {
        1 + line_end(s.skip(1))
    }
}

/// `s` without one carriage return at its end, if it has one.
pub open spec fn strip_cr(s: Seq<char>) -> Seq<char> {
    if s.len() > 0 && s.last() == '\r' {
        s.drop_last()
    } else {
        s
    }
}

/// The lines of `s`.
pub open spec fn lines(s: Seq<char>) -> Seq<Seq<char>>
    decreases s.len(),
    via lines_terminates
{
    if s.len() == 0 {
        Seq::empty()
    } else {
        let n = line_end(s);
        if n == s.len() {
            seq![s]
        } else {
            seq![strip_cr(s.take(n))] + lines(s.skip(n + 1))
        }
    }
}

#[via_fn]
proof fn lines_terminates(s: Seq<char>) {
    lemma_line_end(s);
}

/// The pieces of `text` that the spans `start..end` cut out of it.
pub open spec fn spans_of(text: Seq<char>, spans: Seq<(usize, usize)>) -> Seq<Seq<char>> {
    Seq::new(spans.len(), |k: int| text.subrange(spans[k].0 as int, spans[k].1 as int))
}

/// Every span is a range of positions of a text of `len` characters.
pub open spec fn spans_within(spans: Seq<(usize, usize)>, len: int) -> bool {
    forall|k: int| 0 <= k < spans.len() ==> (#[trigger] spans[k]).0 <= spans[k].1 <= len
}

/// `line_end` is the least position of a line feed.
pub proof fn lemma_line_end(s: Seq<char>)
    ensures
        0 <= line_end(s) <= s.len(),
        forall|i: int| 0 <= i < line_end(s) ==> s[i] != '\n',
        line_end(s) < s.len() ==> s[line_end(s)] == '\n',
    decreases s.len(),
{
    if s.len() == 0 || s[0] == '\n' {
    } else {
        let t = s.skip(1);
        lemma_line_end(t);
        assert forall|i: int| 0 <= i < line_end(s) implies s[i] != '\n' by {
            if i > 0 {
                assert(s[i] == t[i - 1]);
            }
        }
        if line_end(s) < s.len() {
            assert(s[line_end(s)] == t[line_end(t)]);
        }
    }
}

/// A position with no line feed before it, which holds one or is the end of
/// `s`, is `line_end(s)`.
pub proof fn lemma_line_end_is(s: Seq<char>, n: int)
    requires
        0 <= n <= s.len(),
        forall|i: int| 0 <= i < n ==> s[i] != '\n',
        n < s.len() ==> s[n] == '\n',
    ensures
        line_end(s) == n,
{
    lemma_line_end(s);
    let m = line_end(s);
    if m < n {
        assert(s[m] != '\n');
    } else if n < m {
        assert(s[n] == '\n');
    }
}

/// The lines of a text whose first line feed is at `n`.
pub proof fn lemma_lines_step(s: Seq<char>, n: int)
    requires
        0 <= n < s.len(),
        forall|i: int| 0 <= i < n ==> s[i] != '\n',
        s[n] == '\n',
    ensures
        lines(s) == seq![strip_cr(s.take(n))] + lines(s.skip(n + 1)),
{
    lemma_line_end_is(s, n);
}

/// The lines of a non-empty text without a line feed.
pub proof fn lemma_lines_last(s: Seq<char>)
    requires
        s.len() > 0,
        forall|i: int| 0 <= i < s.len() ==> s[i] != '\n',
    ensures
        lines(s) == seq![s],
{
    lemma_line_end_is(s, s.len() as int);
}

/// A line that is ended by a line feed is the first line of the text, and
/// the lines of what follows the line feed come after it.
pub proof fn lemma_lines_of_ended_line(line: Seq<char>, rest: Seq<char>)
    requires
        forall|i: int| 0 <= i < line.len() ==> line[i] != '\n',
    ensures
        lines(line + seq!['\n'] + rest) == seq![strip_cr(line)] + lines(rest),
{
    let s = line + seq!['\n'] + rest;
    let n = line.len() as int;
    assert forall|i: int| 0 <= i < n implies s[i] != '\n' by {
        assert(s[i] == line[i]);
    }
    lemma_lines_step(s, n);
    assert(s.take(n) =~= line);
    assert(s.skip(n + 1) =~= rest);
}

/// The spans of the lines of `text`, in order: `spans[k]` is the range of
/// positions that line `k` takes in `text`.
pub fn line_spans(text: &Vec<char>) -> (spans: Vec<(usize, usize)>)
    ensures
        spans_of(text@, spans@) == lines(text@),
        spans_within(spans@, text.len() as int),
{
    let n = text.len();
    let mut spans: Vec<(usize, usize)> = Vec::new();
    let mut start: usize = 0;
    assert(text@.skip(0) =~= text@);
    assert(spans_of(text@, spans@) =~= Seq::<Seq<char>>::empty());
    while start < n
        invariant
            n == text.len(),
            start <= n,
            lines(text@) == spans_of(text@, spans@) + lines(text@.skip(start as int)),
            spans_within(spans@, text.len() as int),
        decreases n - start,
    {
        let ghost rest = text@.skip(start as int);
        let ghost before = spans@;
        let mut end: usize = start;
        while end < n && text[end] != '\n'
            invariant
                n == text.len(),
                start <= end <= n,
                forall|i: int| start <= i < end ==> text@[i] != '\n',
            decreases n - end,
        {
            end += 1;
        }
        if end == n {
            proof {
                assert forall|i: int| 0 <= i < rest.len() implies rest[i] != '\n' by {
                    assert(rest[i] == text@[start + i]);
                }
                lemma_lines_last(rest);
                assert(rest =~= text@.subrange(start as int, n as int));
                assert(text@.skip(n as int) =~= Seq::<char>::empty());
            }
            spans.push((start, n));
            start = n;
            proof {
                assert(spans_of(text@, spans@) =~= spans_of(text@, before) + seq![rest]);
                assert(lines(text@.skip(n as int)) =~= Seq::<Seq<char>>::empty());
            }
        } else {
            let stop: usize = if end > start && text[end - 1] == '\r' {
                end - 1
            } else {
                end
            };
            proof {
                let m = end - start;
                assert forall|i: int| 0 <= i < m implies rest[i] != '\n' by {
                    assert(rest[i] == text@[start + i]);
                }
                assert(rest[m] == text@[end as int]);
                lemma_lines_step(rest, m);
                assert(rest.skip(m + 1) =~= text@.skip(end + 1));
                assert(rest.take(m) =~= text@.subrange(start as int, end as int));
                assert(strip_cr(rest.take(m)) =~= text@.subrange(start as int, stop as int));
            }
            spans.push((start, stop));
            proof {
                assert(spans_of(text@, spans@) =~= spans_of(text@, before) + seq![
                    text@.subrange(start as int, stop as int),
                ]);
            }
            start = end + 1;
        }
    }
    proof {
        assert(text@.skip(n as int) =~= Seq::<char>::empty());
        assert(lines(text@.skip(n as int)) =~= Seq::<Seq<char>>::empty());
        assert(spans_of(text@, spans@) + Seq::<Seq<char>>::empty() =~= spans_of(text@, spans@));
    }
    spans
}

} // verus!

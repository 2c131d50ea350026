//! Text as a sequence of lines.
//!
//! A line ends at a line feed. The line feed is no part of the line, and
//! neither is a carriage return that stands directly before it. What follows
//! the last line feed is a line too, unless it is empty; a carriage return at
//! its end stays.

use vstd::prelude::*;

verus! {

/// The number of characters of `text` before its first line feed: the length
/// of `text` where it holds none.
pub open spec fn first_line_feed(text: Seq<char>) -> nat
    decreases text.len(),
{
    if text.len() == 0 || text[0] == '\n' {
        0
    } else {
        1 + first_line_feed(text.skip(1))
    }
}

/// Whether `line` holds no line feed.
pub open spec fn no_line_feed(line: Seq<char>) -> bool {
    forall|i: int| 0 <= i < line.len() ==> line[i] != '\n'
}

/// `line` without a carriage return at its end.
pub open spec fn strip_cr(line: Seq<char>) -> Seq<char> {
    if line.len() > 0 && line.last() == '\r' {
        line.drop_last()
    } else {
        line
    }
}

/// The lines of `text`.
pub open spec fn split_lines(text: Seq<char>) -> Seq<Seq<char>>
    decreases text.len(),
{
    let n = first_line_feed(text) as int;
    if text.len() == 0 {
        Seq::empty()
    } else if n >= text.len() {
        seq![text]
    } else {
        seq![strip_cr(text.take(n))] + split_lines(text.skip(n + 1))
    }
}

/// `lines` with a line feed between each two of them.
pub open spec fn join_lines(lines: Seq<Seq<char>>) -> Seq<char>
    decreases lines.len(),
{
    if lines.len() == 0 {
        Seq::empty()
    } else if lines.len() == 1 {
        lines[0]
    } else {
        lines[0] + seq!['\n'] + join_lines(lines.skip(1))
    }
}

/// What reading `lines` once more makes of them, where none holds a line
/// feed: every line but the last loses a carriage return at its end, and an
/// empty last line is gone.
pub open spec fn settled_lines(lines: Seq<Seq<char>>) -> Seq<Seq<char>> {
    if lines.len() == 0 {
        lines
    } else {
        lines.drop_last().map_values(|line: Seq<char>| strip_cr(line)) + if lines.last().len()
            == 0 {
            Seq::empty()
        } else {
            seq![lines.last()]
        }
    }
}

/// `first_line_feed(text)` is at most the length of `text`, no character
/// before it is a line feed, and the character at it, if there is one, is.
pub proof fn lemma_first_line_feed(text: Seq<char>)
    ensures
        first_line_feed(text) <= text.len(),
        forall|i: int| 0 <= i < first_line_feed(text) ==> text[i] != '\n',
        first_line_feed(text) < text.len() ==> text[first_line_feed(text) as int] == '\n',
    decreases text.len(),
{
    if text.len() == 0 || text[0] == '\n' {
    } else {
        lemma_first_line_feed(text.skip(1));
        assert forall|i: int| 0 <= i < first_line_feed(text) implies text[i] != '\n' by {
            if i > 0 {
                assert(text[i] == text.skip(1)[i - 1]);
            }
        }
    }
}

/// The only `n` before which `text` holds no line feed, with one at `n` or
/// the end of `text` there, is `first_line_feed(text)`.
pub proof fn lemma_first_line_feed_is(text: Seq<char>, n: int)
    requires
        0 <= n <= text.len(),
        forall|i: int| 0 <= i < n ==> text[i] != '\n',
        n < text.len() ==> text[n] == '\n',
    ensures
        first_line_feed(text) == n,
{
    lemma_first_line_feed(text);
}

/// No line of a text holds a line feed.
pub proof fn lemma_lines_hold_no_line_feed(text: Seq<char>)
    ensures
        forall|i: int| 0 <= i < split_lines(text).len() ==> no_line_feed(#[trigger] split_lines(text)[i]),
    decreases text.len(),
{
    let n = first_line_feed(text) as int;
    lemma_first_line_feed(text);
    if text.len() == 0 {
    } else if n >= text.len() {
    } else {
        let rest = text.skip(n + 1);
        lemma_lines_hold_no_line_feed(rest);
        assert forall|i: int| 0 <= i < split_lines(text).len() implies no_line_feed(
            #[trigger] split_lines(text)[i],
        ) by {
            if i > 0 {
                assert(split_lines(text)[i] == split_lines(rest)[i - 1]);
            }
        }
    }
}

/// A text that begins with a line and a line feed has that line, less a
/// carriage return at its end, as its first line, and the lines of what
/// follows the line feed after it.
pub proof fn lemma_split_first_line(line: Seq<char>, rest: Seq<char>)
    requires
        no_line_feed(line),
    ensures
        split_lines(line + seq!['\n'] + rest) == seq![strip_cr(line)] + split_lines(rest),
{
    let text = line + seq!['\n'] + rest;
    lemma_first_line_feed_is(text, line.len() as int);
    assert(text.take(line.len() as int) =~= line);
    assert(text.skip(line.len() as int + 1) =~= rest);
}

/// Lines without line feeds, joined and read once more, are the settled
/// lines.
pub proof fn lemma_reread_lines(lines: Seq<Seq<char>>)
    requires
        forall|i: int| 0 <= i < lines.len() ==> no_line_feed(#[trigger] lines[i]),
    ensures
        split_lines(join_lines(lines)) == settled_lines(lines),
    decreases lines.len(),
{
    if lines.len() == 0 {
    } else if lines.len() == 1 {
        let line = lines[0];
        assert(lines.drop_last().map_values(|line: Seq<char>| strip_cr(line)) =~= Seq::empty());
        if line.len() > 0 {
            lemma_first_line_feed_is(line, line.len() as int);
        }
        assert(settled_lines(lines) =~= split_lines(line));
    } else {
        let tail = lines.skip(1);
        assert forall|i: int| 0 <= i < tail.len() implies no_line_feed(#[trigger] tail[i]) by {
            assert(tail[i] == lines[i + 1]);
        }
        lemma_reread_lines(tail);
        lemma_split_first_line(lines[0], join_lines(tail));
        assert(tail.last() == lines.last());
        assert(lines.drop_last().map_values(|line: Seq<char>| strip_cr(line)) =~= seq![
            strip_cr(lines[0]),
        ] + tail.drop_last().map_values(|line: Seq<char>| strip_cr(line)));
        assert(settled_lines(lines) =~= seq![strip_cr(lines[0])] + settled_lines(tail));
    }
}

/// A stretch of a text: the characters from `start` up to `end`.
#[derive(Clone, Copy, Debug, PartialEq, Eq, Structural)]
pub struct Span {
    pub start: usize,
    pub end: usize,
}

impl Span {
    /// Whether the span lies within a text of `len` characters.
    pub open spec fn within(self, len: nat) -> bool {
        self.start <= self.end <= len
    }

    /// The characters of `text` that the span covers.
    pub open spec fn of(self, text: Seq<char>) -> Seq<char> {
        text.subrange(self.start as int, self.end as int)
    }
}

/// Whether each of `spans` lies within a text of `len` characters.
pub open spec fn spans_within(spans: Seq<Span>, len: nat) -> bool {
    forall|i: int| 0 <= i < spans.len() ==> (#[trigger] spans[i]).within(len)
}

/// The stretches of `text` that `spans` cover.
pub open spec fn spans_of(spans: Seq<Span>, text: Seq<char>) -> Seq<Seq<char>> {
    Seq::new(spans.len(), |i: int| spans[i].of(text))
}

/// Where the lines of `chars` stand in it.
pub fn line_spans(chars: &Vec<char>) -> (spans: Vec<Span>)
    ensures
        spans_within(spans@, chars@.len()),
        spans_of(spans@, chars@) == split_lines(chars@),
{
    let n = chars.len();
    let mut spans: Vec<Span> = Vec::new();
    let mut start: usize = 0;
    assert(chars@.skip(0) =~= chars@);
    while start < n
        invariant
            n == chars.len(),
            start <= n,
            spans_within(spans@, chars@.len()),
            split_lines(chars@) == spans_of(spans@, chars@) + split_lines(
                chars@.skip(start as int),
            ),
        decreases n - start,
    {
        let mut end: usize = start;
        while end < n && chars[end] != '\n'
            invariant
                n == chars.len(),
                start <= end <= n,
                forall|i: int| start <= i < end ==> chars@[i] != '\n',
            decreases n - end,
        {
            end = end + 1;
        }
        let ghost rest = chars@.skip(start as int);
        let ghost before = spans@;
        proof {
            lemma_first_line_feed_is(rest, end - start);
        }
        if end == n {
            let span = Span { start, end };
            spans.push(span);
            proof {
                assert(rest =~= span.of(chars@));
                assert(split_lines(chars@.skip(n as int)) =~= Seq::empty());
                assert(spans_of(spans@, chars@) =~= spans_of(before, chars@) + seq![rest]);
            }
            start = n;
        } else {
            let stop: usize = if end > start && chars[end - 1] == '\r' {
                end - 1
            } else {
                end
            };
            let span = Span { start, end: stop };
            spans.push(span);
            proof {
                let line = rest.take(end - start);
                assert(line =~= chars@.subrange(start as int, end as int));
                assert(strip_cr(line) =~= span.of(chars@));
                assert(rest.skip(end - start + 1) =~= chars@.skip(end + 1));
                assert(spans_of(spans@, chars@) =~= spans_of(before, chars@) + seq![
                    strip_cr(line),
                ]);
            }
            start = end + 1;
        }
    }
    spans
}

/// Where the lines stand that reading the lines at `spans` once more gives:
/// `spans` with every span but the last shortened by a carriage return at its
/// end, and without an empty last span.
pub(crate) fn settle_spans(chars: &Vec<char>, spans: &Vec<Span>) -> (settled: Vec<Span>)
    requires
        spans_within(spans@, chars@.len()),
    ensures
        spans_within(settled@, chars@.len()),
        spans_of(settled@, chars@) == settled_lines(spans_of(spans@, chars@)),
{
    let count = spans.len();
    let mut settled: Vec<Span> = Vec::new();
    if count == 0 {
        assert(spans_of(settled@, chars@) =~= settled_lines(spans_of(spans@, chars@)));
        return settled;
    }
    let ghost lines = spans_of(spans@, chars@);
    let mut i: usize = 0;
    while i < count - 1
        invariant
            count == spans.len(),
            count > 0,
            i <= count - 1,
            lines == spans_of(spans@, chars@),
            spans_within(spans@, chars@.len()),
            spans_within(settled@, chars@.len()),
            spans_of(settled@, chars@) == lines.take(i as int).map_values(
                |line: Seq<char>| strip_cr(line),
            ),
        decreases count - i,
    {
        let span = spans[i];
        let stop: usize = if span.end > span.start && chars[span.end - 1] == '\r' {
            span.end - 1
        } else {
            span.end
        };
        let ghost before = settled@;
        let shorter = Span { start: span.start, end: stop };
        settled.push(shorter);
        proof {
            assert(lines[i as int] == span.of(chars@));
            assert(shorter.of(chars@) =~= strip_cr(span.of(chars@)));
            assert(spans_of(settled@, chars@) =~= spans_of(before, chars@) + seq![
                strip_cr(lines[i as int]),
            ]);
            assert(lines.take(i + 1).map_values(|line: Seq<char>| strip_cr(line)) =~= lines.take(
                i as int,
            ).map_values(|line: Seq<char>| strip_cr(line)) + seq![strip_cr(lines[i as int])]);
        }
        i = i + 1;
    }
    let last = spans[count - 1];
    let ghost before = settled@;
    proof {
        assert(lines.take(count - 1) =~= lines.drop_last());
        assert(lines.last() == last.of(chars@));
    }
    if last.end > last.start {
        settled.push(last);
        proof {
            assert(spans_of(settled@, chars@) =~= spans_of(before, chars@) + seq![lines.last()]);
        }
    } else {
        proof {
            assert(spans_of(settled@, chars@) =~= spans_of(before, chars@) + Seq::empty());
        }
    }
    settled
}

/// Where the lines stand that reading the lines of `chars` once more gives.
pub fn reread_line_spans(chars: &Vec<char>) -> (spans: Vec<Span>)
    ensures
        spans_within(spans@, chars@.len()),
        spans_of(spans@, chars@) == split_lines(join_lines(split_lines(chars@))),
{
    let lines = line_spans(chars);
    proof {
        lemma_lines_hold_no_line_feed(chars@);
        lemma_reread_lines(split_lines(chars@));
    }
    settle_spans(chars, &lines)
}

} // verus!

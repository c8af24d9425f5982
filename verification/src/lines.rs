//! Text as a sequence of lines.
//!
//! A line ends at a line feed. A carriage return directly before that line feed belongs
//! to the line ending. The last line needs no line ending, and text that ends with one
//! has no empty line behind it.

use crate::text::chars_of;
use crate::text::string_of;
use crate::text::texts_of;
use vstd::prelude::*;

verus! {

broadcast use vstd::seq::Seq::group_seq_flatten;

/// A line: text without a line feed.
pub open spec fn is_line(text: Seq<char>) -> bool {
    forall|i: int| 0 <= i < text.len() ==> text[i] != '\n'
}

/// `line` without the carriage return at its end, if it has one.
pub open spec fn strip_cr(line: Seq<char>) -> Seq<char> {
    if line.len() > 0 && line.last() == '\r' {
        line.drop_last()
    } else {
        line
    }
}

/// The lines of `text[from..]`, where `line` is what was read of the current line.
pub open spec fn lines_from(text: Seq<char>, from: int, line: Seq<char>) -> Seq<Seq<char>>
    decreases text.len() - from,
{
    if from < 0 || from >= text.len() {
        if line.len() == 0 {
            Seq::empty()
        } else {
            seq![line]
        }
    } else if text[from] == '\n' {
        seq![strip_cr(line)] + lines_from(text, from + 1, Seq::empty())
    } else {
        lines_from(text, from + 1, line.push(text[from]))
    }
}

/// The lines of `text`.
pub open spec fn lines(text: Seq<char>) -> Seq<Seq<char>> {
    lines_from(text, 0, Seq::empty())
}

/// Each of `lines` with a line feed behind it.
pub open spec fn with_feeds(lines: Seq<Seq<char>>) -> Seq<Seq<char>> {
    lines.map_values(|l: Seq<char>| l.push('\n'))
}

/// The text of `lines`, each followed by one line feed.
pub open spec fn terminated(lines: Seq<Seq<char>>) -> Seq<char> {
    with_feeds(lines).flatten()
}

/// A line that reading takes for what it is: without a line feed, and without a
/// carriage return at its end.
pub open spec fn is_plain_line(line: Seq<char>) -> bool {
    is_line(line) && strip_cr(line) == line
}

/// What is read of a line that has no line feed is a line, and so is what follows.
pub proof fn lemma_lines_from_are_lines(text: Seq<char>, from: int, line: Seq<char>)
    requires
        0 <= from,
        is_line(line),
    ensures
        forall|k: int|
            0 <= k < lines_from(text, from, line).len() ==> is_line(
                #[trigger] lines_from(text, from, line)[k],
            ),
    decreases text.len() - from,
{
    if from < text.len() {
        if text[from] == '\n' {
            lemma_lines_from_are_lines(text, from + 1, Seq::empty());
            let rest = lines_from(text, from + 1, Seq::empty());
            assert(is_line(strip_cr(line)));
            assert forall|k: int| 0 <= k < lines_from(text, from, line).len() implies is_line(
                #[trigger] lines_from(text, from, line)[k],
            ) by {
                if k > 0 {
                    assert(lines_from(text, from, line)[k] == rest[k - 1]);
                }
            }
        } else {
            assert(is_line(line.push(text[from])));
            lemma_lines_from_are_lines(text, from + 1, line.push(text[from]));
            assert(lines_from(text, from, line) == lines_from(
                text,
                from + 1,
                line.push(text[from]),
            ));
        }
    } else if line.len() > 0 {
        assert(lines_from(text, from, line) == seq![line]);
    }
}

/// Every line of a text is a line.
pub proof fn lemma_lines_are_lines(text: Seq<char>)
    ensures
        forall|k: int| 0 <= k < lines(text).len() ==> is_line(#[trigger] lines(text)[k]),
{
    lemma_lines_from_are_lines(text, 0, Seq::empty());
}

/// Reading does not depend on what stands before the place where it starts.
proof fn lemma_lines_from_shift(head: Seq<char>, rest: Seq<char>, from: int, line: Seq<char>)
    requires
        0 <= from,
    ensures
        lines_from(head + rest, head.len() + from, line) == lines_from(rest, from, line),
    decreases rest.len() - from,
{
    let text = head + rest;
    if from < rest.len() {
        assert(text[head.len() + from] == rest[from]);
        if rest[from] == '\n' {
            lemma_lines_from_shift(head, rest, from + 1, Seq::empty());
        } else {
            lemma_lines_from_shift(head, rest, from + 1, line.push(rest[from]));
        }
    }
}

/// Reading a line and its line feed gives the line, and goes on behind the line feed.
proof fn lemma_lines_from_one_line(line: Seq<char>, rest: Seq<char>, j: int)
    requires
        is_line(line),
        0 <= j <= line.len(),
    ensures
        lines_from(line.push('\n') + rest, j, line.take(j)) == seq![strip_cr(line)] + lines_from(
            rest,
            0,
            Seq::empty(),
        ),
    decreases line.len() - j,
{
    let text = line.push('\n') + rest;
    if j < line.len() {
        assert(text[j] == line[j]);
        assert(line.take(j).push(line[j]) =~= line.take(j + 1));
        lemma_lines_from_one_line(line, rest, j + 1);
    } else {
        assert(text[j] == '\n');
        assert(line.take(j) =~= line);
        lemma_lines_from_shift(line.push('\n'), rest, 0, Seq::empty());
    }
}

/// Plain lines, each written with a line feed behind it, are read back as they were.
pub proof fn lemma_lines_of_terminated(ls: Seq<Seq<char>>)
    requires
        forall|i: int| 0 <= i < ls.len() ==> is_plain_line(#[trigger] ls[i]),
    ensures
        lines(terminated(ls)) == ls,
    decreases ls.len(),
{
    let with_feed = with_feeds(ls);
    if ls.len() == 0 {
        assert(with_feed =~= Seq::empty());
        assert(lines(terminated(ls)) =~= ls);
    } else {
        let first = ls.first();
        let rest = ls.drop_first();
        assert(with_feed.drop_first() =~= with_feeds(rest));
        assert(terminated(ls) == first.push('\n') + terminated(rest));
        assert(forall|i: int| 0 <= i < rest.len() ==> is_plain_line(#[trigger] rest[i])) by {
            assert(forall|i: int| 0 <= i < rest.len() ==> rest[i] == ls[i + 1]);
        }
        lemma_lines_of_terminated(rest);
        lemma_lines_from_one_line(first, terminated(rest), 0);
        assert(first.take(0) =~= Seq::empty());
        assert(seq![first] + rest =~= ls);
    }
}

/// Splits `text` into its lines.
pub fn split_lines(text: &str) -> (result: Vec<String>)
    ensures
        texts_of(result@) == lines(text@),
        forall|k: int| 0 <= k < result.len() ==> is_line(#[trigger] result[k]@),
{
    let chars = chars_of(text);
    let ghost t = text@;
    let mut result: Vec<String> = Vec::new();
    let mut line: Vec<char> = Vec::new();
    let mut i: usize = 0;
    proof {
        lemma_lines_are_lines(t);
    }
    while i < chars.len()
        invariant
            i <= chars.len(),
            chars@ == t,
            lines(t) == texts_of(result@) + lines_from(t, i as int, line@),
        decreases chars.len() - i,
    {
        let ghost done = texts_of(result@);
        let ghost current = line@;
        let c = chars[i];
        if c == '\n' {
            if line.len() > 0 && line[line.len() - 1] == '\r' {
                line.pop();
            }
            assert(line@ =~= strip_cr(current));
            result.push(string_of(&line));
            line = Vec::new();
            assert(texts_of(result@) =~= done.push(strip_cr(current)));
        } else {
            line.push(c);
        }
        i += 1;
        assert(lines(t) =~= texts_of(result@) + lines_from(t, i as int, line@));
    }
    let ghost done = texts_of(result@);
    if line.len() > 0 {
        result.push(string_of(&line));
        assert(texts_of(result@) =~= done.push(line@));
    }
    assert(texts_of(result@) =~= lines(t));
    assert forall|k: int| 0 <= k < result.len() implies is_line(#[trigger] result[k]@) by {
        assert(result[k]@ == lines(t)[k]);
    }
    result
}

} // verus!

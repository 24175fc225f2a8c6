//! Plain-text summaries: lines are trimmed, empty ones dropped, the rest
//! joined by single spaces and cut to a number of characters.

use vstd::prelude::*;
use crate::text::{chars_of, joined, join_strings, string_of, strings_view, lemma_strings_view_push};

verus! {

/// Whether `c` is whitespace: one of the characters with the Unicode
/// property `White_Space`. These are the controls from tab to carriage
/// return, the space, the next-line control, the no-break space, the ogham
/// space mark, the spaces from en quad to hair space, the line and the
/// paragraph separator, the narrow no-break space, the medium mathematical
/// space and the ideographic space.
pub open spec fn white_space(c: char) -> bool {
    ||| '\u{9}' <= c <= '\u{d}'
    ||| c == ' '
    ||| c == '\u{85}'
    ||| c == '\u{a0}'
    ||| c == '\u{1680}'
    ||| '\u{2000}' <= c <= '\u{200a}'
    ||| c == '\u{2028}'
    ||| c == '\u{2029}'
    ||| c == '\u{202f}'
    ||| c == '\u{205f}'
    ||| c == '\u{3000}'
}

/// Whether `c` is whitespace.
pub fn is_white_space(c: char) -> (b: bool)
    ensures
        b == white_space(c),
{
    ('\u{9}' <= c && c <= '\u{d}') || c == ' ' || c == '\u{85}' || c == '\u{a0}' || c
        == '\u{1680}' || ('\u{2000}' <= c && c <= '\u{200a}') || c == '\u{2028}' || c
        == '\u{2029}' || c == '\u{202f}' || c == '\u{205f}' || c == '\u{3000}'
}

/// `line` without the whitespace at its start.
pub open spec fn trim_start(line: Seq<char>) -> Seq<char>
    decreases line.len(),
{
    if line.len() > 0 && white_space(line[0]) {
        trim_start(line.drop_first())
    } else {
        line
    }
}

/// `line` without the whitespace at its end.
pub open spec fn trim_end(line: Seq<char>) -> Seq<char>
    decreases line.len(),
{
    if line.len() > 0 && white_space(line.last()) {
        trim_end(line.drop_last())
    } else {
        line
    }
}

/// `line` without the whitespace at either end.
pub open spec fn trimmed(line: Seq<char>) -> Seq<char> {
    trim_end(trim_start(line))
}

/// The pieces of `text` between its line feeds; a text without a line feed is
/// one line, and a text that ends in a line feed has an empty last line.
pub open spec fn lines_of(text: Seq<char>) -> Seq<Seq<char>>
    decreases text.len(),
{
    if text.len() == 0 {
        seq![Seq::empty()]
    } else {
        let front = lines_of(text.drop_last());
        if text.last() == '\n' {
            front.push(Seq::empty())
        } else {
            front.drop_last().push(front.last().push(text.last()))
        }
    }
}

/// The trimmed lines of `lines` that are not empty, in order.
pub open spec fn kept_lines(lines: Seq<Seq<char>>) -> Seq<Seq<char>>
    decreases lines.len(),
{
    if lines.len() == 0 {
        Seq::empty()
    } else {
        let front = kept_lines(lines.drop_last());
        let line = trimmed(lines.last());
        if line.len() == 0 {
            front
        } else {
            front.push(line)
        }
    }
}

/// `text` with every line trimmed, empty lines dropped and the remaining
/// lines joined by one space each.
pub open spec fn collapsed(text: Seq<char>) -> Seq<char> {
    joined(kept_lines(lines_of(text)), seq![' '])
}

/// The first `count` characters of `text`, or all of it where it is shorter.
pub open spec fn first_chars(text: Seq<char>, count: nat) -> Seq<char> {
    if count >= text.len() {
        text
    } else {
        text.take(count as int)
    }
}

/// The summary of a plain text: collapsed, then cut to `count` characters.
pub open spec fn summary_of(text: Seq<char>, count: nat) -> Seq<char> {
    first_chars(collapsed(text), count)
}

/// A line whose first `start` characters are whitespace loses exactly those
/// at its start, if the next character, where there is one, is none.
proof fn lemma_trim_start(line: Seq<char>, start: int)
    requires
        0 <= start <= line.len(),
        forall|k: int| 0 <= k < start ==> white_space(#[trigger] line[k]),
        start < line.len() ==> !white_space(line[start]),
    ensures
        trim_start(line) == line.subrange(start, line.len() as int),
    decreases start,
{
    if start == 0 {
        assert(line.subrange(0, line.len() as int) == line);
    } else {
        assert(white_space(line[0]));
        let rest = line.drop_first();
        assert forall|k: int| 0 <= k < start - 1 implies white_space(#[trigger] rest[k]) by {
            assert(rest[k] == line[k + 1]);
        }
        lemma_trim_start(rest, start - 1);
        assert(rest.subrange(start - 1, rest.len() as int) == line.subrange(
            start,
            line.len() as int,
        ));
    }
}

/// A line whose characters from `end` on are whitespace loses exactly those
/// at its end, if the character before them, where there is one, is none.
proof fn lemma_trim_end(line: Seq<char>, end: int)
    requires
        0 <= end <= line.len(),
        forall|k: int| end <= k < line.len() ==> white_space(#[trigger] line[k]),
        end > 0 ==> !white_space(line[end - 1]),
    ensures
        trim_end(line) == line.subrange(0, end),
    decreases line.len() - end,
{
    if end == line.len() {
        assert(line.subrange(0, end) == line);
    } else {
        assert(white_space(line.last()));
        let rest = line.drop_last();
        assert forall|k: int| end <= k < rest.len() implies white_space(#[trigger] rest[k]) by {
            assert(rest[k] == line[k]);
        }
        lemma_trim_end(rest, end);
        assert(rest.subrange(0, end) == line.subrange(0, end));
    }
}

/// The characters `line[from..to]` without the whitespace at either end.
fn trim_range(line: &Vec<char>, from: usize, to: usize) -> (out: String)
    requires
        from <= to <= line.len(),
    ensures
        out@ == trimmed(line@.subrange(from as int, to as int)),
{
    let ghost whole = line@.subrange(from as int, to as int);
    let mut start: usize = from;
    while start < to && is_white_space(line[start])
        invariant
            from <= start <= to <= line.len(),
            whole == line@.subrange(from as int, to as int),
            forall|k: int| 0 <= k < start - from ==> white_space(#[trigger] whole[k]),
        decreases to - start,
    {
        start += 1;
    }
    proof {
        lemma_trim_start(whole, start - from);
    }
    let ghost tail = whole.subrange(start - from, whole.len() as int);
    let mut end: usize = to;
    while end > start && is_white_space(line[end - 1])
        invariant
            from <= start <= end <= to <= line.len(),
            whole == line@.subrange(from as int, to as int),
            tail == whole.subrange(start - from, whole.len() as int),
            forall|k: int| end - start <= k < tail.len() ==> white_space(#[trigger] tail[k]),
        decreases end - start,
    {
        end -= 1;
    }
    proof {
        lemma_trim_end(tail, end - start);
        assert(tail.subrange(0, end - start) == line@.subrange(start as int, end as int));
    }
    string_of(line, start, end)
}

/// Collapses a plain text: trims every line, drops the empty ones and joins
/// the rest by single spaces.
pub fn collapse(text: &str) -> (out: String)
    ensures
        out@ == collapsed(text@),
{
    let chars = chars_of(text);
    let mut kept: Vec<String> = Vec::new();
    let mut line_start: usize = 0;
    let mut i: usize = 0;
    let ghost mut done: Seq<Seq<char>> = Seq::empty();
    proof {
        assert(chars@.subrange(0, 0) =~= Seq::<char>::empty());
        assert(done.push(chars@.subrange(0, 0)) =~= seq![Seq::<char>::empty()]);
    }
    while i < chars.len()
        invariant
            line_start <= i <= chars.len(),
            lines_of(chars@.take(i as int)) == done.push(
                chars@.subrange(line_start as int, i as int),
            ),
            strings_view(kept@) == kept_lines(done),
        decreases chars.len() - i,
    {
        let ghost before = chars@.take(i as int);
        let ghost after = chars@.take(i + 1);
        proof {
            assert(after.drop_last() == before);
            assert(after.last() == chars@[i as int]);
        }
        if chars[i] == '\n' {
            let line = trim_range(&chars, line_start, i);
            proof {
                let full = done.push(chars@.subrange(line_start as int, i as int));
                assert(full.drop_last() == done);
                assert(lines_of(after) == full.push(Seq::empty()));
                assert(chars@.subrange(i + 1, i + 1) == Seq::<char>::empty());
            }
            if line.as_str().unicode_len() > 0 {
                proof {
                    lemma_strings_view_push(kept@, line);
                }
                kept.push(line);
            }
            proof {
                done = done.push(chars@.subrange(line_start as int, i as int));
            }
            line_start = i + 1;
        } else {
            proof {
                let full = done.push(chars@.subrange(line_start as int, i as int));
                assert(full.drop_last() == done);
                assert(full.last().push(chars@[i as int]) == chars@.subrange(
                    line_start as int,
                    i + 1,
                ));
            }
        }
        i += 1;
    }
    let line = trim_range(&chars, line_start, i);
    proof {
        let full = done.push(chars@.subrange(line_start as int, i as int));
        assert(chars@.take(i as int) == chars@);
        assert(full.drop_last() == done);
    }
    if line.as_str().unicode_len() > 0 {
        proof {
            lemma_strings_view_push(kept@, line);
        }
        kept.push(line);
    }
    proof {
        reveal_strlit(" ");
        assert(" "@ =~= seq![' ']);
    }
    join_strings(&kept, " ")
}

/// The first `count` characters of `text`.
pub fn take_chars(text: &str, count: usize) -> (out: String)
    ensures
        out@ == first_chars(text@, count as nat),
{
    let chars = chars_of(text);
    if count >= chars.len() {
        proof {
            assert(chars@.subrange(0, chars.len() as int) == chars@);
        }
        string_of(&chars, 0, chars.len())
    } else {
        string_of(&chars, 0, count)
    }
}

/// The summary of a plain text: collapsed, then cut to `count` characters.
pub fn summarize(text: &str, count: usize) -> (out: String)
    ensures
        out@ == summary_of(text@, count as nat),
{
    let flat = collapse(text);
    take_chars(flat.as_str(), count)
}

} // verus!

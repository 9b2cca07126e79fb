//! A run of lines of a file, with the number of its first line.

use crate::text::{decimal, lines_of, push_decimal, push_text, split_lines, texts};
use vstd::prelude::*;

verus! {

/// Lines of context kept on each side of the range that was asked for.
pub const PADDING: usize = 4;

/// A contiguous range of lines of a file. `start` is the number of the first
/// line, counted from 1.
#[derive(Debug, Clone, PartialEq, Eq, Default)]
pub struct Snippet {
    pub start: u32,
    pub lines: Vec<String>,
}

/// What a `Snippet` holds, as mathematical values.
pub struct SnippetView {
    pub start: nat,
    pub lines: Seq<Seq<char>>,
}

impl View for Snippet {
    type V = SnippetView;

    open spec fn view(&self) -> SnippetView {
        SnippetView { start: self.start as nat, lines: texts(self.lines@) }
    }
}

/// The snippet of `content` for `range`. Without a range it holds every line,
/// and starts at line 1. A range `(first, end)` names the lines with indices
/// `first` (from 0) up to but not including `end`; the snippet reaches
/// `PADDING` lines further on both sides, as far as the text has them.
pub open spec fn snippet_of(content: Seq<char>, range: Option<(nat, nat)>) -> SnippetView {
    let all = lines_of(content);
    match range {
        None => SnippetView { start: 1, lines: all },
        Some((first, end)) => {
            let from: nat = if first >= PADDING {
                (first - PADDING) as nat
            } else {
                0
            };
            let stop: nat = if end + PADDING <= all.len() {
                (end + PADDING) as nat
            } else {
                all.len()
            };
            SnippetView {
                start: if 1 + from <= u32::MAX {
                    (1 + from) as nat
                } else {
                    u32::MAX as nat
                },
                lines: if from <= stop {
                    all.subrange(from as int, stop as int)
                } else {
                    Seq::empty()
                },
            }
        },
    }
}

/// The range of a snippet, with both ends as mathematical numbers.
pub open spec fn range_view(range: Option<(usize, usize)>) -> Option<(nat, nat)> {
    match range {
        None => None,
        Some((first, end)) => Some((first as nat, end as nat)),
    }
}

/// One row of a numbered listing: the number, a colon and a space, the line.
pub open spec fn numbered_row(number: nat, line: Seq<char>) -> Seq<char> {
    decimal(number) + seq![':', ' '] + line
}

/// `lines` as rows numbered from `start`, with a line feed between rows.
pub open spec fn numbered(start: nat, lines: Seq<Seq<char>>) -> Seq<char>
    decreases lines.len(),
{
    if lines.len() == 0 {
        Seq::empty()
    } else {
        let row = numbered_row((start + lines.len() - 1) as nat, lines.last());
        if lines.len() == 1 {
            row
        } else {
            numbered(start, lines.drop_last()) + seq!['\n'] + row
        }
    }
}

impl Snippet {
    /// The snippet of `content` for `range`.
    pub fn new(content: &str, range: Option<(usize, usize)>) -> (snippet: Snippet)
        ensures
            snippet@ == snippet_of(content@, range_view(range)),
    {
        let all = split_lines(content);
        match range {
            None => {
                let snippet = Snippet { start: 1, lines: all };
                assert(snippet@.lines == lines_of(content@));
                snippet
            },
            Some((first, end)) => {
                let from: usize = if first >= PADDING {
                    first - PADDING
                } else {
                    0
                };
                let stop: usize = if all.len() >= PADDING && end <= all.len() - PADDING {
                    end + PADDING
                } else {
                    all.len()
                };
                let start: u32 = if from < u32::MAX as usize {
                    1 + from as u32
                } else {
                    u32::MAX
                };
                let mut lines: Vec<String> = Vec::new();
                let mut i: usize = from;
                while i < stop
                    invariant
                        from <= i,
                        stop <= all.len(),
                        from <= stop ==> i <= stop,
                        from <= stop ==> texts(lines@) == texts(all@).subrange(
                            from as int,
                            i as int,
                        ),
                        from > stop ==> lines@.len() == 0,
                    decreases stop - i,
                {
                    let ghost before = lines@;
                    let line = all[i].clone();
                    lines.push(line);
                    assert(texts(lines@) == texts(before).push(line@));
                    assert(texts(all@).subrange(from as int, i + 1) == texts(all@).subrange(
                        from as int,
                        i as int,
                    ).push(all@[i as int]@));
                    i += 1;
                }
                let snippet = Snippet { start, lines };
                assert(snippet@.lines == snippet_of(content@, range_view(range)).lines);
                snippet
            },
        }
    }

    /// The lines, each behind its number, a colon and a space, with a line
    /// feed between them.
    pub fn to_string_numbered(self) -> (listing: String)
        ensures
            listing@ == numbered(self@.start, self@.lines),
    {
        let mut listing = String::new();
        let mut i: usize = 0;
        while i < self.lines.len()
            invariant
                i <= self.lines.len(),
                listing@ == numbered(self@.start, self@.lines.take(i as int)),
            decreases self.lines.len() - i,
        {
            let ghost shown = self@.lines.take(i + 1);
            assert(shown.drop_last() == self@.lines.take(i as int));
            assert(shown.last() == self.lines[i as int]@);
            if i > 0 {
                listing.push('\n');
            }
            push_decimal(&mut listing, self.start as u128 + i as u128);
            listing.push(':');
            listing.push(' ');
            push_text(&mut listing, self.lines[i].as_str());
            i += 1;
        }
        assert(self@.lines.take(self.lines.len() as int) == self@.lines);
        listing
    }
}

} // verus!

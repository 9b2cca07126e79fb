//! The file editor of the execution server: which paths it takes, what each
//! operation makes of the text of a file, and the history that undoes it.

use crate::rpc::Code;
use crate::snippet::{snippet_of, Snippet, SnippetView};
use crate::text::{
    chars_of, count_newlines, find_from, lemma_line_count, lemma_lines_join, lines_of,
    newline_count, occurs_at, push_text, same_text, string_of, string_view, text_of, texts,
};
use vstd::prelude::*;

verus! {

/// Why the editor turns a request down.
#[derive(Debug, Clone, Copy, PartialEq, Eq, Structural)]
pub enum EditorError {
    /// The path does not start at the root.
    RelativePath,
    /// The file could not be read.
    Unreadable,
    /// A file is already there.
    AlreadyExists,
    /// The text to replace does not occur.
    NoMatch,
    /// The text to replace occurs more than once.
    MultipleMatches,
    /// The file has fewer line feeds than the line number asks for.
    LineOutOfRange,
    /// The editor has never written this path.
    NoHistory,
    /// Every change to the path is already undone.
    OldestChange,
}

/// The status under which the server reports `error`.
pub open spec fn code_of(error: EditorError) -> Code {
    match error {
        EditorError::RelativePath => Code::InvalidArgument,
        EditorError::Unreadable => Code::Unknown,
        EditorError::AlreadyExists => Code::AlreadyExists,
        EditorError::NoMatch => Code::NotFound,
        EditorError::MultipleMatches => Code::InvalidArgument,
        EditorError::LineOutOfRange => Code::InvalidArgument,
        EditorError::NoHistory => Code::NotFound,
        EditorError::OldestChange => Code::ResourceExhausted,
    }
}

/// `path` between double quotes.
pub open spec fn quoted(path: Seq<char>) -> Seq<char> {
    seq!['"'] + path + seq!['"']
}

/// Appends `path` between double quotes to `text`.
fn push_quoted(text: &mut String, path: &str)
    ensures
        final(text)@ == old(text)@ + quoted(path@),
{
    text.push('"');
    push_text(text, path);
    text.push('"');
    assert(text@ =~= old(text)@ + quoted(path@));
}

/// The words in which `error` is reported for the file at `path`.
pub open spec fn error_text(error: EditorError, path: Seq<char>) -> Seq<char> {
    match error {
        EditorError::RelativePath => "The path must be absolute"@,
        EditorError::Unreadable => "Failed to read "@ + quoted(path),
        EditorError::AlreadyExists => quoted(path) + " already exists"@,
        EditorError::NoMatch => "No match found to `to_replace` for replacement"@,
        EditorError::MultipleMatches =>
            "Multiple matches found to `to_replace`, a unique match is necessary"@,
        EditorError::LineOutOfRange => "There are not that many lines in "@ + quoted(path),
        EditorError::NoHistory => "No history found for "@ + quoted(path),
        EditorError::OldestChange => "Already at oldest change"@,
    }
}

impl EditorError {
    /// The status under which the server reports this error.
    pub fn code(&self) -> (code: Code)
        ensures
            code == code_of(*self),
    {
        match self {
            EditorError::RelativePath => Code::InvalidArgument,
            EditorError::Unreadable => Code::Unknown,
            EditorError::AlreadyExists => Code::AlreadyExists,
            EditorError::NoMatch => Code::NotFound,
            EditorError::MultipleMatches => Code::InvalidArgument,
            EditorError::LineOutOfRange => Code::InvalidArgument,
            EditorError::NoHistory => Code::NotFound,
            EditorError::OldestChange => Code::ResourceExhausted,
        }
    }

    /// The words in which this error is reported for the file at `path`.
    pub fn message(&self, path: &str) -> (text: String)
        ensures
            text@ == error_text(*self, path@),
    {
        match self {
            EditorError::RelativePath => text_of("The path must be absolute"),
            EditorError::Unreadable => {
                let mut text = text_of("Failed to read ");
                push_quoted(&mut text, path);
                text
            },
            EditorError::AlreadyExists => {
                let mut text = String::new();
                push_quoted(&mut text, path);
                push_text(&mut text, " already exists");
                text
            },
            EditorError::NoMatch => text_of("No match found to `to_replace` for replacement"),
            EditorError::MultipleMatches => text_of(
                "Multiple matches found to `to_replace`, a unique match is necessary",
            ),
            EditorError::LineOutOfRange => {
                let mut text = text_of("There are not that many lines in ");
                push_quoted(&mut text, path);
                text
            },
            EditorError::NoHistory => {
                let mut text = text_of("No history found for ");
                push_quoted(&mut text, path);
                text
            },
            EditorError::OldestChange => text_of("Already at oldest change"),
        }
    }
}

/// Whether `path` names a file from the root of the file system.
pub open spec fn is_absolute(path: Seq<char>) -> bool {
    path.len() > 0 && path[0] == '/'
}

/// Takes `path` where it is absolute.
pub fn validate_path(path: &str) -> (valid: Result<String, EditorError>)
    ensures
        match valid {
            Ok(absolute) => is_absolute(path@) && absolute@ == path@,
            Err(error) => !is_absolute(path@) && error == EditorError::RelativePath,
        },
{
    let mut found = false;
    let mut first = true;
    for c in it: path.chars()
        invariant
            it.seq() == path@,
            first == (it.index() == 0),
            found == (it.index() > 0 && path@[0] == '/'),
    {
        if first {
            found = c == '/';
            first = false;
        }
    }
    if found {
        Ok(text_of(path))
    } else {
        Err(EditorError::RelativePath)
    }
}

/// The lines of a file to show: from line `start`, counted from 1, to line
/// `end`, or to the last line where there is no `end`.
#[derive(Debug, Clone, Copy, PartialEq, Eq, Structural)]
pub struct ViewRange {
    pub start: u32,
    pub end: Option<u32>,
}

/// What a view of `content` shows: all of it without a range; with one, its
/// lines and the context on both sides. A `start` of 0 counts as 1.
pub open spec fn viewed(content: Seq<char>, range: Option<ViewRange>) -> SnippetView {
    match range {
        None => snippet_of(content, None),
        Some(range) => {
            let first: nat = if range.start > 0 {
                (range.start - 1) as nat
            } else {
                0
            };
            let end: nat = match range.end {
                Some(end) => end as nat,
                None => newline_count(content) + 1,
            };
            snippet_of(content, Some((first, end)))
        },
    }
}

/// The count of line feeds of a text is at most its length.
pub proof fn lemma_newline_count_bound(s: Seq<char>)
    ensures
        newline_count(s) <= s.len(),
    decreases s.len(),
{
    if s.len() > 0 {
        lemma_newline_count_bound(s.drop_last());
    }
}

/// The snippet of `content` for the lines with indices `first` up to and
/// including `last`.
fn snippet_through(content: &str, first: usize, last: usize) -> (snippet: Snippet)
    requires
        last <= content@.len() <= usize::MAX,
    ensures
        snippet@ == snippet_of(content@, Some((first as nat, (last + 1) as nat))),
{
    proof {
        lemma_line_count(content@);
        lemma_newline_count_bound(content@);
    }
    Snippet::new(content, Some((first, last.saturating_add(1))))
}

/// What a view of `content` shows.
pub fn show(content: &str, view_range: Option<ViewRange>) -> (snippet: Snippet)
    ensures
        snippet@ == viewed(content@, view_range),
{
    match view_range {
        None => Snippet::new(content, None),
        Some(range) => {
            let first: usize = range.start.saturating_sub(1) as usize;
            match range.end {
                Some(end) => Snippet::new(content, Some((first, end as usize))),
                None => {
                    let chars = chars_of(content);
                    let count = count_newlines(&chars, chars.len());
                    proof {
                        assert(chars@.take(chars.len() as int) == chars@);
                        lemma_newline_count_bound(content@);
                    }
                    snippet_through(content, first, count)
                },
            }
        },
    }
}

/// Whether `old` occurs in `content` at all.
pub open spec fn occurs(content: Seq<char>, old: Seq<char>) -> bool {
    exists|at: int| occurs_at(content, old, at)
}

/// Whether `old` occurs in `content` in two places.
pub open spec fn occurs_twice(content: Seq<char>, old: Seq<char>) -> bool {
    exists|at: int, other: int|
        #![trigger occurs_at(content, old, at), occurs_at(content, old, other)]
        at != other && occurs_at(content, old, at) && occurs_at(content, old, other)
}

/// `content` with `new` in place of the `old` that stands at `at`.
pub open spec fn spliced(content: Seq<char>, at: int, old: Seq<char>, new: Seq<char>) -> Seq<char> {
    content.take(at) + new + content.skip(at + old.len())
}

/// What replacing `old` by `new` makes of `content`: the new text, and the
/// snippet round the lines of the replacement. `old` must occur, and in one
/// place only.
pub open spec fn replaced(content: Seq<char>, old: Seq<char>, new: Seq<char>) -> Result<
    (Seq<char>, SnippetView),
    EditorError,
> {
    if !occurs(content, old) {
        Err(EditorError::NoMatch)
    } else if occurs_twice(content, old) {
        Err(EditorError::MultipleMatches)
    } else {
        let at = choose|at: int| occurs_at(content, old, at);
        let text = spliced(content, at, old, new);
        let start = newline_count(text.take(at));
        let end = start + newline_count(new);
        Ok((text, snippet_of(text, Some((start, end + 1)))))
    }
}

/// The replacement to make where the request names none: nothing.
pub open spec fn new_text(replacement: Option<&str>) -> Seq<char> {
    match replacement {
        Some(text) => text@,
        None => Seq::empty(),
    }
}

/// Appends `source[from..to]` to `target`.
fn extend(target: &mut Vec<char>, source: &Vec<char>, from: usize, to: usize)
    requires
        from <= to <= source.len(),
    ensures
        final(target)@ == old(target)@ + source@.subrange(from as int, to as int),
{
    let mut i: usize = from;
    while i < to
        invariant
            from <= i <= to <= source.len(),
            target@ == old(target)@ + source@.subrange(from as int, i as int),
        decreases to - i,
    {
        target.push(source[i]);
        i += 1;
    }
}

/// The line feeds of a text are those of its two parts.
pub proof fn lemma_newline_count_add(a: Seq<char>, b: Seq<char>)
    ensures
        newline_count(a + b) == newline_count(a) + newline_count(b),
    decreases b.len(),
{
    if b.len() == 0 {
        assert(a + b == a);
    } else {
        assert((a + b).drop_last() == a + b.drop_last());
        lemma_newline_count_add(a, b.drop_last());
    }
}

/// Replaces the one place where `to_replace` stands in `content` by
/// `replacement`, or by nothing where there is none.
pub fn replace(content: &str, to_replace: &str, replacement: Option<&str>) -> (result:
    Result<(String, Snippet), EditorError>)
    ensures
        match replaced(content@, to_replace@, new_text(replacement)) {
            Ok((text, snippet)) => {
                &&& result is Ok
                &&& result.unwrap().0@ == text
                &&& result.unwrap().1@ == snippet
            },
            Err(error) => result == Err::<(String, Snippet), EditorError>(error),
        },
{
    let hay = chars_of(content);
    let needle = chars_of(to_replace);
    let at = match find_from(&hay, &needle, 0) {
        Some(at) => at,
        None => {
            return Err(EditorError::NoMatch);
        },
    };
    assert(occurs_at(hay@, needle@, at as int));
    if at < hay.len() {
        match find_from(&hay, &needle, at + 1) {
            Some(other) => {
                assert(occurs_at(hay@, needle@, other as int));
                return Err(EditorError::MultipleMatches);
            },
            None => {},
        }
    }
    assert forall|other: int| occurs_at(hay@, needle@, other) implies other == at by {
        if other > at {
            assert(at < hay.len());
        }
    }
    let new = match replacement {
        Some(text) => chars_of(text),
        None => Vec::new(),
    };
    let mut fresh: Vec<char> = Vec::new();
    extend(&mut fresh, &hay, 0, at);
    extend(&mut fresh, &new, 0, new.len());
    extend(&mut fresh, &hay, at + needle.len(), hay.len());
    let ghost text = spliced(hay@, at as int, needle@, new@);
    assert(fresh@ =~= text);
    assert(fresh@.len() == at + new@.len() + (hay@.len() - at - needle@.len()));
    assert(at + new.len() <= fresh.len());
    let start = count_newlines(&fresh, at);
    let end = count_newlines(&fresh, at + new.len());
    proof {
        assert(text.take(at + new.len()) =~= text.take(at as int) + new@);
        lemma_newline_count_add(text.take(at as int), new@);
        lemma_newline_count_bound(text.take(at + new.len()));
    }
    let changed = string_of(&fresh);
    let snippet = snippet_through(changed.as_str(), start, end);
    Ok((changed, snippet))
}

/// Whether the character at `at` is the line feed that ends line `line` of
/// `content`, with lines counted from 1.
pub open spec fn ends_line(content: Seq<char>, line: nat, at: int) -> bool {
    &&& 0 <= at < content.len()
    &&& content[at] == '\n'
    &&& newline_count(content.take(at)) + 1 == line
}

/// `content` with `line` as a new line behind line `line_number`, or as the
/// first line where `line_number` is 0.
pub open spec fn with_line(content: Seq<char>, line_number: nat, line: Seq<char>) -> Seq<char> {
    if line_number == 0 {
        line + seq!['\n'] + content
    } else {
        let at = choose|at: int| ends_line(content, line_number, at);
        content.take(at) + seq!['\n'] + line + content.skip(at)
    }
}

/// What inserting `line` behind line `line_number` makes of `content`: the
/// new text, and the snippet round the new lines. The file must have as many
/// line feeds as `line_number` says.
pub open spec fn inserted(content: Seq<char>, line_number: nat, line: Seq<char>) -> Result<
    (Seq<char>, SnippetView),
    EditorError,
> {
    if line_number > newline_count(content) {
        Err(EditorError::LineOutOfRange)
    } else {
        let text = with_line(content, line_number, line);
        let first: nat = if line_number > 0 {
            (line_number - 1) as nat
        } else {
            0
        };
        let end = first + 1 + newline_count(line);
        Ok((text, snippet_of(text, Some((first, end + 1)))))
    }
}

/// A longer start of a text has no fewer line feeds.
pub proof fn lemma_newline_count_grows(s: Seq<char>, shorter: int, longer: int)
    requires
        0 <= shorter <= longer <= s.len(),
    ensures
        newline_count(s.take(shorter)) <= newline_count(s.take(longer)),
{
    assert(s.take(longer) =~= s.take(shorter) + s.subrange(shorter, longer));
    lemma_newline_count_add(s.take(shorter), s.subrange(shorter, longer));
}

/// One line feed at most ends a line.
pub proof fn lemma_line_end_unique(content: Seq<char>, line: nat, at: int, other: int)
    requires
        ends_line(content, line, at),
        ends_line(content, line, other),
    ensures
        at == other,
{
    if at < other {
        assert(content.take(at + 1).drop_last() =~= content.take(at));
        lemma_newline_count_grows(content, at + 1, other);
    } else if other < at {
        assert(content.take(other + 1).drop_last() =~= content.take(other));
        lemma_newline_count_grows(content, other + 1, at);
    }
}

/// An insertion adds the lines of `line` behind the first `line_number`
/// lines of the text, and leaves every other line as it was.
pub proof fn lemma_insert_adds_lines(content: Seq<char>, line_number: nat, line: Seq<char>)
    requires
        line_number <= newline_count(content),
    ensures
        lines_of(with_line(content, line_number, line)) == lines_of(content).take(
            line_number as int,
        ) + lines_of(line) + lines_of(content).skip(line_number as int),
{
    lemma_line_count(content);
    if line_number == 0 {
        lemma_lines_join(line, content);
        assert(lines_of(content).take(0) == Seq::<Seq<char>>::empty());
        assert(lines_of(content).skip(0) == lines_of(content));
    } else {
        lemma_line_end_exists(content, line_number);
        let at = choose|at: int| ends_line(content, line_number, at);
        let head = content.take(at);
        let tail = content.skip(at + 1);
        assert(content == head + seq!['\n'] + tail);
        lemma_lines_join(head, tail);
        lemma_line_count(head);
        assert(lines_of(content).take(line_number as int) == lines_of(head));
        assert(lines_of(content).skip(line_number as int) == lines_of(tail));
        assert(with_line(content, line_number, line) == head + seq!['\n'] + (line + seq!['\n']
            + tail));
        lemma_lines_join(line, tail);
        lemma_lines_join(head, line + seq!['\n'] + tail);
    }
}

/// A text has a line feed that ends each line up to the count of its line
/// feeds.
pub proof fn lemma_line_end_exists(content: Seq<char>, line: nat)
    requires
        1 <= line <= newline_count(content),
    ensures
        exists|at: int| ends_line(content, line, at),
    decreases content.len(),
{
    let shorter = content.drop_last();
    let last = content.len() - 1;
    if content.last() == '\n' && newline_count(shorter) + 1 == line {
        assert(content.take(last) == shorter);
        assert(ends_line(content, line, last));
    } else {
        lemma_line_end_exists(shorter, line);
        let at = choose|at: int| ends_line(shorter, line, at);
        assert(content.take(at) == shorter.take(at));
        assert(ends_line(content, line, at));
    }
}

/// Inserts `line` as a new line behind line `line_number` of `content`.
pub fn insert_line(content: &str, line_number: u32, line: &str) -> (result: Result<
    (String, Snippet),
    EditorError,
>)
    ensures
        match inserted(content@, line_number as nat, line@) {
            Ok((text, snippet)) => {
                &&& result is Ok
                &&& result.unwrap().0@ == text
                &&& result.unwrap().1@ == snippet
            },
            Err(error) => result == Err::<(String, Snippet), EditorError>(error),
        },
{
    let chars = chars_of(content);
    let new = chars_of(line);
    let mut fresh: Vec<char> = Vec::new();
    if line_number == 0 {
        extend(&mut fresh, &new, 0, new.len());
        fresh.push('\n');
        extend(&mut fresh, &chars, 0, chars.len());
        assert(fresh@ =~= with_line(chars@, 0, new@));
    } else {
        let mut at: usize = 0;
        let mut seen: usize = 0;
        while at < chars.len() && !(chars[at] == '\n' && seen + 1 == line_number as usize)
            invariant
                at <= chars.len(),
                seen <= at,
                seen == newline_count(chars@.take(at as int)),
                seen < line_number,
            decreases chars.len() - at,
        {
            assert(chars@.take(at + 1).drop_last() == chars@.take(at as int));
            if chars[at] == '\n' {
                seen += 1;
            }
            at += 1;
        }
        if at == chars.len() {
            assert(chars@.take(at as int) == chars@);
            return Err(EditorError::LineOutOfRange);
        }
        proof {
            assert(ends_line(chars@, line_number as nat, at as int));
            let chosen = choose|chosen: int| ends_line(chars@, line_number as nat, chosen);
            lemma_line_end_unique(chars@, line_number as nat, at as int, chosen);
            assert(chars@.take(at + 1).drop_last() =~= chars@.take(at as int));
            assert(chars@.take(at + 1).last() == '\n');
            assert(newline_count(chars@.take(at + 1)) == line_number);
            lemma_newline_count_grows(chars@, at + 1, chars@.len() as int);
            assert(chars@.take(chars@.len() as int) == chars@);
            assert(line_number <= newline_count(chars@));
        }
        extend(&mut fresh, &chars, 0, at);
        fresh.push('\n');
        extend(&mut fresh, &new, 0, new.len());
        extend(&mut fresh, &chars, at, chars.len());
        assert(fresh@ =~= with_line(chars@, line_number as nat, new@));
    }
    let first: usize = (line_number.saturating_sub(1)) as usize;
    let count = count_newlines(&new, new.len());
    proof {
        assert(new@.take(new.len() as int) == new@);
        lemma_newline_count_bound(new@);
        lemma_newline_count_bound(chars@);
        assert(fresh@.len() == chars@.len() + 1 + new@.len());
        assert(first + 1 + count <= fresh.len());
    }
    let changed = string_of(&fresh);
    let snippet = snippet_through(changed.as_str(), first, first + 1 + count);
    Ok((changed, snippet))
}

/// What the editor remembers of one path: the text it wrote last, and below
/// it the texts that the file had before each change, the oldest first.
#[derive(Debug, Clone, PartialEq, Eq, Default)]
pub struct FileHistoryEntry {
    pub latest: String,
    pub history: Vec<String>,
}

/// A `FileHistoryEntry` as mathematical values.
pub struct EntryView {
    pub latest: Seq<char>,
    pub history: Seq<Seq<char>>,
}

impl View for FileHistoryEntry {
    type V = EntryView;

    open spec fn view(&self) -> EntryView {
        EntryView { latest: self.latest@, history: texts(self.history@) }
    }
}

/// The history of every path that the editor has written.
#[derive(Debug)]
pub struct FileHistory {
    entries: Vec<(String, FileHistoryEntry)>,
}

/// The map that a list of entries stands for; of two entries for one path
/// the later counts.
pub open spec fn history_of(entries: Seq<(String, FileHistoryEntry)>) -> Map<Seq<char>, EntryView>
    decreases entries.len(),
{
    if entries.len() == 0 {
        Map::empty()
    } else {
        history_of(entries.drop_last()).insert(entries.last().0@, entries.last().1@)
    }
}

impl View for FileHistory {
    type V = Map<Seq<char>, EntryView>;

    closed spec fn view(&self) -> Map<Seq<char>, EntryView> {
        history_of(self.entries@)
    }
}

/// The texts that the editor holds below the latest of `path`: none for a
/// path it never wrote.
pub open spec fn stack_of(history: Map<Seq<char>, EntryView>, path: Seq<char>) -> Seq<Seq<char>> {
    if history.contains_key(path) {
        history[path].history
    } else {
        Seq::empty()
    }
}

/// The history after the editor has written `content` to `path`. `prior` is
/// the text that the file had before: it goes on top of what the editor
/// holds for the path. A file that was not there before starts anew, with
/// nothing below.
pub open spec fn recorded(
    history: Map<Seq<char>, EntryView>,
    path: Seq<char>,
    prior: Option<Seq<char>>,
    content: Seq<char>,
) -> Map<Seq<char>, EntryView> {
    match prior {
        Some(before) => history.insert(
            path,
            EntryView { latest: content, history: stack_of(history, path).push(before) },
        ),
        None => history.insert(path, EntryView { latest: content, history: Seq::empty() }),
    }
}

/// What undoing the last change to `path` gives: the history after it, and
/// the text that the file gets back.
pub open spec fn undone(history: Map<Seq<char>, EntryView>, path: Seq<char>) -> Result<
    (Map<Seq<char>, EntryView>, Seq<char>),
    EditorError,
> {
    if !history.contains_key(path) {
        Err(EditorError::NoHistory)
    } else if history[path].history.len() == 0 {
        Err(EditorError::OldestChange)
    } else {
        let entry = history[path];
        Ok(
            (
                history.insert(
                    path,
                    EntryView { latest: entry.history.last(), history: entry.history.drop_last() },
                ),
                entry.history.last(),
            ),
        )
    }
}

/// Taking out an entry for `path` changes nothing once `path` is set anew.
proof fn lemma_history_without(
    entries: Seq<(String, FileHistoryEntry)>,
    at: int,
    path: Seq<char>,
    entry: EntryView,
)
    requires
        0 <= at < entries.len(),
        entries[at].0@ == path,
    ensures
        history_of(entries.remove(at)).insert(path, entry) == history_of(entries).insert(
            path,
            entry,
        ),
    decreases entries.len(),
{
    if at == entries.len() - 1 {
        assert(entries.remove(at) =~= entries.drop_last());
        assert(history_of(entries.drop_last()).insert(path, entries.last().1@).insert(path, entry)
            =~= history_of(entries.drop_last()).insert(path, entry));
    } else {
        let last = entries.last();
        assert(entries.remove(at).drop_last() =~= entries.drop_last().remove(at));
        assert(entries.remove(at).last() == last);
        lemma_history_without(entries.drop_last(), at, path, entry);
        let shorter = history_of(entries.drop_last().remove(at));
        let longer = history_of(entries.drop_last());
        assert(shorter.insert(last.0@, last.1@).insert(path, entry) =~= shorter.insert(
            path,
            entry,
        ).insert(last.0@, last.1@).insert(path, entry));
        assert(longer.insert(last.0@, last.1@).insert(path, entry) =~= longer.insert(
            path,
            entry,
        ).insert(last.0@, last.1@).insert(path, entry));
    }
}

impl FileHistory {
    /// The history of an editor that has written nothing.
    pub fn new() -> (history: FileHistory)
        ensures
            history@ == Map::<Seq<char>, EntryView>::empty(),
    {
        FileHistory { entries: Vec::new() }
    }

    /// The index of the entry that counts for `path`.
    fn find(&self, path: &str) -> (found: Option<usize>)
        ensures
            match found {
                Some(at) => {
                    &&& at < self.entries.len()
                    &&& self.entries[at as int].0@ == path@
                    &&& self@.contains_key(path@)
                    &&& self@[path@] == self.entries[at as int].1@
                },
                None => !self@.contains_key(path@),
            },
    {
        let ghost all = self.entries@;
        let mut i: usize = self.entries.len();
        assert(all.take(i as int) == all);
        while i > 0
            invariant
                i <= self.entries.len(),
                all == self.entries@,
                history_of(all).contains_key(path@) == history_of(all.take(i as int)).contains_key(
                    path@,
                ),
                history_of(all).contains_key(path@) ==> history_of(all)[path@] == history_of(
                    all.take(i as int),
                )[path@],
            decreases i,
        {
            assert(all.take(i as int).drop_last() == all.take(i - 1));
            assert(all.take(i as int).last() == all[i - 1]);
            if same_text(self.entries[i - 1].0.as_str(), path) {
                return Some(i - 1);
            }
            i -= 1;
        }
        None
    }

    /// Whether the editor has written `path`.
    pub fn contains(&self, path: &str) -> (found: bool)
        ensures
            found == self@.contains_key(path@),
    {
        self.find(path).is_some()
    }

    /// Notes that the editor has written `content` to `path`, where the file
    /// held `prior` before, or was not there.
    pub fn write(&mut self, path: &str, prior: Option<String>, content: String)
        ensures
            final(self)@ == recorded(old(self)@, path@, string_view(prior), content@),
    {
        let mut below: Vec<String> = Vec::new();
        assert(texts(below@) =~= Seq::<Seq<char>>::empty());
        let ghost start = self@;
        let found = self.find(path);
        let ghost before = self.entries@;
        let name = match found {
            Some(at) => {
                let (name, entry) = self.entries.remove(at);
                if prior.is_some() {
                    below = entry.history;
                }
                name
            },
            None => text_of(path),
        };
        assert(prior is Some ==> texts(below@) == stack_of(start, path@));
        match prior {
            Some(text) => {
                let ghost held = below@;
                below.push(text);
                assert(texts(below@) =~= texts(held).push(text@));
            },
            None => {},
        }
        let entry = FileHistoryEntry { latest: content, history: below };
        proof {
            if found is Some {
                lemma_history_without(before, found.unwrap() as int, path@, entry@);
            }
        }
        let ghost without = self.entries@;
        self.entries.push((name, entry));
        assert(self.entries@.drop_last() == without);
        assert(self.entries@.last() == (name, entry));
    }

    /// The text that the file at `path` gets back when its last change is
    /// undone.
    pub fn previous(&self, path: &str) -> (text: Result<String, EditorError>)
        ensures
            match undone(self@, path@) {
                Ok((_, restored)) => text is Ok && text.unwrap()@ == restored,
                Err(error) => text == Err::<String, EditorError>(error),
            },
    {
        match self.find(path) {
            None => Err(EditorError::NoHistory),
            Some(at) => {
                let entry = &self.entries[at].1;
                if entry.history.len() == 0 {
                    Err(EditorError::OldestChange)
                } else {
                    Ok(entry.history[entry.history.len() - 1].clone())
                }
            },
        }
    }

    /// Undoes the last change to `path`: the text below becomes the latest.
    /// Where there is nothing to undo, nothing changes.
    pub fn undo(&mut self, path: &str)
        ensures
            final(self)@ == match undone(old(self)@, path@) {
                Ok((history, _)) => history,
                Err(_) => old(self)@,
            },
    {
        match self.find(path) {
            None => {},
            Some(at) => {
                if self.entries[at].1.history.len() > 0 {
                    let ghost before = self.entries@;
                    let (name, entry) = self.entries.remove(at);
                    let FileHistoryEntry { latest, history } = entry;
                    let mut history = history;
                    let ghost above = history@;
                    let restored = history.pop().unwrap();
                    assert(texts(history@) =~= texts(above).drop_last());
                    let entry = FileHistoryEntry { latest: restored, history };
                    proof {
                        lemma_history_without(before, at as int, path@, entry@);
                    }
                    let ghost without = self.entries@;
                    self.entries.push((name, entry));
                    assert(self.entries@.drop_last() == without);
                    assert(self.entries@.last() == (name, entry));
                }
            },
        }
    }
}

/// A request to the editor.
#[derive(Debug, Clone, PartialEq, Eq)]
pub enum Request {
    View { path: String, view_range: Option<ViewRange> },
    Create { path: String, file_text: String },
    StringReplace { path: String, to_replace: String, replacement: Option<String> },
    Insert { path: String, line_number: u32, line: String },
    UndoEdit { path: String },
}

/// A `Request` as mathematical values.
pub enum RequestView {
    View { path: Seq<char>, view_range: Option<ViewRange> },
    Create { path: Seq<char>, file_text: Seq<char> },
    StringReplace { path: Seq<char>, to_replace: Seq<char>, replacement: Seq<char> },
    Insert { path: Seq<char>, line_number: nat, line: Seq<char> },
    UndoEdit { path: Seq<char> },
}

impl View for Request {
    type V = RequestView;

    open spec fn view(&self) -> RequestView {
        match self {
            Request::View { path, view_range } => RequestView::View {
                path: path@,
                view_range: *view_range,
            },
            Request::Create { path, file_text } => RequestView::Create {
                path: path@,
                file_text: file_text@,
            },
            Request::StringReplace { path, to_replace, replacement } => RequestView::StringReplace {
                path: path@,
                to_replace: to_replace@,
                replacement: match replacement {
                    Some(text) => text@,
                    None => Seq::empty(),
                },
            },
            Request::Insert { path, line_number, line } => RequestView::Insert {
                path: path@,
                line_number: *line_number as nat,
                line: line@,
            },
            Request::UndoEdit { path } => RequestView::UndoEdit { path: path@ },
        }
    }
}

impl RequestView {
    /// The path of the file that the request is about.
    pub open spec fn path(self) -> Seq<char> {
        match self {
            RequestView::View { path, .. } => path,
            RequestView::Create { path, .. } => path,
            RequestView::StringReplace { path, .. } => path,
            RequestView::Insert { path, .. } => path,
            RequestView::UndoEdit { path } => path,
        }
    }
}

/// What a request needs to know of its file before it can be answered.
#[derive(Debug, Clone, Copy, PartialEq, Eq, Structural)]
pub enum Needs {
    /// The text of the file.
    Contents,
    /// Whether the file exists.
    Existence,
    /// Nothing.
    Nothing,
}

/// What the server answers: a snippet, or, to a create, nothing.
#[derive(Debug, Clone, PartialEq, Eq)]
pub enum Reply {
    Snippet(Snippet),
    Created,
}

/// A `Reply` as mathematical values.
pub enum ReplyView {
    Snippet(SnippetView),
    Created,
}

impl View for Reply {
    type V = ReplyView;

    open spec fn view(&self) -> ReplyView {
        match self {
            Reply::Snippet(snippet) => ReplyView::Snippet(snippet@),
            Reply::Created => ReplyView::Created,
        }
    }
}

/// What a request comes to: the reply, the text to write to its file, if
/// any, and the text that the file held before, where it was there.
#[derive(Debug, Clone, PartialEq, Eq)]
pub struct Outcome {
    pub reply: Reply,
    pub write: Option<String>,
    pub prior: Option<String>,
}

/// An `Outcome` as mathematical values.
pub struct OutcomeView {
    pub reply: ReplyView,
    pub write: Option<Seq<char>>,
    pub prior: Option<Seq<char>>,
}

impl View for Outcome {
    type V = OutcomeView;

    open spec fn view(&self) -> OutcomeView {
        OutcomeView {
            reply: self.reply@,
            write: string_view(self.write),
            prior: string_view(self.prior),
        }
    }
}

/// What `request` needs to know of its file, where its path is absolute.
pub open spec fn needed(request: RequestView) -> Result<Needs, EditorError> {
    if !is_absolute(request.path()) {
        Err(EditorError::RelativePath)
    } else {
        match request {
            RequestView::Create { .. } => Ok(Needs::Existence),
            RequestView::UndoEdit { .. } => Ok(Needs::Nothing),
            _ => Ok(Needs::Contents),
        }
    }
}

/// An edit of a file that held `prior`: the snippet to answer with, the new
/// text to write, and the text to keep for an undo.
pub open spec fn edit(
    prior: Seq<char>,
    change: Result<(Seq<char>, SnippetView), EditorError>,
) -> Result<OutcomeView, EditorError> {
    match change {
        Ok((text, snippet)) => Ok(
            OutcomeView { reply: ReplyView::Snippet(snippet), write: Some(text), prior: Some(prior) },
        ),
        Err(error) => Err(error),
    }
}

/// What a view comes to, given the text of the file where it was read. A
/// relative path is turned down whatever the file holds.
pub open spec fn view_answer(
    path: Seq<char>,
    view_range: Option<ViewRange>,
    contents: Option<Seq<char>>,
) -> Result<OutcomeView, EditorError> {
    if !is_absolute(path) {
        Err(EditorError::RelativePath)
    } else {
        match contents {
            Some(text) => Ok(
                OutcomeView {
                    reply: ReplyView::Snippet(viewed(text, view_range)),
                    write: None,
                    prior: None,
                },
            ),
            None => Err(EditorError::Unreadable),
        }
    }
}

/// What a create comes to, given whether its file exists.
pub open spec fn create_answer(path: Seq<char>, exists: bool, file_text: Seq<char>) -> Result<
    OutcomeView,
    EditorError,
> {
    if !is_absolute(path) {
        Err(EditorError::RelativePath)
    } else if exists {
        Err(EditorError::AlreadyExists)
    } else {
        Ok(OutcomeView { reply: ReplyView::Created, write: Some(file_text), prior: None })
    }
}

/// What a replacement comes to, given the text of the file where it was
/// read.
pub open spec fn replace_answer(
    path: Seq<char>,
    contents: Option<Seq<char>>,
    to_replace: Seq<char>,
    replacement: Seq<char>,
) -> Result<OutcomeView, EditorError> {
    if !is_absolute(path) {
        Err(EditorError::RelativePath)
    } else {
        match contents {
            Some(text) => edit(text, replaced(text, to_replace, replacement)),
            None => Err(EditorError::Unreadable),
        }
    }
}

/// What an insertion comes to, given the text of the file where it was
/// read.
pub open spec fn insert_answer(
    path: Seq<char>,
    contents: Option<Seq<char>>,
    line_number: nat,
    line: Seq<char>,
) -> Result<OutcomeView, EditorError> {
    if !is_absolute(path) {
        Err(EditorError::RelativePath)
    } else {
        match contents {
            Some(text) => edit(text, inserted(text, line_number, line)),
            None => Err(EditorError::Unreadable),
        }
    }
}

/// What an undo comes to: the text on top of what the editor holds for the
/// path is written back and shown.
pub open spec fn undo_answer(history: Map<Seq<char>, EntryView>, path: Seq<char>) -> Result<
    OutcomeView,
    EditorError,
> {
    if !is_absolute(path) {
        Err(EditorError::RelativePath)
    } else {
        match undone(history, path) {
            Ok((_, restored)) => Ok(
                OutcomeView {
                    reply: ReplyView::Snippet(snippet_of(restored, None)),
                    write: Some(restored),
                    prior: None,
                },
            ),
            Err(error) => Err(error),
        }
    }
}

/// What `request` comes to, given the history, whether its file exists, and
/// the text of the file where it was read.
pub open spec fn answered(
    history: Map<Seq<char>, EntryView>,
    exists: bool,
    contents: Option<Seq<char>>,
    request: RequestView,
) -> Result<OutcomeView, EditorError> {
    match request {
        RequestView::View { path, view_range } => view_answer(path, view_range, contents),
        RequestView::Create { path, file_text } => create_answer(path, exists, file_text),
        RequestView::StringReplace { path, to_replace, replacement } => replace_answer(
            path,
            contents,
            to_replace,
            replacement,
        ),
        RequestView::Insert { path, line_number, line } => insert_answer(
            path,
            contents,
            line_number,
            line,
        ),
        RequestView::UndoEdit { path } => undo_answer(history, path),
    }
}

/// The history once the text of an outcome is on disk: an undo takes the
/// last change of the path away; every other write is noted, with the text
/// that the file held before.
pub open spec fn committed(
    history: Map<Seq<char>, EntryView>,
    request: RequestView,
    outcome: OutcomeView,
) -> Map<Seq<char>, EntryView> {
    match request {
        RequestView::UndoEdit { path } => match undone(history, path) {
            Ok((after, _)) => after,
            Err(_) => history,
        },
        _ => match outcome.write {
            Some(text) => recorded(history, request.path(), outcome.prior, text),
            None => history,
        },
    }
}

/// The view of a text that may be there.
pub open spec fn text_view(text: Option<&str>) -> Option<Seq<char>> {
    match text {
        Some(text) => Some(text@),
        None => None,
    }
}

/// The view of what a request may come to.
pub open spec fn result_view(result: Result<Outcome, EditorError>) -> Result<
    OutcomeView,
    EditorError,
> {
    match result {
        Ok(outcome) => Ok(outcome@),
        Err(error) => Err(error),
    }
}

impl Request {
    /// The path of the file that the request is about.
    pub fn path(&self) -> (path: &str)
        ensures
            path@ == self@.path(),
    {
        match self {
            Request::View { path, .. } => path.as_str(),
            Request::Create { path, .. } => path.as_str(),
            Request::StringReplace { path, .. } => path.as_str(),
            Request::Insert { path, .. } => path.as_str(),
            Request::UndoEdit { path } => path.as_str(),
        }
    }
}

/// What `request` needs to know of its file. A request with a relative path
/// is turned down here, before anything is read.
pub fn needs(request: &Request) -> (result: Result<Needs, EditorError>)
    ensures
        result == needed(request@),
{
    match validate_path(request.path()) {
        Err(error) => Err(error),
        Ok(_) => match request {
            Request::Create { .. } => Ok(Needs::Existence),
            Request::UndoEdit { .. } => Ok(Needs::Nothing),
            _ => Ok(Needs::Contents),
        },
    }
}

/// Shows the lines of the file at `path`, whose text is `contents` where it
/// was read. A relative path is turned down whatever was read.
pub fn view(path: &str, view_range: Option<ViewRange>, contents: Option<&str>) -> (result: Result<
    Outcome,
    EditorError,
>)
    ensures
        result_view(result) == view_answer(path@, view_range, text_view(contents)),
        !is_absolute(path@) ==> result == Err::<Outcome, EditorError>(EditorError::RelativePath),
{
    match validate_path(path) {
        Err(error) => {
            return Err(error);
        },
        Ok(_) => {},
    }
    match contents {
        Some(text) => Ok(
            Outcome { reply: Reply::Snippet(show(text, view_range)), write: None, prior: None },
        ),
        None => Err(EditorError::Unreadable),
    }
}

/// Creates the file at `path`, unless one is there.
pub fn create(path: &str, exists: bool, file_text: &str) -> (result: Result<Outcome, EditorError>)
    ensures
        result_view(result) == create_answer(path@, exists, file_text@),
        !is_absolute(path@) ==> result == Err::<Outcome, EditorError>(EditorError::RelativePath),
{
    match validate_path(path) {
        Err(error) => {
            return Err(error);
        },
        Ok(_) => {},
    }
    if exists {
        Err(EditorError::AlreadyExists)
    } else {
        Ok(Outcome { reply: Reply::Created, write: Some(text_of(file_text)), prior: None })
    }
}

/// Wraps an edit of a file that held `prior` as an outcome.
fn outcome_of(prior: &str, change: Result<(String, Snippet), EditorError>) -> (result: Result<
    Outcome,
    EditorError,
>)
    ensures
        match change {
            Ok((text, snippet)) => result is Ok && result.unwrap()@ == (OutcomeView {
                reply: ReplyView::Snippet(snippet@),
                write: Some(text@),
                prior: Some(prior@),
            }),
            Err(error) => result == Err::<Outcome, EditorError>(error),
        },
{
    match change {
        Ok((text, snippet)) => Ok(
            Outcome { reply: Reply::Snippet(snippet), write: Some(text), prior: Some(text_of(prior)) },
        ),
        Err(error) => Err(error),
    }
}

/// Replaces the one place where `to_replace` stands in the file at `path`,
/// whose text is `contents` where it was read. A relative path is turned
/// down whatever was read.
pub fn string_replace(
    path: &str,
    contents: Option<&str>,
    to_replace: &str,
    replacement: Option<&str>,
) -> (result: Result<Outcome, EditorError>)
    ensures
        result_view(result) == replace_answer(
            path@,
            text_view(contents),
            to_replace@,
            new_text(replacement),
        ),
        !is_absolute(path@) ==> result == Err::<Outcome, EditorError>(EditorError::RelativePath),
{
    match validate_path(path) {
        Err(error) => {
            return Err(error);
        },
        Ok(_) => {},
    }
    match contents {
        Some(text) => outcome_of(text, replace(text, to_replace, replacement)),
        None => Err(EditorError::Unreadable),
    }
}

/// Inserts `line` behind line `line_number` of the file at `path`, whose
/// text is `contents` where it was read. A relative path is turned down
/// whatever was read.
pub fn insert(path: &str, contents: Option<&str>, line_number: u32, line: &str) -> (result: Result<
    Outcome,
    EditorError,
>)
    ensures
        result_view(result) == insert_answer(
            path@,
            text_view(contents),
            line_number as nat,
            line@,
        ),
        !is_absolute(path@) ==> result == Err::<Outcome, EditorError>(EditorError::RelativePath),
{
    match validate_path(path) {
        Err(error) => {
            return Err(error);
        },
        Ok(_) => {},
    }
    match contents {
        Some(text) => outcome_of(text, insert_line(text, line_number, line)),
        None => Err(EditorError::Unreadable),
    }
}

/// Undoes the last change to `path`: the outcome writes back the text on
/// top of what the editor holds for the path.
pub fn undo_edit(history: &FileHistory, path: &str) -> (result: Result<Outcome, EditorError>)
    ensures
        result_view(result) == undo_answer(history@, path@),
        !is_absolute(path@) ==> result == Err::<Outcome, EditorError>(EditorError::RelativePath),
{
    match validate_path(path) {
        Err(error) => {
            return Err(error);
        },
        Ok(_) => {},
    }
    match history.previous(path) {
        Ok(restored) => {
            let snippet = Snippet::new(restored.as_str(), None);
            Ok(Outcome { reply: Reply::Snippet(snippet), write: Some(restored), prior: None })
        },
        Err(error) => Err(error),
    }
}

/// Answers `request`, given whether its file exists and the text of the
/// file where it was read. Nothing is changed: the caller writes the text
/// of the outcome to the file and then commits it to the history.
pub fn handle(
    history: &FileHistory,
    request: &Request,
    exists: bool,
    contents: Option<&str>,
) -> (result: Result<Outcome, EditorError>)
    ensures
        result_view(result) == answered(history@, exists, text_view(contents), request@),
        !is_absolute(request@.path()) ==> result == Err::<Outcome, EditorError>(
            EditorError::RelativePath,
        ),
{
    match request {
        Request::View { path, view_range } => view(path.as_str(), *view_range, contents),
        Request::Create { path, file_text } => create(path.as_str(), exists, file_text.as_str()),
        Request::StringReplace { path, to_replace, replacement } => {
            let new: Option<&str> = match replacement {
                Some(new) => Some(new.as_str()),
                None => None,
            };
            string_replace(path.as_str(), contents, to_replace.as_str(), new)
        },
        Request::Insert { path, line_number, line } => insert(
            path.as_str(),
            contents,
            *line_number,
            line.as_str(),
        ),
        Request::UndoEdit { path } => undo_edit(history, path.as_str()),
    }
}

/// Notes in `history` that the text of `outcome` is on disk.
pub fn commit(history: &mut FileHistory, request: &Request, outcome: &Outcome)
    ensures
        final(history)@ == committed(old(history)@, request@, outcome@),
{
    match request {
        Request::UndoEdit { path } => history.undo(path.as_str()),
        _ => match &outcome.write {
            Some(text) => history.write(request.path(), outcome.prior.clone(), text.clone()),
            None => {},
        },
    }
}

/// The editor with its files: the text of every file, and the history.
pub struct Model {
    pub files: Map<Seq<char>, Seq<char>>,
    pub history: Map<Seq<char>, EntryView>,
}

/// What the server does with `request`: the files and the history after
/// it, and its answer. A request that is turned down changes nothing.
pub open spec fn served(model: Model, request: RequestView) -> (
    Model,
    Result<ReplyView, EditorError>,
) {
    let path = request.path();
    let exists = model.files.contains_key(path);
    let contents = if exists {
        Some(model.files[path])
    } else {
        None
    };
    match answered(model.history, exists, contents, request) {
        Err(error) => (model, Err(error)),
        Ok(outcome) => (
            Model {
                files: match outcome.write {
                    Some(text) => model.files.insert(path, text),
                    None => model.files,
                },
                history: committed(model.history, request, outcome),
            },
            Ok(outcome.reply),
        ),
    }
}

/// A view changes nothing, so a second view of the same lines shows the same.
pub proof fn lemma_view_is_idempotent(model: Model, path: Seq<char>, view_range: Option<ViewRange>)
    ensures
        served(model, RequestView::View { path, view_range }).0 == model,
        served(served(model, RequestView::View { path, view_range }).0, RequestView::View {
            path,
            view_range,
        }).1 == served(model, RequestView::View { path, view_range }).1,
{
}

/// A replacement of a text that occurs in two places is turned down as an
/// invalid argument, and changes nothing.
pub proof fn lemma_ambiguous_replace_is_refused(
    model: Model,
    path: Seq<char>,
    to_replace: Seq<char>,
    replacement: Seq<char>,
)
    requires
        is_absolute(path),
        model.files.contains_key(path),
        occurs_twice(model.files[path], to_replace),
    ensures
        served(model, RequestView::StringReplace { path, to_replace, replacement }) == (
            model,
            Err::<ReplyView, EditorError>(EditorError::MultipleMatches),
        ),
        code_of(EditorError::MultipleMatches) == Code::InvalidArgument,
{
    let content = model.files[path];
    let (at, other) = choose|at: int, other: int|
        #![trigger occurs_at(content, to_replace, at), occurs_at(content, to_replace, other)]
        at != other && occurs_at(content, to_replace, at) && occurs_at(content, to_replace, other);
    assert(occurs_at(content, to_replace, at));
}

/// A replacement or an insertion that succeeds puts the text that the file
/// held on top of what the editor holds for its path, whether the editor
/// wrote the path before or not, and nothing else changes in the history.
pub proof fn lemma_edit_keeps_prior(model: Model, request: RequestView)
    requires
        request is StringReplace || request is Insert,
        served(model, request).1 is Ok,
    ensures
        model.files.contains_key(request.path()),
        served(model, request).0.history == model.history.insert(
            request.path(),
            EntryView {
                latest: served(model, request).0.files[request.path()],
                history: stack_of(model.history, request.path()).push(
                    model.files[request.path()],
                ),
            },
        ),
{
}

/// An undo is the inverse of an edit: after a replacement or an insertion
/// that succeeded, an undo gives the file the text it had and shows that
/// text, and the editor holds for the path what it held before the edit.
pub proof fn lemma_undo_restores(model: Model, request: RequestView)
    requires
        request is StringReplace || request is Insert,
        served(model, request).1 is Ok,
    ensures
        ({
            let path = request.path();
            let undo = served(served(model, request).0, RequestView::UndoEdit { path });
            &&& undo.1 == Ok::<ReplyView, EditorError>(
                ReplyView::Snippet(snippet_of(model.files[path], None)),
            )
            &&& undo.0.files == model.files
            &&& undo.0.history.contains_key(path)
            &&& undo.0.history[path].history == stack_of(model.history, path)
            &&& undo.0.history.remove(path) == model.history.remove(path)
        }),
{
    let path = request.path();
    let after = served(model, request).0;
    let below = stack_of(model.history, path);
    assert(after.history[path].history.last() == model.files[path]);
    assert(after.history[path].history.drop_last() =~= below);
    let last = served(after, RequestView::UndoEdit { path }).0;
    assert(last.files =~= model.files);
    assert(last.history.remove(path) =~= model.history.remove(path));
}

/// A file that was created has no change to undo: the undo is turned down
/// as resource exhausted, and the file stays as it was created.
pub proof fn lemma_undo_of_create_is_refused(model: Model, path: Seq<char>, file_text: Seq<char>)
    requires
        is_absolute(path),
        !model.files.contains_key(path),
    ensures
        served(model, RequestView::Create { path, file_text }).1 == Ok::<ReplyView, EditorError>(
            ReplyView::Created,
        ),
        served(model, RequestView::Create { path, file_text }).0.files[path] == file_text,
        served(
            served(model, RequestView::Create { path, file_text }).0,
            RequestView::UndoEdit { path },
        ) == (
            served(model, RequestView::Create { path, file_text }).0,
            Err::<ReplyView, EditorError>(EditorError::OldestChange),
        ),
{
}

/// The editor after `count` undos of `path`.
pub open spec fn undo_times(model: Model, path: Seq<char>, count: nat) -> Model
    decreases count,
{
    if count == 0 {
        model
    } else {
        served(undo_times(model, path, (count - 1) as nat), RequestView::UndoEdit { path }).0
    }
}

/// After `count` undos the editor holds `count` texts fewer for the path,
/// and the file has the text that stood at that depth.
pub proof fn lemma_undo_times(model: Model, path: Seq<char>, count: nat)
    requires
        is_absolute(path),
        model.history.contains_key(path),
        count <= model.history[path].history.len(),
    ensures
        undo_times(model, path, count).history.contains_key(path),
        undo_times(model, path, count).history[path].history == model.history[path].history.take(
            model.history[path].history.len() - count,
        ),
        count > 0 ==> undo_times(model, path, count).files.contains_key(path) && undo_times(
            model,
            path,
            count,
        ).files[path] == model.history[path].history[model.history[path].history.len() - count],
    decreases count,
{
    let stack = model.history[path].history;
    if count == 0 {
        assert(stack.take(stack.len() as int) =~= stack);
    } else {
        lemma_undo_times(model, path, (count - 1) as nat);
        let before = undo_times(model, path, (count - 1) as nat);
        assert(before.history[path].history.drop_last() =~= stack.take(stack.len() - count));
    }
}

/// Undone often enough, a path is at its oldest change: after as many
/// undos as the editor holds texts for the path, one more is turned down
/// as resource exhausted and changes nothing, and the file has the oldest
/// text that the editor holds.
pub proof fn lemma_undo_reaches_oldest(model: Model, path: Seq<char>)
    requires
        is_absolute(path),
        model.history.contains_key(path),
    ensures
        ({
            let depth = model.history[path].history.len();
            let oldest = undo_times(model, path, depth);
            &&& served(oldest, RequestView::UndoEdit { path }) == (
                oldest,
                Err::<ReplyView, EditorError>(EditorError::OldestChange),
            )
            &&& code_of(EditorError::OldestChange) == Code::ResourceExhausted
            &&& depth > 0 ==> oldest.files[path] == model.history[path].history[0]
        }),
{
    lemma_undo_times(model, path, model.history[path].history.len());
}

/// A request with a relative path is turned down as an invalid argument: it
/// needs nothing of the file system, and changes nothing.
pub proof fn lemma_relative_path_is_refused(model: Model, request: RequestView)
    requires
        !is_absolute(request.path()),
    ensures
        needed(request) == Err::<Needs, EditorError>(EditorError::RelativePath),
        served(model, request) == (
            model,
            Err::<ReplyView, EditorError>(EditorError::RelativePath),
        ),
        forall|history: Map<Seq<char>, EntryView>, exists: bool, contents: Option<Seq<char>>|
            answered(history, exists, contents, request) == Err::<OutcomeView, EditorError>(
                EditorError::RelativePath,
            ),
        code_of(EditorError::RelativePath) == Code::InvalidArgument,
{
}

} // verus!

use bash_agent::editor::{
    commit, create as create_file, handle, insert, insert_line, needs, replace as replace_text,
    show, string_replace, undo_edit, validate_path, view, EditorError, FileHistory, Needs, Outcome,
    Reply, Request, ViewRange,
};
use bash_agent::rpc::Code;
use bash_agent::snippet::Snippet;
use std::collections::HashMap;

/// An execution server whose files are kept in memory.
struct Server {
    files: HashMap<String, String>,
    reads: usize,
    history: FileHistory,
}

impl Server {
    fn new() -> Server {
        Server { files: HashMap::new(), reads: 0, history: FileHistory::new() }
    }

    fn serve(&mut self, request: Request) -> Result<Reply, EditorError> {
        let path = request.path().to_string();
        let (exists, contents) = match needs(&request)? {
            Needs::Contents => {
                self.reads += 1;
                (self.files.contains_key(&path), self.files.get(&path).cloned())
            }
            Needs::Existence => {
                self.reads += 1;
                (self.files.contains_key(&path), None)
            }
            Needs::Nothing => (false, None),
        };
        let outcome = handle(&self.history, &request, exists, contents.as_deref())?;
        if let Some(text) = &outcome.write {
            self.files.insert(path, text.clone());
        }
        commit(&mut self.history, &request, &outcome);
        Ok(outcome.reply)
    }
}

fn lines(items: &[&str]) -> Vec<String> {
    items.iter().map(|item| item.to_string()).collect()
}

fn create(path: &str, text: &str) -> Request {
    Request::Create { path: path.to_string(), file_text: text.to_string() }
}

fn view_all(path: &str) -> Request {
    Request::View { path: path.to_string(), view_range: None }
}

fn replace(path: &str, old: &str, new: Option<&str>) -> Request {
    Request::StringReplace {
        path: path.to_string(),
        to_replace: old.to_string(),
        replacement: new.map(|text| text.to_string()),
    }
}

fn insert_at(path: &str, line_number: u32, line: &str) -> Request {
    Request::Insert { path: path.to_string(), line_number, line: line.to_string() }
}

fn undo(path: &str) -> Request {
    Request::UndoEdit { path: path.to_string() }
}

fn snippet(reply: Result<Reply, EditorError>) -> Snippet {
    match reply {
        Ok(Reply::Snippet(snippet)) => snippet,
        other => panic!("no snippet: {:?}", other),
    }
}

#[test]
fn create_then_view() {
    let mut server = Server::new();
    assert_eq!(server.serve(create("/tmp/a.txt", "one\ntwo\nthree\n")), Ok(Reply::Created));
    let shown = snippet(server.serve(view_all("/tmp/a.txt")));
    assert_eq!(shown, Snippet { start: 1, lines: lines(&["one", "two", "three", ""]) });
}

#[test]
fn replace_then_undo() {
    let mut server = Server::new();
    server.serve(create("/tmp/a.txt", "one\ntwo\nthree\n")).unwrap();
    let changed = snippet(server.serve(replace("/tmp/a.txt", "two", Some("TWO"))));
    assert_eq!(changed, Snippet { start: 1, lines: lines(&["one", "TWO", "three", ""]) });
    assert_eq!(server.files["/tmp/a.txt"], "one\nTWO\nthree\n");
    let restored = snippet(server.serve(undo("/tmp/a.txt")));
    assert!(restored.lines.contains(&"two".to_string()));
    assert_eq!(restored, Snippet { start: 1, lines: lines(&["one", "two", "three", ""]) });
    assert_eq!(server.files["/tmp/a.txt"], "one\ntwo\nthree\n");
}

#[test]
fn replace_ambiguity() {
    let mut server = Server::new();
    server.serve(create("/tmp/x.txt", "x\nx\n")).unwrap();
    let refused = server.serve(replace("/tmp/x.txt", "x", Some("y")));
    assert_eq!(refused, Err(EditorError::MultipleMatches));
    assert_eq!(EditorError::MultipleMatches.code(), Code::InvalidArgument);
    assert_eq!(server.files["/tmp/x.txt"], "x\nx\n");
}

#[test]
fn replace_of_overlapping_occurrences_is_ambiguous() {
    assert_eq!(replace_text("aaa", "aa", Some("b")), Err(EditorError::MultipleMatches));
}

#[test]
fn insert_past_end() {
    let mut server = Server::new();
    server.serve(create("/tmp/a.txt", "one\ntwo\nthree")).unwrap();
    let refused = server.serve(insert_at("/tmp/a.txt", 99, "zz"));
    assert_eq!(refused, Err(EditorError::LineOutOfRange));
    assert_eq!(EditorError::LineOutOfRange.code(), Code::InvalidArgument);
    assert_eq!(server.files["/tmp/a.txt"], "one\ntwo\nthree");
}

#[test]
fn view_twice_shows_the_same() {
    let mut server = Server::new();
    server.serve(create("/tmp/a.txt", "one\ntwo\nthree\n")).unwrap();
    let range = Some(ViewRange { start: 2, end: Some(3) });
    let request = Request::View { path: "/tmp/a.txt".to_string(), view_range: range };
    let first = server.serve(request.clone());
    let second = server.serve(request);
    assert_eq!(first, second);
    assert_eq!(server.files["/tmp/a.txt"], "one\ntwo\nthree\n");
}

#[test]
fn undo_restores_each_edit_and_ends_at_the_oldest() {
    let mut server = Server::new();
    server.serve(create("/tmp/a.txt", "a\nb\n")).unwrap();
    server.serve(replace("/tmp/a.txt", "a", Some("A"))).unwrap();
    assert_eq!(server.files["/tmp/a.txt"], "A\nb\n");
    server.serve(insert_at("/tmp/a.txt", 1, "new")).unwrap();
    assert_eq!(server.files["/tmp/a.txt"], "A\nnew\nb\n");
    server.serve(undo("/tmp/a.txt")).unwrap();
    assert_eq!(server.files["/tmp/a.txt"], "A\nb\n");
    server.serve(undo("/tmp/a.txt")).unwrap();
    assert_eq!(server.files["/tmp/a.txt"], "a\nb\n");
    let refused = server.serve(undo("/tmp/a.txt"));
    assert_eq!(refused, Err(EditorError::OldestChange));
    assert_eq!(EditorError::OldestChange.code(), Code::ResourceExhausted);
    assert_eq!(server.files["/tmp/a.txt"], "a\nb\n");
}

#[test]
fn undo_of_a_path_never_written_is_not_found() {
    let mut server = Server::new();
    let refused = server.serve(undo("/tmp/none.txt"));
    assert_eq!(refused, Err(EditorError::NoHistory));
    assert_eq!(EditorError::NoHistory.code(), Code::NotFound);
}

#[test]
fn relative_paths_are_refused_before_any_read() {
    let mut server = Server::new();
    let requests = vec![
        view_all("a.txt"),
        create("a.txt", "text"),
        replace("./a.txt", "a", None),
        insert_at("dir/a.txt", 0, "line"),
        undo(""),
    ];
    for request in requests {
        assert_eq!(needs(&request), Err(EditorError::RelativePath));
        assert_eq!(server.serve(request), Err(EditorError::RelativePath));
    }
    assert_eq!(server.reads, 0);
    assert!(server.files.is_empty());
    assert_eq!(EditorError::RelativePath.code(), Code::InvalidArgument);
}

#[test]
fn validate_path_takes_absolute_paths() {
    assert_eq!(validate_path("/tmp/a.txt"), Ok("/tmp/a.txt".to_string()));
    assert_eq!(validate_path("/"), Ok("/".to_string()));
    assert_eq!(validate_path("tmp/a.txt"), Err(EditorError::RelativePath));
    assert_eq!(validate_path(""), Err(EditorError::RelativePath));
}

#[test]
fn create_on_an_existing_file_is_refused() {
    let mut server = Server::new();
    server.serve(create("/tmp/a.txt", "one")).unwrap();
    let refused = server.serve(create("/tmp/a.txt", "two"));
    assert_eq!(refused, Err(EditorError::AlreadyExists));
    assert_eq!(EditorError::AlreadyExists.code(), Code::AlreadyExists);
    assert_eq!(server.files["/tmp/a.txt"], "one");
}

#[test]
fn a_file_that_is_not_there_cannot_be_viewed() {
    let mut server = Server::new();
    assert_eq!(server.serve(view_all("/tmp/none.txt")), Err(EditorError::Unreadable));
    assert_eq!(EditorError::Unreadable.code(), Code::Unknown);
}

#[test]
fn replace_without_a_match_is_not_found() {
    assert_eq!(replace_text("one\ntwo\n", "four", Some("4")), Err(EditorError::NoMatch));
    assert_eq!(EditorError::NoMatch.code(), Code::NotFound);
}

#[test]
fn replace_without_a_replacement_removes_the_text() {
    let (text, shown) = replace_text("one\ntwo\nthree", "two\n", None).unwrap();
    assert_eq!(text, "one\nthree");
    assert_eq!(shown, Snippet { start: 1, lines: lines(&["one", "three"]) });
}

#[test]
fn replace_shows_the_lines_round_the_replacement() {
    let content: String = (1..=20).map(|n| format!("line {}\n", n)).collect();
    let (text, shown) = replace_text(&content, "line 10\n", Some("ten\neleven\n")).unwrap();
    assert!(text.contains("line 9\nten\neleven\nline 11\n"));
    assert_eq!(shown.start, 6);
    assert_eq!(
        shown.lines,
        lines(&[
            "line 6", "line 7", "line 8", "line 9", "ten", "eleven", "line 11", "line 12",
            "line 13", "line 14", "line 15",
        ])
    );
}

#[test]
fn replace_of_the_empty_text() {
    let (text, shown) = replace_text("", "", Some("new")).unwrap();
    assert_eq!(text, "new");
    assert_eq!(shown, Snippet { start: 1, lines: lines(&["new"]) });
    assert_eq!(replace_text("a", "", Some("new")), Err(EditorError::MultipleMatches));
}

#[test]
fn insert_behind_a_line() {
    let (text, shown) = insert_line("one\ntwo\nthree\n", 1, "zz").unwrap();
    assert_eq!(text, "one\nzz\ntwo\nthree\n");
    assert_eq!(shown, Snippet { start: 1, lines: lines(&["one", "zz", "two", "three", ""]) });
    let (text, _) = insert_line("one\ntwo\nthree\n", 3, "zz").unwrap();
    assert_eq!(text, "one\ntwo\nthree\nzz\n");
}

#[test]
fn insert_before_the_first_line() {
    let (text, shown) = insert_line("one\ntwo", 0, "zz").unwrap();
    assert_eq!(text, "zz\none\ntwo");
    assert_eq!(shown, Snippet { start: 1, lines: lines(&["zz", "one", "two"]) });
    let (text, _) = insert_line("", 0, "zz").unwrap();
    assert_eq!(text, "zz\n");
}

#[test]
fn insert_needs_as_many_line_feeds_as_the_line_number() {
    assert_eq!(insert_line("one\ntwo\nthree", 3, "zz"), Err(EditorError::LineOutOfRange));
    assert!(insert_line("one\ntwo\nthree", 2, "zz").is_ok());
    assert_eq!(insert_line("", 1, "zz"), Err(EditorError::LineOutOfRange));
}

#[test]
fn insert_of_several_lines_shows_them_all() {
    let content: String = (1..=12).map(|n| format!("{}\n", n)).collect();
    let (text, shown) = insert_line(&content, 6, "a\nb").unwrap();
    assert!(text.contains("6\na\nb\n7\n"));
    assert_eq!(shown.start, 2);
    assert_eq!(
        shown.lines,
        lines(&["2", "3", "4", "5", "6", "a", "b", "7", "8", "9", "10"])
    );
}

#[test]
fn view_of_a_range_with_context() {
    let content: String = (1..=20).map(|n| n.to_string()).collect::<Vec<_>>().join("\n");
    let shown = show(&content, Some(ViewRange { start: 10, end: Some(12) }));
    assert_eq!(shown.start, 6);
    assert_eq!(
        shown.lines,
        lines(&["6", "7", "8", "9", "10", "11", "12", "13", "14", "15", "16"])
    );
}

#[test]
fn view_to_the_last_line() {
    let shown = show("a\nb\nc\nd\ne\nf\ng", Some(ViewRange { start: 6, end: None }));
    assert_eq!(shown, Snippet { start: 2, lines: lines(&["b", "c", "d", "e", "f", "g"]) });
}

#[test]
fn view_from_line_zero_is_view_from_line_one() {
    let content = "a\nb\nc";
    let zero = show(content, Some(ViewRange { start: 0, end: Some(1) }));
    let one = show(content, Some(ViewRange { start: 1, end: Some(1) }));
    assert_eq!(zero, one);
    assert_eq!(zero, Snippet { start: 1, lines: lines(&["a", "b", "c"]) });
}

#[test]
fn view_past_the_end_shows_nothing() {
    let shown = show("a\nb", Some(ViewRange { start: 50, end: Some(60) }));
    assert_eq!(shown, Snippet { start: 46, lines: vec![] });
}

#[test]
fn history_keeps_each_path_apart() {
    let mut history = FileHistory::new();
    assert!(!history.contains("/a"));
    history.write("/a", None, "a1".to_string());
    history.write("/b", None, "b1".to_string());
    history.write("/a", Some("a1".to_string()), "a2".to_string());
    assert!(history.contains("/a"));
    assert_eq!(history.previous("/a"), Ok("a1".to_string()));
    assert_eq!(history.previous("/b"), Err(EditorError::OldestChange));
    assert_eq!(history.previous("/c"), Err(EditorError::NoHistory));
    history.undo("/a");
    assert_eq!(history.previous("/a"), Err(EditorError::OldestChange));
    history.undo("/a");
    assert_eq!(history.previous("/a"), Err(EditorError::OldestChange));
}

#[test]
fn a_write_that_failed_leaves_the_history() {
    let mut history = FileHistory::new();
    history.write("/a", None, "a1".to_string());
    history.write("/a", Some("a1".to_string()), "a2".to_string());
    let request = undo("/a");
    let outcome = handle(&history, &request, true, None).unwrap();
    assert_eq!(outcome.write, Some("a1".to_string()));
    assert_eq!(history.previous("/a"), Ok("a1".to_string()));
}

#[test]
fn editor_errors_have_their_words() {
    assert_eq!(EditorError::RelativePath.message("a"), "The path must be absolute");
    assert_eq!(EditorError::AlreadyExists.message("/a"), "\"/a\" already exists");
    assert_eq!(
        EditorError::NoMatch.message("/a"),
        "No match found to `to_replace` for replacement"
    );
    assert_eq!(
        EditorError::MultipleMatches.message("/a"),
        "Multiple matches found to `to_replace`, a unique match is necessary"
    );
    assert_eq!(EditorError::NoHistory.message("/a"), "No history found for \"/a\"");
    assert_eq!(EditorError::OldestChange.message("/a"), "Already at oldest change");
    assert_eq!(EditorError::Unreadable.message("/a"), "Failed to read \"/a\"");
    assert_eq!(
        EditorError::LineOutOfRange.message("/a"),
        "There are not that many lines in \"/a\""
    );
}

#[test]
fn the_first_edit_of_a_file_that_was_there_can_be_undone() {
    let mut server = Server::new();
    server.files.insert("/etc/motd".to_string(), "one\ntwo\nthree\n".to_string());
    let changed = snippet(server.serve(replace("/etc/motd", "two", Some("TWO"))));
    assert!(changed.lines.contains(&"TWO".to_string()));
    assert_eq!(server.files["/etc/motd"], "one\nTWO\nthree\n");
    let restored = snippet(server.serve(undo("/etc/motd")));
    assert_eq!(restored, Snippet { start: 1, lines: lines(&["one", "two", "three", ""]) });
    assert_eq!(server.files["/etc/motd"], "one\ntwo\nthree\n");
    assert_eq!(server.serve(undo("/etc/motd")), Err(EditorError::OldestChange));

    server.serve(insert_at("/etc/motd", 1, "new")).unwrap();
    assert_eq!(server.files["/etc/motd"], "one\nnew\ntwo\nthree\n");
    server.serve(undo("/etc/motd")).unwrap();
    assert_eq!(server.files["/etc/motd"], "one\ntwo\nthree\n");
}

#[test]
fn an_undo_gives_back_what_the_file_held_and_not_what_the_editor_wrote_last() {
    let mut server = Server::new();
    server.serve(create("/a", "by the editor")).unwrap();
    server.files.insert("/a".to_string(), "by another hand".to_string());
    server.serve(replace("/a", "hand", Some("way"))).unwrap();
    assert_eq!(server.files["/a"], "by another way");
    server.serve(undo("/a")).unwrap();
    assert_eq!(server.files["/a"], "by another hand");
    assert_eq!(server.serve(undo("/a")), Err(EditorError::OldestChange));
}

#[test]
fn an_edit_keeps_the_text_that_the_file_held() {
    let history = FileHistory::new();
    let outcome = string_replace("/a", Some("one two"), "two", Some("2")).unwrap();
    assert_eq!(
        outcome,
        Outcome {
            reply: Reply::Snippet(Snippet { start: 1, lines: lines(&["one 2"]) }),
            write: Some("one 2".to_string()),
            prior: Some("one two".to_string()),
        }
    );
    let outcome = insert("/a", Some("one"), 0, "zero").unwrap();
    assert_eq!(outcome.write, Some("zero\none".to_string()));
    assert_eq!(outcome.prior, Some("one".to_string()));
    let outcome = create_file("/a", false, "text").unwrap();
    assert_eq!(outcome.prior, None);
    let outcome = view("/a", None, Some("text")).unwrap();
    assert_eq!((outcome.write, outcome.prior), (None, None));
    assert_eq!(undo_edit(&history, "/a"), Err(EditorError::NoHistory));
}

#[test]
fn a_file_that_is_created_anew_starts_its_history_anew() {
    let mut server = Server::new();
    server.serve(create("/a", "first")).unwrap();
    server.serve(replace("/a", "first", Some("second"))).unwrap();
    server.files.remove("/a");
    server.serve(create("/a", "third")).unwrap();
    assert_eq!(server.serve(undo("/a")), Err(EditorError::OldestChange));
    assert_eq!(server.files["/a"], "third");
}

#[test]
fn each_operation_refuses_a_relative_path_whatever_was_read() {
    let history = FileHistory::new();
    let refused = Err(EditorError::RelativePath);
    assert_eq!(view("a.txt", None, Some("text")), refused);
    assert_eq!(view("a.txt", Some(ViewRange { start: 1, end: None }), None), refused);
    assert_eq!(create_file("a.txt", false, "text"), refused);
    assert_eq!(create_file("a.txt", true, "text"), refused);
    assert_eq!(string_replace("a.txt", Some("text"), "text", Some("new")), refused);
    assert_eq!(string_replace("a.txt", None, "text", None), refused);
    assert_eq!(insert("a.txt", Some("text"), 0, "line"), refused);
    assert_eq!(undo_edit(&history, "a.txt"), refused);
}

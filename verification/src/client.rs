//! The agent's side of a tool call: the checks on the input that the model
//! gave, the request they lead to, the report on what the server answered,
//! and what becomes of a call that failed.

use crate::editor::{Request, RequestView, ViewRange};
use crate::json::{lemma_array_view, trees, Json, JsonValue};
use crate::rpc::Code;
use crate::snippet::{numbered, Snippet};
use crate::text::{push_text, same_text, string_view, text_of};
use vstd::prelude::*;

verus! {

/// Why the input of a tool use cannot be made into a request. The model is
/// told, and may try again.
#[derive(Debug, Clone, PartialEq, Eq)]
pub enum ToolUseError {
    /// The input is no JSON object.
    NotAnObject,
    /// The input has no string `command`.
    MissingCommand,
    /// A member of the input has the wrong type, or `path` is missing.
    InvalidInput,
    /// The range of a view is not two numbers of which one is positive.
    InvalidViewRange,
    /// A create came without `file_text`.
    MissingFileText,
    /// A replacement came without `old_str`.
    MissingOldStr,
    /// An insertion came without `insert_line`.
    MissingInsertLine,
    /// An insertion came without `new_str`.
    MissingNewStr,
    /// The editor has no such command.
    InvalidCommand(String),
    /// There is no such tool.
    UnknownTool(String),
}

/// A `ToolUseError` as mathematical values.
pub enum ToolUseErrorView {
    NotAnObject,
    MissingCommand,
    InvalidInput,
    InvalidViewRange,
    MissingFileText,
    MissingOldStr,
    MissingInsertLine,
    MissingNewStr,
    InvalidCommand(Seq<char>),
    UnknownTool(Seq<char>),
}

impl View for ToolUseError {
    type V = ToolUseErrorView;

    open spec fn view(&self) -> ToolUseErrorView {
        match self {
            ToolUseError::NotAnObject => ToolUseErrorView::NotAnObject,
            ToolUseError::MissingCommand => ToolUseErrorView::MissingCommand,
            ToolUseError::InvalidInput => ToolUseErrorView::InvalidInput,
            ToolUseError::InvalidViewRange => ToolUseErrorView::InvalidViewRange,
            ToolUseError::MissingFileText => ToolUseErrorView::MissingFileText,
            ToolUseError::MissingOldStr => ToolUseErrorView::MissingOldStr,
            ToolUseError::MissingInsertLine => ToolUseErrorView::MissingInsertLine,
            ToolUseError::MissingNewStr => ToolUseErrorView::MissingNewStr,
            ToolUseError::InvalidCommand(command) => ToolUseErrorView::InvalidCommand(command@),
            ToolUseError::UnknownTool(tool) => ToolUseErrorView::UnknownTool(tool@),
        }
    }
}

/// The words in which the model is told of an error.
pub open spec fn error_text(error: ToolUseErrorView) -> Seq<char> {
    match error {
        ToolUseErrorView::NotAnObject => "The argument(s) must be fields in a JSON object"@,
        ToolUseErrorView::MissingCommand =>
            "The \"command\" argument is required and must be a string"@,
        ToolUseErrorView::InvalidInput => "Failed to parse input"@,
        ToolUseErrorView::InvalidViewRange => "view_range must have two positive entries"@,
        ToolUseErrorView::MissingFileText => "file_text is required with the create command"@,
        ToolUseErrorView::MissingOldStr => "old_str is required with the str_replace command"@,
        ToolUseErrorView::MissingInsertLine => "insert_line is required with the insert command"@,
        ToolUseErrorView::MissingNewStr => "new_str is required with the insert command"@,
        ToolUseErrorView::InvalidCommand(command) => command
            + " is an invalid text_editor command"@,
        ToolUseErrorView::UnknownTool(tool) => "Tool "@ + tool + " not available"@,
    }
}

impl ToolUseError {
    /// The words in which the model is told of this error.
    pub fn message(&self) -> (text: String)
        ensures
            text@ == error_text(self@),
    {
        match self {
            ToolUseError::NotAnObject => text_of("The argument(s) must be fields in a JSON object"),
            ToolUseError::MissingCommand => text_of(
                "The \"command\" argument is required and must be a string",
            ),
            ToolUseError::InvalidInput => text_of("Failed to parse input"),
            ToolUseError::InvalidViewRange => text_of("view_range must have two positive entries"),
            ToolUseError::MissingFileText => text_of(
                "file_text is required with the create command",
            ),
            ToolUseError::MissingOldStr => text_of(
                "old_str is required with the str_replace command",
            ),
            ToolUseError::MissingInsertLine => text_of(
                "insert_line is required with the insert command",
            ),
            ToolUseError::MissingNewStr => text_of("new_str is required with the insert command"),
            ToolUseError::InvalidCommand(command) => {
                let mut text = command.clone();
                push_text(&mut text, " is an invalid text_editor command");
                text
            },
            ToolUseError::UnknownTool(tool) => {
                let mut text = text_of("Tool ");
                push_text(&mut text, tool.as_str());
                push_text(&mut text, " not available");
                text
            },
        }
    }
}

/// What a tool use asks of the server: to run a command in the shell, or a
/// request to the editor.
#[derive(Debug, Clone, PartialEq, Eq)]
pub enum ToolRequest {
    Bash { input: String },
    Editor(Request),
}

/// A `ToolRequest` as mathematical values.
pub enum ToolRequestView {
    Bash { input: Seq<char> },
    Editor(RequestView),
}

impl View for ToolRequest {
    type V = ToolRequestView;

    open spec fn view(&self) -> ToolRequestView {
        match self {
            ToolRequest::Bash { input } => ToolRequestView::Bash { input: input@ },
            ToolRequest::Editor(request) => ToolRequestView::Editor(request@),
        }
    }
}

/// The request that the input of the shell tool leads to: the input is an
/// object, and its `command` a string.
pub open spec fn bash_request(input: JsonValue) -> Result<ToolRequestView, ToolUseErrorView> {
    if !(input is Object) {
        Err(ToolUseErrorView::NotAnObject)
    } else {
        match input.get("command"@) {
            Some(JsonValue::Str(command)) => Ok(ToolRequestView::Bash { input: command }),
            _ => Err(ToolUseErrorView::MissingCommand),
        }
    }
}

/// Checks the input of the shell tool, and makes the request.
pub fn call_bash_tool(input: &Json) -> (result: Result<ToolRequest, ToolUseError>)
    ensures
        match bash_request(input@) {
            Ok(request) => result is Ok && result.unwrap()@ == request,
            Err(error) => result is Err && result.unwrap_err()@ == error,
        },
{
    match input {
        Json::Object(_) => {},
        _ => {
            return Err(ToolUseError::NotAnObject);
        },
    }
    let command = match input.get("command") {
        Some(value) => value.as_str(),
        None => None,
    };
    match command {
        Some(command) => Ok(ToolRequest::Bash { input: text_of(command) }),
        None => Err(ToolUseError::MissingCommand),
    }
}

/// The input of the editor tool.
#[derive(Debug, Clone, PartialEq, Eq)]
pub struct TextEditorInput {
    pub command: String,
    pub path: String,
    pub file_text: Option<String>,
    pub insert_line: Option<u32>,
    pub new_str: Option<String>,
    pub old_str: Option<String>,
    pub view_range: Option<Vec<i32>>,
}

/// A `TextEditorInput` as mathematical values.
pub struct TextEditorInputView {
    pub command: Seq<char>,
    pub path: Seq<char>,
    pub file_text: Option<Seq<char>>,
    pub insert_line: Option<u32>,
    pub new_str: Option<Seq<char>>,
    pub old_str: Option<Seq<char>>,
    pub view_range: Option<Seq<i32>>,
}

impl View for TextEditorInput {
    type V = TextEditorInputView;

    open spec fn view(&self) -> TextEditorInputView {
        TextEditorInputView {
            command: self.command@,
            path: self.path@,
            file_text: string_view(self.file_text),
            insert_line: self.insert_line,
            new_str: string_view(self.new_str),
            old_str: string_view(self.old_str),
            view_range: match self.view_range {
                Some(range) => Some(range@),
                None => None,
            },
        }
    }
}

/// The string named `key`, which must be there.
pub open spec fn required_text(input: JsonValue, key: Seq<char>) -> Option<Seq<char>> {
    match input.get(key) {
        Some(JsonValue::Str(text)) => Some(text),
        _ => None,
    }
}

/// The string named `key`, which may be missing or null; nothing where the
/// member is of another type.
pub open spec fn optional_text(input: JsonValue, key: Seq<char>) -> Option<Option<Seq<char>>> {
    match input.get(key) {
        None => Some(None),
        Some(JsonValue::Null) => Some(None),
        Some(JsonValue::Str(text)) => Some(Some(text)),
        _ => None,
    }
}

/// The line number named `key`, which may be missing or null; nothing where
/// the member is no integer from 0 to the largest `u32`.
pub open spec fn optional_line(input: JsonValue, key: Seq<char>) -> Option<Option<u32>> {
    match input.get(key) {
        None => Some(None),
        Some(JsonValue::Null) => Some(None),
        Some(value) => match Json::integer(value) {
            Some(n) => if 0 <= n <= u32::MAX {
                Some(Some(n as u32))
            } else {
                None
            },
            None => None,
        },
    }
}

/// Whether `value` is an integer in the range of `i32`.
pub open spec fn is_small_integer(value: JsonValue) -> bool {
    Json::integer(value) matches Some(n) && i32::MIN <= n <= i32::MAX
}

/// The numbers of `items`, where each is an integer in the range of `i32`.
pub open spec fn small_integers(items: Seq<JsonValue>) -> Option<Seq<i32>> {
    if forall|i: int| 0 <= i < items.len() ==> is_small_integer(#[trigger] items[i]) {
        Some(Seq::new(items.len(), |i: int| Json::integer(items[i]).unwrap() as i32))
    } else {
        None
    }
}

/// The numbers named `key`, which may be missing or null; nothing where the
/// member is no array of integers in the range of `i32`.
pub open spec fn optional_numbers(input: JsonValue, key: Seq<char>) -> Option<Option<Seq<i32>>> {
    match input.get(key) {
        None => Some(None),
        Some(JsonValue::Null) => Some(None),
        Some(JsonValue::Array(items)) => match small_integers(items) {
            Some(numbers) => Some(Some(numbers)),
            None => None,
        },
        _ => None,
    }
}

/// What the input of the editor tool holds: an object with the strings
/// `command` and `path`, and, where they are there, the other members with
/// their types. Members of other names are passed over.
pub open spec fn editor_input(input: JsonValue) -> Option<TextEditorInputView> {
    if !(input is Object) {
        None
    } else {
        match (
            required_text(input, "command"@),
            required_text(input, "path"@),
            optional_text(input, "file_text"@),
            optional_line(input, "insert_line"@),
            optional_text(input, "new_str"@),
            optional_text(input, "old_str"@),
            optional_numbers(input, "view_range"@),
        ) {
            (
                Some(command),
                Some(path),
                Some(file_text),
                Some(insert_line),
                Some(new_str),
                Some(old_str),
                Some(view_range),
            ) => Some(
                TextEditorInputView {
                    command,
                    path,
                    file_text,
                    insert_line,
                    new_str,
                    old_str,
                    view_range,
                },
            ),
            _ => None,
        }
    }
}

/// The string named `key`, which may be missing or null.
fn read_optional_text(input: &Json, key: &str) -> (found: Option<Option<String>>)
    ensures
        match found {
            Some(text) => optional_text(input@, key@) == Some(string_view(text)),
            None => optional_text(input@, key@) is None,
        },
{
    match input.get(key) {
        None => Some(None),
        Some(Json::Null) => Some(None),
        Some(Json::Str(text)) => Some(Some(text.clone())),
        Some(_) => None,
    }
}

/// The string named `key`, which must be there.
fn read_required_text(input: &Json, key: &str) -> (found: Option<String>)
    ensures
        string_view(found) == required_text(input@, key@),
{
    match input.get(key) {
        Some(Json::Str(text)) => Some(text.clone()),
        _ => None,
    }
}

/// The line number named `key`, which may be missing or null.
fn read_optional_line(input: &Json, key: &str) -> (found: Option<Option<u32>>)
    ensures
        found == optional_line(input@, key@),
{
    match input.get(key) {
        None => Some(None),
        Some(Json::Null) => Some(None),
        Some(value) => match value.as_u32() {
            Some(line) => Some(Some(line)),
            None => None,
        },
    }
}

/// The numbers named `key`, which may be missing or null.
fn read_optional_numbers(input: &Json, key: &str) -> (found: Option<Option<Vec<i32>>>)
    ensures
        match found {
            Some(Some(numbers)) => optional_numbers(input@, key@) == Some(Some(numbers@)),
            Some(None) => optional_numbers(input@, key@) == Some(None::<Seq<i32>>),
            None => optional_numbers(input@, key@) is None,
        },
{
    match input.get(key) {
        None => Some(None),
        Some(Json::Null) => Some(None),
        Some(Json::Array(items)) => {
            proof {
                lemma_array_view(*items);
            }
            let ghost all = trees(items@);
            let mut numbers: Vec<i32> = Vec::new();
            let mut i: usize = 0;
            while i < items.len()
                invariant
                    i <= items.len(),
                    all == trees(items@),
                    input@.get(key@) == Some(JsonValue::Array(all)),
                    numbers.len() == i,
                    forall|k: int| 0 <= k < i ==> is_small_integer(#[trigger] all[k]),
                    forall|k: int|
                        0 <= k < i ==> #[trigger] numbers[k] == Json::integer(all[k]).unwrap(),
                decreases items.len() - i,
            {
                match items[i].as_i32() {
                    Some(number) => {
                        numbers.push(number);
                    },
                    None => {
                        assert(!is_small_integer(all[i as int]));
                        return None;
                    },
                }
                i += 1;
            }
            assert(numbers@ =~= small_integers(all).unwrap());
            Some(Some(numbers))
        },
        Some(_) => None,
    }
}

/// Reads the input of the editor tool.
pub fn parse_text_editor_input(input: &Json) -> (parsed: Option<TextEditorInput>)
    ensures
        match parsed {
            Some(read) => editor_input(input@) == Some(read@),
            None => editor_input(input@) is None,
        },
{
    match input {
        Json::Object(_) => {},
        _ => {
            return None;
        },
    }
    let command = read_required_text(input, "command");
    let path = read_required_text(input, "path");
    let file_text = read_optional_text(input, "file_text");
    let insert_line = read_optional_line(input, "insert_line");
    let new_str = read_optional_text(input, "new_str");
    let old_str = read_optional_text(input, "old_str");
    let view_range = read_optional_numbers(input, "view_range");
    match (command, path, file_text, insert_line, new_str, old_str, view_range) {
        (
            Some(command),
            Some(path),
            Some(file_text),
            Some(insert_line),
            Some(new_str),
            Some(old_str),
            Some(view_range),
        ) => Some(
            TextEditorInput { command, path, file_text, insert_line, new_str, old_str, view_range },
        ),
        _ => None,
    }
}

/// The range of lines that the two numbers of a view name. `-1` as the
/// second number stands for the last line; else one of the two must be
/// positive.
pub open spec fn view_range_of(range: Seq<i32>) -> Result<ViewRange, ToolUseErrorView> {
    if range.len() == 2 && range[1] == -1 && range[0] > 0 {
        Ok(ViewRange { start: range[0] as u32, end: None })
    } else if range.len() == 2 && (range[0] > 0 || range[1] > 0) {
        Ok(ViewRange { start: range[0] as u32, end: Some(range[1] as u32) })
    } else {
        Err(ToolUseErrorView::InvalidViewRange)
    }
}

/// The request for a view.
pub open spec fn view_request(path: Seq<char>, view_range: Option<Seq<i32>>) -> Result<
    RequestView,
    ToolUseErrorView,
> {
    match view_range {
        None => Ok(RequestView::View { path, view_range: None }),
        Some(range) => match view_range_of(range) {
            Ok(range) => Ok(RequestView::View { path, view_range: Some(range) }),
            Err(error) => Err(error),
        },
    }
}

/// Makes the request for a view.
pub fn call_view(path: &str, view_range: Option<Vec<i32>>) -> (result: Result<Request, ToolUseError>)
    ensures
        match view_request(
            path@,
            match view_range {
                Some(range) => Some(range@),
                None => None,
            },
        ) {
            Ok(request) => result is Ok && result.unwrap()@ == request,
            Err(error) => result is Err && result.unwrap_err()@ == error,
        },
{
    match view_range {
        None => Ok(Request::View { path: text_of(path), view_range: None }),
        Some(range) => {
            if range.len() == 2 && range[1] == -1 && range[0] > 0 {
                Ok(
                    Request::View {
                        path: text_of(path),
                        view_range: Some(ViewRange { start: range[0] as u32, end: None }),
                    },
                )
            } else if range.len() == 2 && (range[0] > 0 || range[1] > 0) {
                Ok(
                    Request::View {
                        path: text_of(path),
                        view_range: Some(
                            ViewRange { start: range[0] as u32, end: Some(range[1] as u32) },
                        ),
                    },
                )
            } else {
                Err(ToolUseError::InvalidViewRange)
            }
        },
    }
}

/// Makes the request to create a file: it needs the text of the file.
pub fn call_create(path: &str, file_text: Option<String>) -> (result: Result<Request, ToolUseError>)
    ensures
        match file_text {
            Some(text) => result is Ok && result.unwrap()@ == (RequestView::Create {
                path: path@,
                file_text: text@,
            }),
            None => result is Err && result.unwrap_err()@ == ToolUseErrorView::MissingFileText,
        },
{
    match file_text {
        Some(file_text) => Ok(Request::Create { path: text_of(path), file_text }),
        None => Err(ToolUseError::MissingFileText),
    }
}

/// Makes the request for a replacement: it needs the text to replace.
pub fn call_str_replace(path: &str, old: Option<String>, new: Option<String>) -> (result: Result<
    Request,
    ToolUseError,
>)
    ensures
        match old {
            Some(old) => result is Ok && result.unwrap()@ == (RequestView::StringReplace {
                path: path@,
                to_replace: old@,
                replacement: match new {
                    Some(new) => new@,
                    None => Seq::empty(),
                },
            }),
            None => result is Err && result.unwrap_err()@ == ToolUseErrorView::MissingOldStr,
        },
{
    match old {
        Some(to_replace) => Ok(
            Request::StringReplace { path: text_of(path), to_replace, replacement: new },
        ),
        None => Err(ToolUseError::MissingOldStr),
    }
}

/// Makes the request for an insertion: it needs the line number, and then
/// the line.
pub fn insert(path: &str, line_number: Option<u32>, line: Option<String>) -> (result: Result<
    Request,
    ToolUseError,
>)
    ensures
        match (line_number, line) {
            (None, _) => result is Err && result.unwrap_err()@
                == ToolUseErrorView::MissingInsertLine,
            (Some(_), None) => result is Err && result.unwrap_err()@
                == ToolUseErrorView::MissingNewStr,
            (Some(number), Some(line)) => result is Ok && result.unwrap()@ == (RequestView::Insert {
                path: path@,
                line_number: number as nat,
                line: line@,
            }),
        },
{
    match line_number {
        None => Err(ToolUseError::MissingInsertLine),
        Some(line_number) => match line {
            None => Err(ToolUseError::MissingNewStr),
            Some(line) => Ok(Request::Insert { path: text_of(path), line_number, line }),
        },
    }
}

/// Makes the request for an undo.
pub fn undo_edit(path: &str) -> (request: Request)
    ensures
        request@ == (RequestView::UndoEdit { path: path@ }),
{
    Request::UndoEdit { path: text_of(path) }
}

/// The request that an input of the editor tool leads to, by its command.
pub open spec fn editor_request(input: TextEditorInputView) -> Result<
    RequestView,
    ToolUseErrorView,
> {
    if input.command == "view"@ {
        view_request(input.path, input.view_range)
    } else if input.command == "create"@ {
        match input.file_text {
            Some(file_text) => Ok(RequestView::Create { path: input.path, file_text }),
            None => Err(ToolUseErrorView::MissingFileText),
        }
    } else if input.command == "str_replace"@ {
        match input.old_str {
            Some(to_replace) => Ok(
                RequestView::StringReplace {
                    path: input.path,
                    to_replace,
                    replacement: match input.new_str {
                        Some(new) => new,
                        None => Seq::empty(),
                    },
                },
            ),
            None => Err(ToolUseErrorView::MissingOldStr),
        }
    } else if input.command == "insert"@ {
        match (input.insert_line, input.new_str) {
            (None, _) => Err(ToolUseErrorView::MissingInsertLine),
            (Some(_), None) => Err(ToolUseErrorView::MissingNewStr),
            (Some(number), Some(line)) => Ok(
                RequestView::Insert { path: input.path, line_number: number as nat, line },
            ),
        }
    } else if input.command == "undo_edit"@ {
        Ok(RequestView::UndoEdit { path: input.path })
    } else {
        Err(ToolUseErrorView::InvalidCommand(input.command))
    }
}

/// The request that the input of the editor tool leads to.
pub open spec fn text_editor_request(input: JsonValue) -> Result<RequestView, ToolUseErrorView> {
    match editor_input(input) {
        Some(read) => editor_request(read),
        None => Err(ToolUseErrorView::InvalidInput),
    }
}

/// Checks the input of the editor tool, and makes the request.
pub fn call_text_editor_tool(input: &Json) -> (result: Result<Request, ToolUseError>)
    ensures
        match text_editor_request(input@) {
            Ok(request) => result is Ok && result.unwrap()@ == request,
            Err(error) => result is Err && result.unwrap_err()@ == error,
        },
{
    let read = match parse_text_editor_input(input) {
        Some(read) => read,
        None => {
            return Err(ToolUseError::InvalidInput);
        },
    };
    let TextEditorInput { command, path, file_text, insert_line, new_str, old_str, view_range } =
        read;
    if same_text(command.as_str(), "view") {
        call_view(path.as_str(), view_range)
    } else if same_text(command.as_str(), "create") {
        call_create(path.as_str(), file_text)
    } else if same_text(command.as_str(), "str_replace") {
        call_str_replace(path.as_str(), old_str, new_str)
    } else if same_text(command.as_str(), "insert") {
        insert(path.as_str(), insert_line, new_str)
    } else if same_text(command.as_str(), "undo_edit") {
        Ok(undo_edit(path.as_str()))
    } else {
        Err(ToolUseError::InvalidCommand(command))
    }
}

/// The name of the shell tool.
pub const BASH: &'static str = "bash";

/// The name of the editor tool.
pub const TEXT_EDITOR: &'static str = "text_editor";

/// The request that a tool use leads to, by the name of its tool.
pub open spec fn tool_request(name: Seq<char>, input: JsonValue) -> Result<
    ToolRequestView,
    ToolUseErrorView,
> {
    if name == BASH@ {
        bash_request(input)
    } else if name == TEXT_EDITOR@ {
        match text_editor_request(input) {
            Ok(request) => Ok(ToolRequestView::Editor(request)),
            Err(error) => Err(error),
        }
    } else {
        Err(ToolUseErrorView::UnknownTool(name))
    }
}

/// Checks the input of a tool use, and makes the request to the server.
pub fn call_tool(name: &str, input: &Json) -> (result: Result<ToolRequest, ToolUseError>)
    ensures
        match tool_request(name@, input@) {
            Ok(request) => result is Ok && result.unwrap()@ == request,
            Err(error) => result is Err && result.unwrap_err()@ == error,
        },
{
    if same_text(name, BASH) {
        call_bash_tool(input)
    } else if same_text(name, TEXT_EDITOR) {
        match call_text_editor_tool(input) {
            Ok(request) => Ok(ToolRequest::Editor(request)),
            Err(error) => Err(error),
        }
    } else {
        Err(ToolUseError::UnknownTool(text_of(name)))
    }
}

/// The report on a view.
pub fn view_report(path: &str, snippet: Snippet) -> (report: String)
    ensures
        report@ == "Here's "@ + path@ + " with each line numbered:\n"@ + numbered(
            snippet@.start,
            snippet@.lines,
        ),
{
    let mut report = text_of("Here's ");
    push_text(&mut report, path);
    push_text(&mut report, " with each line numbered:\n");
    push_text(&mut report, snippet.to_string_numbered().as_str());
    report
}

/// The report on a file that was created.
pub fn create_report(path: &str) -> (report: String)
    ensures
        report@ == "Successfully created "@ + path@ + "."@,
{
    let mut report = text_of("Successfully created ");
    push_text(&mut report, path);
    push_text(&mut report, ".");
    report
}

/// The report on a replacement.
pub fn str_replace_report(snippet: Snippet) -> (report: String)
    ensures
        report@
            == "Review the changes and make sure it's as expected, edit again if not:\n"@
            + numbered(snippet@.start, snippet@.lines),
{
    let mut report = text_of(
        "Review the changes and make sure it's as expected, edit again if not:\n",
    );
    push_text(&mut report, snippet.to_string_numbered().as_str());
    report
}

/// The report on an insertion.
pub fn insert_report(snippet: Snippet) -> (report: String)
    ensures
        report@
            == "Review the change and make sure it's as expected (correct indentation, no duplicate lines, etc). Edit the file if not.:\n"@
            + numbered(snippet@.start, snippet@.lines),
{
    let mut report = text_of(
        "Review the change and make sure it's as expected (correct indentation, no duplicate lines, etc). Edit the file if not.:\n",
    );
    push_text(&mut report, snippet.to_string_numbered().as_str());
    report
}

/// The report on an undo.
pub fn undo_edit_report(path: &str, snippet: Snippet) -> (report: String)
    ensures
        report@ == "Last edit to "@ + path@ + " undone successfully. Please review:\n"@ + numbered(
            snippet@.start,
            snippet@.lines,
        ),
{
    let mut report = text_of("Last edit to ");
    push_text(&mut report, path);
    push_text(&mut report, " undone successfully. Please review:\n");
    push_text(&mut report, snippet.to_string_numbered().as_str());
    report
}

/// Why a tool call gave no output: the server answered with a status, the
/// server could not be reached, or something went wrong before it was
/// asked.
#[derive(Debug, Clone, PartialEq, Eq)]
pub enum Failure {
    Status { code: Code, message: String },
    Transport(String),
    Other(String),
}

/// A `Failure` as mathematical values.
pub enum FailureView {
    Status { code: Code, message: Seq<char> },
    Transport(Seq<char>),
    Other(Seq<char>),
}

impl View for Failure {
    type V = FailureView;

    open spec fn view(&self) -> FailureView {
        match self {
            Failure::Status { code, message } => FailureView::Status {
                code: *code,
                message: message@,
            },
            Failure::Transport(message) => FailureView::Transport(message@),
            Failure::Other(message) => FailureView::Other(message@),
        }
    }
}

/// What becomes of a tool call: an output for the model, with the mark of
/// an error or not, or a failure that ends the exchange. The model is shown
/// what the server reports under the status `Unknown` and what went wrong
/// before the server was asked; every other status and a server that
/// could not be reached end the exchange.
pub open spec fn triaged(outcome: Result<Seq<char>, FailureView>) -> Result<
    (Seq<char>, bool),
    FailureView,
> {
    match outcome {
        Ok(output) => Ok((output, false)),
        Err(FailureView::Status { code, message }) => if code == Code::Unknown {
            Ok((message, true))
        } else {
            Err(FailureView::Status { code, message })
        },
        Err(FailureView::Transport(message)) => Err(FailureView::Transport(message)),
        Err(FailureView::Other(message)) => Ok((message, true)),
    }
}

/// The view of the outcome of a call.
pub open spec fn outcome_view(outcome: Result<String, Failure>) -> Result<Seq<char>, FailureView> {
    match outcome {
        Ok(output) => Ok(output@),
        Err(failure) => Err(failure@),
    }
}

/// Decides what becomes of a tool call.
pub fn triage(outcome: Result<String, Failure>) -> (result: Result<(String, bool), Failure>)
    ensures
        match triaged(outcome_view(outcome)) {
            Ok((text, is_error)) => {
                &&& result is Ok
                &&& result.unwrap().0@ == text
                &&& result.unwrap().1 == is_error
            },
            Err(failure) => result is Err && result.unwrap_err()@ == failure,
        },
{
    match outcome {
        Ok(output) => Ok((output, false)),
        Err(Failure::Status { code, message }) => match code {
            Code::Unknown => Ok((message, true)),
            _ => Err(Failure::Status { code, message }),
        },
        Err(Failure::Transport(message)) => Err(Failure::Transport(message)),
        Err(Failure::Other(message)) => Ok((message, true)),
    }
}

/// The model never sees a failure of the server or of the transport: what
/// it is shown is an output, what the server reports under the status
/// `Unknown`, or what went wrong before the server was asked.
pub proof fn lemma_model_sees_only_tool_errors(outcome: Result<Seq<char>, FailureView>)
    ensures
        triaged(outcome) is Ok <==> (outcome is Ok || outcome matches Err(
            FailureView::Status { code: Code::Unknown, .. },
        ) || outcome matches Err(FailureView::Other(_))),
{
}

} // verus!

use bash_agent::client::{
    call_bash_tool, call_create, call_str_replace, call_text_editor_tool, call_tool, call_view,
    create_report, insert, insert_report, parse_text_editor_input, str_replace_report, triage,
    undo_edit, undo_edit_report, view_report, Failure, TextEditorInput, ToolRequest, ToolUseError,
};
use bash_agent::editor::{Request, ViewRange};
use bash_agent::json::Json;
use bash_agent::rpc::Code;
use bash_agent::snippet::Snippet;

fn json(text: &str) -> Json {
    Json::parse(text).unwrap()
}

#[test]
fn bash_needs_a_command() {
    assert_eq!(
        call_tool("bash", &json(r#"{"command": "echo hello"}"#)),
        Ok(ToolRequest::Bash { input: "echo hello".to_string() })
    );
    assert_eq!(call_bash_tool(&json(r#"["echo"]"#)), Err(ToolUseError::NotAnObject));
    assert_eq!(call_bash_tool(&json(r#""echo""#)), Err(ToolUseError::NotAnObject));
    assert_eq!(call_bash_tool(&json("{}")), Err(ToolUseError::MissingCommand));
    assert_eq!(call_bash_tool(&json(r#"{"command": 1}"#)), Err(ToolUseError::MissingCommand));
    assert_eq!(call_bash_tool(&json(r#"{"command": null}"#)), Err(ToolUseError::MissingCommand));
}

#[test]
fn unknown_tools_are_refused() {
    assert_eq!(
        call_tool("python", &json("{}")),
        Err(ToolUseError::UnknownTool("python".to_string()))
    );
    assert_eq!(
        ToolUseError::UnknownTool("python".to_string()).message(),
        "Tool python not available"
    );
}

#[test]
fn editor_input_is_read_with_its_types() {
    let input = json(
        r#"{"command": "insert", "path": "/a", "insert_line": 3, "new_str": "x",
            "old_str": null, "view_range": [1, -1], "more": {"ignored": true}}"#,
    );
    assert_eq!(
        parse_text_editor_input(&input),
        Some(TextEditorInput {
            command: "insert".to_string(),
            path: "/a".to_string(),
            file_text: None,
            insert_line: Some(3),
            new_str: Some("x".to_string()),
            old_str: None,
            view_range: Some(vec![1, -1]),
        })
    );
    let refused = [
        r#"[]"#,
        r#"{"path": "/a"}"#,
        r#"{"command": "view"}"#,
        r#"{"command": "view", "path": 1}"#,
        r#"{"command": "view", "path": "/a", "file_text": 1}"#,
        r#"{"command": "view", "path": "/a", "insert_line": -1}"#,
        r#"{"command": "view", "path": "/a", "insert_line": 1.5}"#,
        r#"{"command": "view", "path": "/a", "insert_line": 4294967296}"#,
        r#"{"command": "view", "path": "/a", "insert_line": "1"}"#,
        r#"{"command": "view", "path": "/a", "new_str": []}"#,
        r#"{"command": "view", "path": "/a", "old_str": false}"#,
        r#"{"command": "view", "path": "/a", "view_range": 1}"#,
        r#"{"command": "view", "path": "/a", "view_range": [1, "2"]}"#,
        r#"{"command": "view", "path": "/a", "view_range": [1, 2147483648]}"#,
    ];
    for input in refused {
        assert_eq!(parse_text_editor_input(&json(input)), None);
        assert_eq!(call_text_editor_tool(&json(input)), Err(ToolUseError::InvalidInput));
    }
}

#[test]
fn editor_commands_lead_to_their_requests() {
    let request = |input: &str| call_tool("text_editor", &json(input));
    assert_eq!(
        request(r#"{"command": "view", "path": "/a"}"#),
        Ok(ToolRequest::Editor(Request::View { path: "/a".to_string(), view_range: None }))
    );
    assert_eq!(
        request(r#"{"command": "create", "path": "/a", "file_text": "text"}"#),
        Ok(ToolRequest::Editor(Request::Create {
            path: "/a".to_string(),
            file_text: "text".to_string()
        }))
    );
    assert_eq!(
        request(r#"{"command": "str_replace", "path": "/a", "old_str": "x", "new_str": "y"}"#),
        Ok(ToolRequest::Editor(Request::StringReplace {
            path: "/a".to_string(),
            to_replace: "x".to_string(),
            replacement: Some("y".to_string()),
        }))
    );
    assert_eq!(
        request(r#"{"command": "insert", "path": "/a", "insert_line": 0, "new_str": "y"}"#),
        Ok(ToolRequest::Editor(Request::Insert {
            path: "/a".to_string(),
            line_number: 0,
            line: "y".to_string(),
        }))
    );
    assert_eq!(
        request(r#"{"command": "undo_edit", "path": "/a"}"#),
        Ok(ToolRequest::Editor(Request::UndoEdit { path: "/a".to_string() }))
    );
    assert_eq!(
        request(r#"{"command": "delete", "path": "/a"}"#),
        Err(ToolUseError::InvalidCommand("delete".to_string()))
    );
}

#[test]
fn editor_commands_need_their_members() {
    assert_eq!(call_create("/a", None), Err(ToolUseError::MissingFileText));
    assert_eq!(
        call_str_replace("/a", None, Some("y".to_string())),
        Err(ToolUseError::MissingOldStr)
    );
    assert_eq!(
        call_str_replace("/a", Some("x".to_string()), None),
        Ok(Request::StringReplace {
            path: "/a".to_string(),
            to_replace: "x".to_string(),
            replacement: None
        })
    );
    assert_eq!(insert("/a", None, Some("y".to_string())), Err(ToolUseError::MissingInsertLine));
    assert_eq!(insert("/a", None, None), Err(ToolUseError::MissingInsertLine));
    assert_eq!(insert("/a", Some(1), None), Err(ToolUseError::MissingNewStr));
    assert_eq!(undo_edit("/a"), Request::UndoEdit { path: "/a".to_string() });
}

#[test]
fn view_ranges() {
    let range = |numbers: &[i32]| match call_view("/a", Some(numbers.to_vec())) {
        Ok(Request::View { view_range, .. }) => Ok(view_range.unwrap()),
        Ok(other) => panic!("no view: {:?}", other),
        Err(error) => Err(error),
    };
    assert_eq!(range(&[1, -1]), Ok(ViewRange { start: 1, end: None }));
    assert_eq!(range(&[2, 5]), Ok(ViewRange { start: 2, end: Some(5) }));
    assert_eq!(range(&[0, 5]), Ok(ViewRange { start: 0, end: Some(5) }));
    assert_eq!(range(&[3, 0]), Ok(ViewRange { start: 3, end: Some(0) }));
    assert_eq!(range(&[-5, 3]), Ok(ViewRange { start: 4294967291, end: Some(3) }));
    assert_eq!(range(&[0, 0]), Err(ToolUseError::InvalidViewRange));
    assert_eq!(range(&[0, -1]), Err(ToolUseError::InvalidViewRange));
    assert_eq!(range(&[-1, -1]), Err(ToolUseError::InvalidViewRange));
    assert_eq!(range(&[1]), Err(ToolUseError::InvalidViewRange));
    assert_eq!(range(&[1, 2, 3]), Err(ToolUseError::InvalidViewRange));
    assert_eq!(range(&[]), Err(ToolUseError::InvalidViewRange));
}

#[test]
fn tool_use_errors_have_their_words() {
    assert_eq!(
        ToolUseError::NotAnObject.message(),
        "The argument(s) must be fields in a JSON object"
    );
    assert_eq!(
        ToolUseError::MissingCommand.message(),
        "The \"command\" argument is required and must be a string"
    );
    assert_eq!(ToolUseError::InvalidInput.message(), "Failed to parse input");
    assert_eq!(
        ToolUseError::InvalidViewRange.message(),
        "view_range must have two positive entries"
    );
    assert_eq!(
        ToolUseError::MissingFileText.message(),
        "file_text is required with the create command"
    );
    assert_eq!(
        ToolUseError::MissingOldStr.message(),
        "old_str is required with the str_replace command"
    );
    assert_eq!(
        ToolUseError::MissingInsertLine.message(),
        "insert_line is required with the insert command"
    );
    assert_eq!(
        ToolUseError::MissingNewStr.message(),
        "new_str is required with the insert command"
    );
    assert_eq!(
        ToolUseError::InvalidCommand("delete".to_string()).message(),
        "delete is an invalid text_editor command"
    );
}

#[test]
fn reports() {
    let snippet = || Snippet { start: 3, lines: vec!["a".to_string(), "b".to_string()] };
    assert_eq!(view_report("/a", snippet()), "Here's /a with each line numbered:\n3: a\n4: b");
    assert_eq!(create_report("/a"), "Successfully created /a.");
    assert_eq!(
        str_replace_report(snippet()),
        "Review the changes and make sure it's as expected, edit again if not:\n3: a\n4: b"
    );
    assert_eq!(
        insert_report(snippet()),
        "Review the change and make sure it's as expected (correct indentation, no duplicate \
         lines, etc). Edit the file if not.:\n3: a\n4: b"
    );
    assert_eq!(
        undo_edit_report("/a", snippet()),
        "Last edit to /a undone successfully. Please review:\n3: a\n4: b"
    );
}

#[test]
fn the_model_sees_outputs_and_tool_use_errors_only() {
    assert_eq!(triage(Ok("out".to_string())), Ok(("out".to_string(), false)));
    let unknown = Failure::Status { code: Code::Unknown, message: "bad".to_string() };
    assert_eq!(triage(Err(unknown)), Ok(("bad".to_string(), true)));
    let other = Failure::Other(ToolUseError::MissingCommand.message());
    assert_eq!(
        triage(Err(other)),
        Ok(("The \"command\" argument is required and must be a string".to_string(), true))
    );
    let codes = [
        Code::Cancelled,
        Code::InvalidArgument,
        Code::DeadlineExceeded,
        Code::NotFound,
        Code::AlreadyExists,
        Code::PermissionDenied,
        Code::ResourceExhausted,
        Code::FailedPrecondition,
        Code::Aborted,
        Code::OutOfRange,
        Code::Unimplemented,
        Code::Internal,
        Code::Unavailable,
        Code::DataLoss,
        Code::Unauthenticated,
    ];
    for code in codes {
        let failure = Failure::Status { code, message: "no".to_string() };
        assert_eq!(triage(Err(failure.clone())), Err(failure));
    }
    let transport = Failure::Transport("connection refused".to_string());
    assert_eq!(triage(Err(transport.clone())), Err(transport));
}

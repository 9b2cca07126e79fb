use bash_agent::anthropic::{
    build_request_body, feed, on_text_event, on_tool_event, parse_tool_use_content_block_start,
    send_request, serialize_assistant_response, serialize_tool, serialize_tool_results,
    stream_response, stream_response_message, stream_tool_use,
};
use bash_agent::common::{Exchange, Model, ModelParams, Provider, Tool, ToolUse};
use bash_agent::json::Json;
use bash_agent::stream::{Decoder, Shown, SseEvent, StreamError};

fn tool_use(name: &str, id: &str, input: &str, output: Option<(&str, bool)>) -> ToolUse {
    ToolUse {
        name: name.to_string(),
        id: id.to_string(),
        input: Json::parse(input).unwrap(),
        output: output.map(|(text, is_error)| (text.to_string(), is_error)),
    }
}

fn event(kind: &str, data: &str) -> SseEvent {
    SseEvent { event: kind.to_string(), data: data.to_string() }
}

fn params() -> ModelParams {
    ModelParams::new(
        Model { anthropic: Some("opus-3".to_string()), openai: "gpt-4o".to_string() },
        8192,
        "1.0".to_string(),
    )
}

const BASH: Tool =
    Tool { name: "bash", description: "Runs a command.", input_schema: r#"{"type": "object"}"# };

#[test]
fn anthropic_assistant_turn_holds_text_and_tool_uses() {
    let uses = vec![tool_use("bash", "t1", r#"{"command": "ls"}"#, None)];
    let message = serialize_assistant_response("hi", &uses);
    assert_eq!(
        message.render().unwrap(),
        concat_all(&[
            r#"{"content":[{"text":"hi","type":"text"},"#,
            r#"{"id":"t1","input":{"command":"ls"},"name":"bash","type":"tool_use"}],"#,
            r#""role":"assistant"}"#,
        ])
    );
}

fn concat_all(parts: &[&str]) -> String {
    parts.iter().map(|part| part.to_string()).collect()
}

#[test]
fn anthropic_assistant_turn_without_text_has_no_text_block() {
    let uses = vec![tool_use("bash", "t1", "{}", None)];
    let message = serialize_assistant_response("", &uses);
    assert_eq!(
        message.render().unwrap(),
        r#"{"content":[{"id":"t1","input":{},"name":"bash","type":"tool_use"}],"role":"assistant"}"#
    );
    let message = serialize_assistant_response("done", &[]);
    assert_eq!(
        message.render().unwrap(),
        r#"{"content":[{"text":"done","type":"text"}],"role":"assistant"}"#
    );
}

#[test]
fn anthropic_tool_results_pair_with_the_tool_uses() {
    let uses = vec![
        tool_use("bash", "t1", "{}", Some(("out", false))),
        tool_use("bash", "t2", "{}", Some(("bad", true))),
        tool_use("bash", "t3", "{}", None),
    ];
    let results = serialize_tool_results(&uses);
    assert_eq!(
        results.render().unwrap(),
        concat_all(&[
            r#"{"content":["#,
            r#"{"content":"out","is_error":false,"tool_use_id":"t1","type":"tool_result"},"#,
            r#"{"content":"bad","is_error":true,"tool_use_id":"t2","type":"tool_result"},"#,
            r#"{"content":"Operation cancelled by user","is_error":true,"tool_use_id":"t3","type":"tool_result"}"#,
            r#"],"role":"user"}"#,
        ])
    );
    let content = results.get("content").unwrap();
    for (index, tool_use) in uses.iter().enumerate() {
        let result = content.at(index).unwrap();
        assert_eq!(result.get("tool_use_id").unwrap().as_str(), Some(tool_use.id.as_str()));
    }
    assert_eq!(content.at(uses.len()), None);
}

#[test]
fn anthropic_tool_description() {
    assert_eq!(
        serialize_tool(&BASH).unwrap().render().unwrap(),
        r#"{"description":"Runs a command.","input_schema":{"type":"object"},"name":"bash"}"#
    );
    let broken = Tool { name: "bash", description: "", input_schema: "{" };
    assert_eq!(serialize_tool(&broken), None);
}

#[test]
fn anthropic_request_body() {
    let earlier = Exchange {
        prompt: "first".to_string(),
        response: vec![
            ("".to_string(), vec![tool_use("bash", "t1", r#"{"command":"ls"}"#, Some(("a.txt", false)))]),
            ("".to_string(), vec![]),
            ("One file.".to_string(), vec![]),
        ],
    };
    let current = Exchange { prompt: "second".to_string(), response: vec![] };
    let body = build_request_body(&[earlier], &current, &params(), "Be brief.", &[BASH]).unwrap();
    assert_eq!(
        body.render().unwrap(),
        concat_all(&[
            r#"{"max_tokens":8192,"messages":["#,
            r#"{"content":"first","role":"user"},"#,
            r#"{"content":[{"id":"t1","input":{"command":"ls"},"name":"bash","type":"tool_use"}],"role":"assistant"},"#,
            r#"{"content":[{"content":"a.txt","is_error":false,"tool_use_id":"t1","type":"tool_result"}],"role":"user"},"#,
            r#"{"content":[{"text":"One file.","type":"text"}],"role":"assistant"},"#,
            r#"{"content":"second","role":"user"}"#,
            r#"],"model":"opus-3","stream":true,"system":"Be brief.","temperature":1.0,"#,
            r#""tools":[{"description":"Runs a command.","input_schema":{"type":"object"},"name":"bash"}]}"#,
        ])
    );
}

#[test]
fn anthropic_request_body_needs_schemas_that_are_json() {
    let broken = Tool { name: "bash", description: "", input_schema: "no json" };
    let current = Exchange { prompt: "p".to_string(), response: vec![] };
    assert_eq!(build_request_body(&[], &current, &params(), "", &[BASH, broken]), None);
    assert_eq!(send_request(&[], &current, &params(), "", &[broken], "key"), None);
}

#[test]
fn anthropic_request_goes_out_with_the_key() {
    let current = Exchange { prompt: "p".to_string(), response: vec![] };
    let request = send_request(&[], &current, &params(), "", &[], "secret").unwrap();
    assert_eq!(request.url, "https://api.anthropic.com/v1/messages");
    assert_eq!(
        request.headers,
        vec![
            ("content-type".to_string(), "application/json".to_string()),
            ("x-api-key".to_string(), "secret".to_string()),
            ("anthropic-version".to_string(), "2023-06-01".to_string()),
        ]
    );
    assert_eq!(
        request.body,
        build_request_body(&[], &current, &params(), "", &[]).unwrap().render().unwrap()
    );
}

fn whole_stream() -> Vec<SseEvent> {
    vec![
        event("message_start", r#"{"type":"message_start"}"#),
        event("content_block_start", r#"{"index":0,"content_block":{"type":"text","text":""}}"#),
        event("content_block_delta", r#"{"index":0,"delta":{"type":"text_delta","text":"Hel"}}"#),
        event("content_block_delta", r#"{"index":0,"delta":{"type":"text_delta","text":"lo"}}"#),
        event("content_block_stop", r#"{"index":0}"#),
        event(
            "content_block_start",
            r#"{"index":1,"content_block":{"type":"tool_use","id":"toolu_1","name":"bash","input":{}}}"#,
        ),
        event("content_block_delta", r#"{"index":1,"delta":{"partial_json":"{\"comm"}}"#),
        event("content_block_delta", r#"{"index":1,"delta":{"partial_json":"and\": \"ls"}}"#),
        event("content_block_delta", r#"{"index":1,"delta":{"partial_json":" -l\"}"}}"#),
        event("content_block_stop", r#"{"index":1}"#),
        event(
            "content_block_start",
            r#"{"index":2,"content_block":{"type":"tool_use","id":"toolu_2","name":"text_editor","input":{}}}"#,
        ),
        event("content_block_delta", r#"{"index":2,"delta":{"partial_json":"{\"path\": \"/a\"}"}}"#),
        event("content_block_stop", r#"{"index":2}"#),
        event("message_delta", r#"{"delta":{"stop_reason":"tool_use"}}"#),
        event("message_stop", r#"{"type":"message_stop"}"#),
    ]
}

#[test]
fn anthropic_stream_decodes_text_and_tool_uses() {
    let (message, tool_uses) = stream_response(&whole_stream()).unwrap();
    assert_eq!(message, "Hello");
    assert_eq!(
        tool_uses,
        vec![
            tool_use("bash", "toolu_1", r#"{"command": "ls -l"}"#, None),
            tool_use("text_editor", "toolu_2", r#"{"path": "/a"}"#, None),
        ]
    );
}

#[test]
fn anthropic_stream_shows_tokens_as_they_come() {
    let mut decoder = Decoder::new();
    let shown: Vec<Shown> =
        whole_stream().iter().map(|event| feed(&mut decoder, event).unwrap()).collect();
    assert_eq!(
        &shown[..6],
        &[
            Shown::Nothing,
            Shown::Nothing,
            Shown::Tokens("Hel".to_string()),
            Shown::Tokens("lo".to_string()),
            Shown::Break,
            Shown::Nothing,
        ]
    );
    assert!(shown[6..].iter().all(|shown| *shown == Shown::Nothing));
    assert_eq!(decoder.message, "Hello");
    assert_eq!(decoder.tool_uses.len(), 2);
    let tokens: String = shown
        .iter()
        .map(|shown| match shown {
            Shown::Tokens(tokens) => tokens.as_str(),
            _ => "",
        })
        .collect();
    assert_eq!(tokens, decoder.message);
}

#[test]
fn anthropic_tool_input_does_not_depend_on_the_cut() {
    let text = r#"{"command": "echo \"hi\"", "n": [1, 2.5, null]}"#;
    let value = Json::parse(text).unwrap();
    for cut in 0..=text.len() {
        let (first, second) = text.split_at(cut);
        let delta = |fragment: &str| {
            let data = Json::Object(vec![(
                "delta".to_string(),
                Json::Object(vec![("partial_json".to_string(), Json::string(fragment))]),
            )]);
            event("content_block_delta", &data.render().unwrap())
        };
        let events = vec![
            event(
                "content_block_start",
                r#"{"content_block":{"type":"tool_use","id":"t","name":"bash"}}"#,
            ),
            delta(first),
            delta(second),
            event("content_block_stop", "{}"),
        ];
        let (_, tool_uses) = stream_response(&events).unwrap();
        assert_eq!(tool_uses.len(), 1);
        assert_eq!(tool_uses[0].input, value);
    }
}

#[test]
fn anthropic_stream_without_tool_uses() {
    let events = vec![
        event("content_block_delta", r#"{"delta":{"text":"Done."}}"#),
        event("content_block_stop", "{}"),
    ];
    assert_eq!(stream_response(&events), Ok(("Done.".to_string(), vec![])));
    assert_eq!(stream_response(&[]), Ok((String::new(), vec![])));
}

#[test]
fn anthropic_stream_errors() {
    let run = |events: Vec<SseEvent>| stream_response(&events).unwrap_err();
    assert_eq!(run(vec![event("ping", "no json")]), StreamError::InvalidData);
    assert_eq!(
        run(vec![event("error", r#"{"message":"Overloaded"}"#)]),
        StreamError::Upstream("Overloaded".to_string())
    );
    assert_eq!(
        run(vec![event("error", r#"{"error":{"message":"Overloaded"}}"#)]),
        StreamError::Upstream("Failed to fetch response chunk".to_string())
    );
    assert_eq!(
        run(vec![event("content_block_delta", r#"{"content_block":{"type":"tool_use"}}"#)]),
        StreamError::UnexpectedToolUse
    );
    assert_eq!(
        run(vec![event("content_block_start", r#"{"content_block":{"type":"tool_use","id":"t"}}"#)]),
        StreamError::MissingToolName
    );
    assert_eq!(
        run(vec![event(
            "content_block_start",
            r#"{"content_block":{"type":"tool_use","name":"bash"}}"#
        )]),
        StreamError::MissingToolId
    );
    assert_eq!(
        run(vec![event("content_block_delta", r#"{"delta":{"partial_json":"{}"}}"#)]),
        StreamError::MissingTokens
    );
    let start = event(
        "content_block_start",
        r#"{"content_block":{"type":"tool_use","id":"t","name":"bash"}}"#,
    );
    assert_eq!(
        run(vec![start.clone(), event("content_block_delta", r#"{"delta":{"text":"x"}}"#)]),
        StreamError::MissingToolInput
    );
    assert_eq!(
        run(vec![
            start.clone(),
            event("content_block_delta", r#"{"delta":{"partial_json":"{\"a\": "}}"#),
            event("content_block_stop", "{}"),
        ]),
        StreamError::InvalidToolInput
    );
    assert_eq!(
        run(vec![start.clone(), event("error", r#"{"message":"late"}"#)]),
        StreamError::Upstream("late".to_string())
    );
    assert_eq!(
        run(vec![start, event("content_block_start", r#"{"content_block":{"type":"text"}}"#)]),
        StreamError::MissingToolName
    );
}

#[test]
fn anthropic_an_event_that_fails_leaves_the_decoder() {
    let mut decoder = Decoder::new();
    feed(&mut decoder, &event("content_block_delta", r#"{"delta":{"text":"Hi"}}"#)).unwrap();
    assert_eq!(feed(&mut decoder, &event("ping", "?")), Err(StreamError::InvalidData));
    assert_eq!(decoder.message, "Hi");
    assert!(decoder.tool_uses.is_empty());
}

#[test]
fn anthropic_steps() {
    let mut message = "so far ".to_string();
    let step = stream_response_message(
        &event("content_block_delta", r#"{"delta":{"text":"more"}}"#),
        &mut message,
    );
    assert_eq!(step, Ok((None, Shown::Tokens("more".to_string()))));
    assert_eq!(message, "so far more");

    let response =
        Json::parse(r#"{"content_block":{"type":"tool_use","id":"t9","name":"bash"}}"#).unwrap();
    let started = parse_tool_use_content_block_start(&response).unwrap();
    assert_eq!(started, ToolUse::new("bash", "t9"));

    let mut partial = "{\"a\":".to_string();
    let mut last = ToolUse::new("bash", "t9");
    let step = stream_tool_use(
        &event("content_block_delta", r#"{"delta":{"partial_json":"1}"}}"#),
        &mut partial,
        &mut last,
    );
    assert_eq!(step, Ok(None));
    assert_eq!(partial, "{\"a\":1}");
    let step = stream_tool_use(&event("content_block_stop", "{}"), &mut partial, &mut last);
    assert_eq!(step, Ok(None));
    assert_eq!(last.input, Json::parse("{\"a\":1}").unwrap());
    let step = stream_tool_use(
        &event("content_block_start", r#"{"content_block":{"id":"t10","name":"bash"}}"#),
        &mut partial,
        &mut last,
    );
    assert_eq!(step, Ok(Some(ToolUse::new("bash", "t10"))));
    assert_eq!(partial, "");
}

#[test]
fn model_parameters_follow_the_choice_of_model() {
    let chosen = params();
    assert_eq!(chosen.provider, Provider::Anthropic);
    assert_eq!(chosen.model, "opus-3");
    let other = ModelParams::new(
        Model { anthropic: None, openai: "gpt-4o".to_string() },
        100,
        "0.5".to_string(),
    );
    assert_eq!(other.provider, Provider::OpenAI);
    assert_eq!(other.model, "gpt-4o");
    assert_eq!(other.max_tokens, 100);
    assert_eq!(other.temperature, "0.5");
}

#[test]
fn anthropic_events_are_taken_by_their_kind() {
    let json = |text: &str| Json::parse(text).unwrap();
    let mut message = "so far".to_string();
    let taken = on_text_event("content_block_delta", &json(r#"{"delta":{"text":"!"}}"#), &mut message);
    assert_eq!(taken, Ok((None, Shown::Tokens("!".to_string()))));
    assert_eq!(message, "so far!");
    assert_eq!(on_text_event("content_block_stop", &json("{}"), &mut message), Ok((None, Shown::Break)));
    assert_eq!(on_text_event("ping", &json("{}"), &mut message), Ok((None, Shown::Nothing)));
    assert_eq!(
        on_text_event("error", &json(r#"{"message":"no"}"#), &mut message),
        Err(StreamError::Upstream("no".to_string()))
    );
    let start = json(r#"{"content_block":{"type":"tool_use","id":"t","name":"bash"}}"#);
    assert_eq!(
        on_text_event("content_block_start", &start, &mut message),
        Ok((Some(ToolUse::new("bash", "t")), Shown::Nothing))
    );
    assert_eq!(
        on_text_event("content_block_delta", &start, &mut message),
        Err(StreamError::UnexpectedToolUse)
    );
    assert_eq!(message, "so far!");

    let mut partial = "{}".to_string();
    let mut last = ToolUse::new("bash", "t");
    let stop = on_tool_event("content_block_stop", &json("{}"), Some(json("[1]")), &mut partial, &mut last);
    assert_eq!(stop, Ok(None));
    assert_eq!(last.input, json("[1]"));
    assert_eq!(partial, "{}");
    let stop = on_tool_event("content_block_stop", &json("{}"), None, &mut partial, &mut last);
    assert_eq!(stop, Err(StreamError::InvalidToolInput));
    assert_eq!(last.input, json("[1]"));
    let other = on_tool_event("ping", &json("{}"), None, &mut partial, &mut last);
    assert_eq!(other, Ok(None));
    let next = on_tool_event("content_block_start", &start, None, &mut partial, &mut last);
    assert_eq!(next, Ok(Some(ToolUse::new("bash", "t"))));
    assert_eq!(partial, "");
}

#[test]
fn anthropic_request_needs_numbers_that_are_numbers() {
    let current = Exchange { prompt: "p".to_string(), response: vec![] };
    let odd = ModelParams::new(
        Model { anthropic: Some("opus-3".to_string()), openai: String::new() },
        10,
        "warm".to_string(),
    );
    assert_eq!(send_request(&[], &current, &odd, "", &[], "key"), None);
    assert!(build_request_body(&[], &current, &odd, "", &[]).is_some());
}

use bash_agent::agent::{feed, finish, send_request, stream_response, Action, RunExchangeTask};
use bash_agent::anthropic;
use bash_agent::client::{call_tool, triage, Failure, ToolRequest};
use bash_agent::common::{Exchange, Model, ModelParams, Provider, ToolUse};
use bash_agent::json::Json;
use bash_agent::openai;
use bash_agent::rpc::Code;
use bash_agent::stream::{Decoder, Shown, SseEvent};

fn tool_use(name: &str, id: &str, input: &str) -> ToolUse {
    ToolUse {
        name: name.to_string(),
        id: id.to_string(),
        input: Json::parse(input).unwrap(),
        output: None,
    }
}

fn params(provider: Provider) -> ModelParams {
    let model = match provider {
        Provider::Anthropic => Model { anthropic: Some("opus-3".to_string()), openai: String::new() },
        Provider::OpenAI => Model { anthropic: None, openai: "gpt-4o".to_string() },
    };
    ModelParams::new(model, 8192, "1.0".to_string())
}

#[test]
fn an_exchange_without_tool_uses_is_one_turn() {
    let mut task = RunExchangeTask::new("hello".to_string());
    assert_eq!(task.next(), Action::Request);
    assert_eq!(task.current(), &Exchange { prompt: "hello".to_string(), response: vec![] });
    task.responded("Hi.".to_string(), vec![]);
    assert_eq!(task.next(), Action::Finish);
    assert_eq!(
        task.collect(),
        Exchange { prompt: "hello".to_string(), response: vec![("Hi.".to_string(), vec![])] }
    );
}

#[test]
fn tool_uses_run_in_order_before_the_model_is_asked_again() {
    let mut task = RunExchangeTask::new("list".to_string());
    task.responded(
        "Looking.".to_string(),
        vec![tool_use("bash", "t1", r#"{"command":"ls"}"#), tool_use("bash", "t2", "{}")],
    );
    assert_eq!(task.next(), Action::CallTool(0));
    assert_eq!(task.tool_use(0).unwrap().id, "t1");
    assert_eq!(task.tool_use(2), None);
    assert!(task.current().response.is_empty());
    task.tool_finished(("a.txt".to_string(), false));
    assert_eq!(task.next(), Action::CallTool(1));
    assert_eq!(task.tool_use(0).unwrap().output, Some(("a.txt".to_string(), false)));
    task.tool_finished(("no command".to_string(), true));
    assert_eq!(task.next(), Action::Request);
    let turn = &task.current().response[0];
    assert_eq!(turn.0, "Looking.");
    assert_eq!(turn.1[0].output, Some(("a.txt".to_string(), false)));
    assert_eq!(turn.1[1].output, Some(("no command".to_string(), true)));
    task.responded("Two files.".to_string(), vec![]);
    assert_eq!(task.next(), Action::Finish);
    let exchange = task.collect();
    assert_eq!(exchange.response.len(), 2);
    assert!(exchange.response[1].1.is_empty());
    assert!(exchange.response.iter().all(|turn| turn.1.iter().all(|tool_use| tool_use.output.is_some())));
}

#[test]
fn events_out_of_turn_change_nothing() {
    let mut task = RunExchangeTask::new("p".to_string());
    task.tool_finished(("early".to_string(), false));
    assert_eq!(task.next(), Action::Request);
    task.responded("m".to_string(), vec![tool_use("bash", "t1", "{}")]);
    task.responded("again".to_string(), vec![]);
    assert_eq!(task.next(), Action::CallTool(0));
    assert_eq!(task.tool_use(0).unwrap().id, "t1");
}

#[test]
fn an_empty_last_word_is_left_out() {
    let mut task = RunExchangeTask::new("p".to_string());
    task.responded(String::new(), vec![]);
    assert_eq!(task.next(), Action::Finish);
    assert_eq!(task.collect(), Exchange { prompt: "p".to_string(), response: vec![] });
}

#[test]
fn an_exchange_that_was_cut_short_keeps_its_open_turn_when_collected() {
    let mut task = RunExchangeTask::new("p".to_string());
    task.responded("m".to_string(), vec![tool_use("bash", "t1", "{}"), tool_use("bash", "t2", "{}")]);
    task.tool_finished(("out".to_string(), false));
    let exchange = task.collect();
    assert_eq!(exchange.response.len(), 1);
    assert_eq!(exchange.response[0].1[0].output, Some(("out".to_string(), false)));
    assert_eq!(exchange.response[0].1[1].output, None);
    let results = anthropic::serialize_tool_results(&exchange.response[0].1);
    let second = results.get("content").unwrap().at(1).unwrap();
    assert_eq!(second.get("content").unwrap().as_str(), Some("Operation cancelled by user"));
    assert_eq!(second.get("is_error"), Some(&Json::Bool(true)));
}

#[test]
fn tool_use_error_propagation() {
    let mut task = RunExchangeTask::new("run it".to_string());
    task.responded(String::new(), vec![tool_use("bash", "t1", r#"{"command":"false"}"#)]);
    let Action::CallTool(index) = task.next() else { panic!("no tool call") };
    let due = task.tool_use(index).unwrap();
    assert_eq!(
        call_tool(&due.name, &due.input),
        Ok(ToolRequest::Bash { input: "false".to_string() })
    );
    let answer = Err(Failure::Status { code: Code::Unknown, message: "bad".to_string() });
    let output = triage(answer).unwrap();
    assert_eq!(output, ("bad".to_string(), true));
    task.tool_finished(output);
    assert_eq!(task.next(), Action::Request);
    let body = anthropic::build_request_body(
        &[],
        task.current(),
        &params(Provider::Anthropic),
        "",
        &[],
    )
    .unwrap();
    let messages = body.get("messages").unwrap();
    let result = messages.at(2).unwrap().get("content").unwrap().at(0).unwrap();
    assert_eq!(result.get("type").unwrap().as_str(), Some("tool_result"));
    assert_eq!(result.get("tool_use_id").unwrap().as_str(), Some("t1"));
    assert_eq!(result.get("content").unwrap().as_str(), Some("bad"));
    assert_eq!(result.get("is_error"), Some(&Json::Bool(true)));
    assert_eq!(messages.at(3), None);
}

#[test]
fn a_failure_of_the_server_ends_the_exchange() {
    let answer = Err(Failure::Status { code: Code::Internal, message: "pty".to_string() });
    assert_eq!(
        triage(answer),
        Err(Failure::Status { code: Code::Internal, message: "pty".to_string() })
    );
}

#[test]
fn every_tool_use_is_answered_in_order_in_both_wire_forms() {
    let uses: Vec<ToolUse> = (0..5)
        .map(|n| ToolUse {
            output: if n % 2 == 0 { Some((format!("out {}", n), n == 4)) } else { None },
            ..tool_use("bash", &format!("id-{}", n), "{}")
        })
        .collect();
    let exchange = Exchange {
        prompt: "p".to_string(),
        response: vec![("m".to_string(), uses), ("end".to_string(), vec![])],
    };
    let uses = &exchange.response[0].1;

    let body =
        anthropic::build_request_body(&[], &exchange, &params(Provider::Anthropic), "", &[]).unwrap();
    let messages = body.get("messages").unwrap();
    let turn = messages.at(1).unwrap();
    let results = messages.at(2).unwrap();
    assert_eq!(results.get("role").unwrap().as_str(), Some("user"));
    for (k, tool_use) in uses.iter().enumerate() {
        let block = turn.get("content").unwrap().at(1 + k).unwrap();
        assert_eq!(block.get("id").unwrap().as_str(), Some(tool_use.id.as_str()));
        let result = results.get("content").unwrap().at(k).unwrap();
        assert_eq!(result.get("type").unwrap().as_str(), Some("tool_result"));
        assert_eq!(result.get("tool_use_id").unwrap().as_str(), Some(tool_use.id.as_str()));
    }
    assert_eq!(results.get("content").unwrap().at(uses.len()), None);
    assert_eq!(messages.at(3).unwrap().get("role").unwrap().as_str(), Some("assistant"));

    let body = openai::build_request_body(&[], &exchange, &params(Provider::OpenAI), "", &[]).unwrap();
    let messages = body.get("messages").unwrap();
    let turn = messages.at(2).unwrap();
    for (k, tool_use) in uses.iter().enumerate() {
        let call = turn.get("tool_calls").unwrap().at(k).unwrap();
        assert_eq!(call.get("id").unwrap().as_str(), Some(tool_use.id.as_str()));
        let result = messages.at(3 + k).unwrap();
        assert_eq!(result.get("role").unwrap().as_str(), Some("tool"));
        assert_eq!(result.get("tool_call_id").unwrap().as_str(), Some(tool_use.id.as_str()));
    }
    assert_eq!(messages.at(3 + uses.len()).unwrap().get("role").unwrap().as_str(), Some("assistant"));
}

#[test]
fn requests_and_streams_go_by_the_provider() {
    let current = Exchange { prompt: "p".to_string(), response: vec![] };
    let made = send_request(&[], &current, &params(Provider::Anthropic), "s", &[], "k").unwrap();
    assert_eq!(
        Some(made),
        anthropic::send_request(&[], &current, &params(Provider::Anthropic), "s", &[], "k")
    );
    let made = send_request(&[], &current, &params(Provider::OpenAI), "s", &[], "k").unwrap();
    assert_eq!(
        Some(made),
        openai::send_request(&[], &current, &params(Provider::OpenAI), "s", &[], "k")
    );

    let delta = SseEvent {
        event: "content_block_delta".to_string(),
        data: r#"{"delta":{"text":"Hi"},"choices":[{"delta":{"content":"Ho"}}]}"#.to_string(),
    };
    let events = vec![delta.clone()];
    assert_eq!(stream_response(Provider::Anthropic, &events), Ok(("Hi".to_string(), vec![])));
    assert_eq!(stream_response(Provider::OpenAI, &events), Ok(("Ho".to_string(), vec![])));

    let mut decoder = Decoder::new();
    assert_eq!(feed(Provider::OpenAI, &mut decoder, &delta), Ok(Shown::Tokens("Ho".to_string())));
    assert_eq!(finish(Provider::OpenAI, decoder), Ok(("Ho".to_string(), vec![])));
    let mut decoder = Decoder::new();
    assert_eq!(feed(Provider::Anthropic, &mut decoder, &delta), Ok(Shown::Tokens("Hi".to_string())));
    assert_eq!(finish(Provider::Anthropic, decoder), Ok(("Hi".to_string(), vec![])));
}

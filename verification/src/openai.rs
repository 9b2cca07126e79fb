//! OpenAI's chat-completions wire form: the request body for a conversation,
//! and the decoder of the event stream that answers it.

use crate::common::{
    conversation_renders, exchanges_view, inputs_render, schemas_parse, tools_view, turn_view,
    turns_render, turns_view, uses_view, Exchange, ExchangeView, ModelParams,
    ModelParamsView, Tool, ToolUse, ToolUseView, ToolView, TurnView, CANCELLED,
};
use crate::json::{
    json_parsed, json_text, member, member_trees, read_view, renders, trees, Json, JsonValue,
};
use crate::stream::{
    events_view, found_view, fresh, header, joined, Decoder, DecoderView, HttpRequest,
    HttpRequestView, Shown, ShownView, SseEvent, SseEventView, StreamError, StreamErrorView,
    NO_MESSAGE,
};
use crate::text::{decimal, push_text, same_text, starts_with, text_of};
use vstd::prelude::*;

verus! {

/// The record that shows a tool use to the provider. Its arguments are the
/// input as JSON text.
pub open spec fn tool_call(tool_use: ToolUseView) -> JsonValue {
    JsonValue::Object(
        seq![
            ("type"@, JsonValue::Str("function"@)),
            ("id"@, JsonValue::Str(tool_use.id)),
            (
                "function"@,
                JsonValue::Object(
                    seq![
                        ("name"@, JsonValue::Str(tool_use.name)),
                        ("arguments"@, JsonValue::Str(json_text(tool_use.input))),
                    ],
                ),
            ),
        ],
    )
}

/// The tool calls of a turn, in their order.
pub open spec fn tool_calls(uses: Seq<ToolUseView>) -> Seq<JsonValue> {
    uses.map_values(|tool_use: ToolUseView| tool_call(tool_use))
}

/// The message that holds a turn of the model: its text and, where it has
/// any, its tool calls.
pub open spec fn assistant_message(message: Seq<char>, uses: Seq<ToolUseView>) -> JsonValue {
    if uses.len() > 0 {
        JsonValue::Object(
            seq![
                ("role"@, JsonValue::Str("assistant"@)),
                ("content"@, JsonValue::Str(message)),
                ("tool_calls"@, JsonValue::Array(tool_calls(uses))),
            ],
        )
    } else {
        JsonValue::Object(
            seq![("role"@, JsonValue::Str("assistant"@)), ("content"@, JsonValue::Str(message))],
        )
    }
}

/// The message that answers a tool use: its output, or, where it has none,
/// the notice that the user cancelled.
pub open spec fn tool_result_message(tool_use: ToolUseView) -> JsonValue {
    JsonValue::Object(
        seq![
            ("role"@, JsonValue::Str("tool"@)),
            ("tool_call_id"@, JsonValue::Str(tool_use.id)),
            (
                "content"@,
                JsonValue::Str(
                    match tool_use.output {
                        Some((text, _)) => text,
                        None => CANCELLED@,
                    },
                ),
            ),
        ],
    )
}

/// The messages that answer the tool uses of a turn, in their order.
pub open spec fn tool_result_messages(uses: Seq<ToolUseView>) -> Seq<JsonValue> {
    uses.map_values(|tool_use: ToolUseView| tool_result_message(tool_use))
}

/// The message that holds a prompt of the user.
pub open spec fn user_message(prompt: Seq<char>) -> JsonValue {
    JsonValue::Object(
        seq![("role"@, JsonValue::Str("user"@)), ("content"@, JsonValue::Str(prompt))],
    )
}

/// The message that holds the system prompt.
pub open spec fn system_message(system: Seq<char>) -> JsonValue {
    JsonValue::Object(
        seq![("role"@, JsonValue::Str("system"@)), ("content"@, JsonValue::Str(system))],
    )
}

/// The messages of one turn: none where both its text and its tool uses are
/// empty; else the turn, and behind it one result for each of its tool uses.
pub open spec fn turn_messages(turn: TurnView) -> Seq<JsonValue> {
    if turn.0.len() == 0 && turn.1.len() == 0 {
        Seq::empty()
    } else {
        seq![assistant_message(turn.0, turn.1)] + tool_result_messages(turn.1)
    }
}

/// The messages of a run of turns, in their order.
pub open spec fn turns_messages(turns: Seq<TurnView>) -> Seq<JsonValue>
    decreases turns.len(),
{
    if turns.len() == 0 {
        Seq::empty()
    } else {
        turns_messages(turns.drop_last()) + turn_messages(turns.last())
    }
}

/// The messages of one exchange: the prompt, then its turns.
pub open spec fn exchange_messages(exchange: ExchangeView) -> Seq<JsonValue> {
    seq![user_message(exchange.prompt)] + turns_messages(exchange.response)
}

/// The messages of a conversation: those of its exchanges, in their order.
pub open spec fn conversation_messages(exchanges: Seq<ExchangeView>) -> Seq<JsonValue>
    decreases exchanges.len(),
{
    if exchanges.len() == 0 {
        Seq::empty()
    } else {
        conversation_messages(exchanges.drop_last()) + exchange_messages(exchanges.last())
    }
}

/// The description of a tool, with `schema` as the tree of its input schema.
pub open spec fn tool_description(tool: ToolView, schema: JsonValue) -> JsonValue {
    JsonValue::Object(
        seq![
            ("type"@, JsonValue::Str("function"@)),
            (
                "function"@,
                JsonValue::Object(
                    seq![
                        ("name"@, JsonValue::Str(tool.name)),
                        ("description"@, JsonValue::Str(tool.description)),
                        ("parameters"@, schema),
                    ],
                ),
            ),
            ("strict"@, JsonValue::Bool(true)),
        ],
    )
}

/// The descriptions of `tools`, in their order.
pub open spec fn tool_descriptions(tools: Seq<ToolView>) -> Seq<JsonValue> {
    tools.map_values(
        |tool: ToolView| tool_description(tool, json_parsed(tool.input_schema).unwrap()),
    )
}

/// Whether `model` names a reasoning model: `o1`, or a name that begins with `o3`.
pub open spec fn is_reasoning_model(model: Seq<char>) -> bool {
    model == "o1"@ || "o3"@.is_prefix_of(model)
}

/// The members of the request body that every model gets.
pub open spec fn request_members(
    conversation: Seq<ExchangeView>,
    params: ModelParamsView,
    system: Seq<char>,
    tools: Seq<ToolView>,
) -> Seq<(Seq<char>, JsonValue)> {
    seq![
        ("model"@, JsonValue::Str(params.model)),
        ("max_completion_tokens"@, JsonValue::Number(decimal(params.max_tokens))),
        ("temperature"@, JsonValue::Number(params.temperature)),
        ("stream"@, JsonValue::Bool(true)),
        ("tools"@, JsonValue::Array(tool_descriptions(tools))),
        (
            "messages"@,
            JsonValue::Array(seq![system_message(system)] + conversation_messages(conversation)),
        ),
    ]
}

/// The body of the request that asks the model to go on with a conversation.
/// A reasoning model is asked for high effort.
pub open spec fn request_body(
    conversation: Seq<ExchangeView>,
    params: ModelParamsView,
    system: Seq<char>,
    tools: Seq<ToolView>,
) -> JsonValue {
    let members = request_members(conversation, params, system, tools);
    if is_reasoning_model(params.model) {
        JsonValue::Object(members.push(("reasoning_effort"@, JsonValue::Str("high"@))))
    } else {
        JsonValue::Object(members)
    }
}

/// The message that holds a turn of the model, or nothing where the input
/// of one of its tool uses cannot be written as JSON text.
pub fn serialize_assistant_response(message: &str, tool_uses: &[ToolUse]) -> (json: Option<Json>)
    ensures
        match json {
            Some(json) => inputs_render(uses_view(tool_uses@)) && json@ == assistant_message(
                message@,
                uses_view(tool_uses@),
            ),
            None => !inputs_render(uses_view(tool_uses@)),
        },
{
    let mut calls: Vec<Json> = Vec::new();
    let ghost uses = uses_view(tool_uses@);
    assert(trees(calls@) =~= tool_calls(uses.take(0)));
    let mut i: usize = 0;
    while i < tool_uses.len()
        invariant
            i <= tool_uses.len(),
            uses == uses_view(tool_uses@),
            forall|k: int| 0 <= k < i ==> renders((#[trigger] uses[k]).input),
            trees(calls@) == tool_calls(uses.take(i as int)),
        decreases tool_uses.len() - i,
    {
        let tool_use = &tool_uses[i];
        let arguments = match tool_use.input.render() {
            Some(arguments) => arguments,
            None => {
                assert(!renders(uses[i as int].input));
                return None;
            },
        };
        let function = vec![
            member("name", Json::string(tool_use.name.as_str())),
            member("arguments", Json::Str(arguments)),
        ];
        assert(member_trees(function@) =~= tool_call(uses[i as int])->Object_0[2].1->Object_0);
        let members = vec![
            member("type", Json::string("function")),
            member("id", Json::string(tool_use.id.as_str())),
            member("function", Json::object(function)),
        ];
        assert(member_trees(members@) =~= tool_call(uses[i as int])->Object_0);
        let call = Json::object(members);
        let ghost before = calls@;
        calls.push(call);
        proof {
            assert(trees(calls@) =~= trees(before).push(call@));
            assert(uses.take(i + 1) =~= uses.take(i as int).push(uses[i as int]));
            assert(trees(calls@) =~= tool_calls(uses.take(i + 1)));
        }
        i += 1;
    }
    proof {
        assert(uses.take(tool_uses.len() as int) == uses);
    }
    let mut members = vec![
        member("role", Json::string("assistant")),
        member("content", Json::string(message)),
    ];
    if calls.len() > 0 {
        members.push(member("tool_calls", Json::array(calls)));
    }
    assert(member_trees(members@) =~= assistant_message(message@, uses)->Object_0);
    Some(Json::object(members))
}

/// The message that answers one tool use.
pub fn serialize_tool_result(tool_use: &ToolUse) -> (json: Json)
    ensures
        json@ == tool_result_message(tool_use@),
{
    let content = match &tool_use.output {
        Some((text, _)) => Json::string(text.as_str()),
        None => Json::string(CANCELLED),
    };
    let members = vec![
        member("role", Json::string("tool")),
        member("tool_call_id", Json::string(tool_use.id.as_str())),
        member("content", content),
    ];
    assert(member_trees(members@) =~= tool_result_message(tool_use@)->Object_0);
    Json::object(members)
}

/// The description of `tool`, or nothing where its input schema is no JSON.
pub fn serialize_tool(tool: &Tool) -> (json: Option<Json>)
    ensures
        match json_parsed(tool@.input_schema) {
            Some(schema) => json is Some && json.unwrap()@ == tool_description(tool@, schema),
            None => json is None,
        },
{
    match Json::parse(tool.input_schema) {
        Some(schema) => {
            let function = vec![
                member("name", Json::string(tool.name)),
                member("description", Json::string(tool.description)),
                member("parameters", schema),
            ];
            assert(member_trees(function@) =~= tool_description(
                tool@,
                schema@,
            )->Object_0[1].1->Object_0);
            let members = vec![
                member("type", Json::string("function")),
                member("function", Json::object(function)),
                member("strict", Json::Bool(true)),
            ];
            assert(member_trees(members@) =~= tool_description(tool@, schema@)->Object_0);
            Some(Json::object(members))
        },
        None => None,
    }
}

/// Appends the messages of `exchange` to `messages`, and says whether it
/// could: whether the input of each of its tool uses can be written as JSON
/// text.
fn push_exchange(messages: &mut Vec<Json>, exchange: &Exchange) -> (done: bool)
    ensures
        done == turns_render(exchange@.response),
        done ==> trees(final(messages)@) == trees(old(messages)@) + exchange_messages(exchange@),
{
    let ghost start = trees(messages@);
    let ghost turns = turns_view(exchange.response@);
    let members = vec![
        member("role", Json::string("user")),
        member("content", Json::string(exchange.prompt.as_str())),
    ];
    assert(member_trees(members@) =~= user_message(exchange.prompt@)->Object_0);
    let prompt = Json::object(members);
    let ghost before = messages@;
    messages.push(prompt);
    assert(trees(messages@) =~= trees(before).push(prompt@));
    assert(trees(messages@) =~= start + seq![user_message(exchange.prompt@)] + turns_messages(
        turns.take(0),
    ));
    let mut i: usize = 0;
    while i < exchange.response.len()
        invariant
            i <= exchange.response.len(),
            turns == turns_view(exchange.response@),
            forall|k: int| 0 <= k < i ==> inputs_render((#[trigger] turns[k]).1),
            trees(messages@) == start + seq![user_message(exchange.prompt@)] + turns_messages(
                turns.take(i as int),
            ),
        decreases exchange.response.len() - i,
    {
        let turn = &exchange.response[i];
        let ghost shown = turns.take(i + 1);
        let ghost uses = uses_view(turn.1@);
        assert(shown.drop_last() == turns.take(i as int));
        assert(shown.last() == turn_view(*turn));
        assert(turns[i as int] == turn_view(*turn));
        let ghost head = trees(messages@);
        if !turn.0.as_str().is_empty() || turn.1.len() > 0 {
            let reply = match serialize_assistant_response(turn.0.as_str(), turn.1.as_slice()) {
                Some(reply) => reply,
                None => {
                    assert(!inputs_render(turns[i as int].1));
                    return false;
                },
            };
            let ghost before = messages@;
            messages.push(reply);
            assert(trees(messages@) =~= trees(before).push(reply@));
            assert(trees(messages@) =~= head + seq![assistant_message(turn.0@, uses)]
                + tool_result_messages(uses.take(0)));
            let mut k: usize = 0;
            while k < turn.1.len()
                invariant
                    k <= turn.1.len(),
                    uses == uses_view(turn.1@),
                    trees(messages@) == head + seq![assistant_message(turn.0@, uses)]
                        + tool_result_messages(uses.take(k as int)),
                decreases turn.1.len() - k,
            {
                let result = serialize_tool_result(&turn.1[k]);
                let ghost before = messages@;
                messages.push(result);
                assert(trees(messages@) =~= trees(before).push(result@));
                assert(uses.take(k + 1) =~= uses.take(k as int).push(uses[k as int]));
                assert(trees(messages@) =~= head + seq![assistant_message(turn.0@, uses)]
                    + tool_result_messages(uses.take(k + 1)));
                k += 1;
            }
            assert(uses.take(turn.1.len() as int) == uses);
        }
        assert(trees(messages@) =~= head + turn_messages(shown.last()));
        assert(trees(messages@) =~= start + seq![user_message(exchange.prompt@)] + turns_messages(
            shown,
        ));
        i += 1;
    }
    assert(turns.take(exchange.response.len() as int) == turns);
    assert(trees(messages@) =~= start + exchange_messages(exchange@));
    true
}

/// Whether a request body can be built: the input schema of every tool is
/// JSON, and the input of every tool use can be written as JSON text.
pub open spec fn buildable(conversation: Seq<ExchangeView>, tools: Seq<ToolView>) -> bool {
    schemas_parse(tools) && conversation_renders(conversation)
}

/// The body of the request that asks the model to go on with the
/// conversation `exchanges` and then `current`, or nothing where the input
/// schema of a tool is no JSON or the input of a tool use cannot be written
/// as JSON text.
pub fn build_request_body(
    exchanges: &[Exchange],
    current: &Exchange,
    params: &ModelParams,
    system: &str,
    tools: &[Tool],
) -> (body: Option<Json>)
    ensures
        match body {
            Some(body) => {
                &&& buildable(exchanges_view(exchanges@).push(current@), tools_view(tools@))
                &&& body@ == request_body(
                    exchanges_view(exchanges@).push(current@),
                    params@,
                    system@,
                    tools_view(tools@),
                )
            },
            None => !buildable(exchanges_view(exchanges@).push(current@), tools_view(tools@)),
        },
{
    let ghost offered = tools_view(tools@);
    let mut descriptions: Vec<Json> = Vec::new();
    assert(trees(descriptions@) =~= tool_descriptions(offered.take(0)));
    let mut t: usize = 0;
    while t < tools.len()
        invariant
            t <= tools.len(),
            offered == tools_view(tools@),
            schemas_parse(offered.take(t as int)),
            trees(descriptions@) == tool_descriptions(offered.take(t as int)),
        decreases tools.len() - t,
    {
        assert(offered[t as int] == tools@[t as int]@);
        match serialize_tool(&tools[t]) {
            Some(description) => {
                let ghost before = descriptions@;
                descriptions.push(description);
                assert(trees(descriptions@) =~= trees(before).push(description@));
                assert(offered.take(t + 1) =~= offered.take(t as int).push(offered[t as int]));
                assert(trees(descriptions@) =~= tool_descriptions(offered.take(t + 1)));
            },
            None => {
                assert(json_parsed(offered[t as int].input_schema) is None);
                return None;
            },
        }
        t += 1;
    }
    assert(offered.take(tools.len() as int) == offered);

    let ghost conversation = exchanges_view(exchanges@).push(current@);
    let members = vec![
        member("role", Json::string("system")),
        member("content", Json::string(system)),
    ];
    assert(member_trees(members@) =~= system_message(system@)->Object_0);
    let mut messages: Vec<Json> = vec![Json::object(members)];
    assert(trees(messages@) =~= seq![system_message(system@)] + conversation_messages(
        conversation.take(0),
    ));
    let mut i: usize = 0;
    while i < exchanges.len()
        invariant
            i <= exchanges.len(),
            conversation == exchanges_view(exchanges@).push(current@),
            forall|k: int| 0 <= k < i ==> turns_render((#[trigger] conversation[k]).response),
            trees(messages@) == seq![system_message(system@)] + conversation_messages(
                conversation.take(i as int),
            ),
        decreases exchanges.len() - i,
    {
        let ghost shown = conversation.take(i + 1);
        assert(shown.drop_last() == conversation.take(i as int));
        assert(shown.last() == exchanges@[i as int]@);
        assert(conversation[i as int] == exchanges@[i as int]@);
        if !push_exchange(&mut messages, &exchanges[i]) {
            assert(!turns_render(conversation[i as int].response));
            return None;
        }
        assert(trees(messages@) =~= seq![system_message(system@)] + conversation_messages(shown));
        i += 1;
    }
    assert(conversation.drop_last() == conversation.take(exchanges.len() as int));
    assert(conversation.last() == current@);
    if !push_exchange(&mut messages, current) {
        assert(!turns_render(conversation[exchanges.len() as int].response));
        return None;
    }
    assert(trees(messages@) =~= seq![system_message(system@)] + conversation_messages(
        conversation,
    ));
    assert(conversation_renders(conversation)) by {
        assert forall|k: int| 0 <= k < conversation.len() implies turns_render(
            (#[trigger] conversation[k]).response,
        ) by {
            if k == exchanges.len() {
                assert(conversation[k] == current@);
            }
        }
    }

    let mut members = vec![
        member("model", Json::string(params.model.as_str())),
        member("max_completion_tokens", Json::number(params.max_tokens)),
        member("temperature", Json::Number(params.temperature.clone())),
        member("stream", Json::Bool(true)),
        member("tools", Json::array(descriptions)),
        member("messages", Json::array(messages)),
    ];
    assert(member_trees(members@) =~= request_members(
        conversation,
        params@,
        system@,
        tools_view(tools@),
    ));
    if same_text(params.model.as_str(), "o1") || starts_with(params.model.as_str(), "o3") {
        let ghost before = members@;
        members.push(member("reasoning_effort", Json::string("high")));
        assert(member_trees(members@) =~= member_trees(before).push(
            ("reasoning_effort"@, JsonValue::Str("high"@)),
        ));
    }
    Some(Json::object(members))
}

/// The data of the event that ends a stream.
pub const DONE: &'static str = "[DONE]";

/// The message of an error that the provider sent.
pub open spec fn upstream_text(response: JsonValue) -> Seq<char> {
    match response.get("message"@) {
        Some(JsonValue::Str(text)) => text,
        _ => NO_MESSAGE@,
    }
}

/// What a chunk adds to the first choice.
pub open spec fn delta(response: JsonValue) -> Option<JsonValue> {
    match response.get("choices"@) {
        Some(choices) => match choices.at(0) {
            Some(choice) => choice.get("delta"@),
            None => None,
        },
        None => None,
    }
}

/// The first tool call of a chunk: a whole record or a fragment.
pub open spec fn first_tool_call(response: JsonValue) -> Option<JsonValue> {
    match delta(response) {
        Some(delta) => match delta.get("tool_calls"@) {
            Some(calls) => calls.at(0),
            None => None,
        },
        None => None,
    }
}

/// The tokens of text of a chunk.
pub open spec fn delta_content(response: JsonValue) -> Option<Seq<char>> {
    match delta(response) {
        Some(delta) => match delta.get("content"@) {
            Some(content) => content.as_str(),
            None => None,
        },
        None => None,
    }
}

/// The tool use that a tool call names, where it names its tool and its id.
pub open spec fn tool_call_start(call: JsonValue) -> Result<ToolUseView, StreamErrorView> {
    match call.str_at("function"@, "name"@) {
        None => Err(StreamErrorView::MissingToolName),
        Some(name) => match call.get("id"@) {
            Some(JsonValue::Str(id)) => Ok(
                ToolUseView { name, id, input: JsonValue::Null, output: None },
            ),
            _ => Err(StreamErrorView::MissingToolCallId),
        },
    }
}

/// What a chunk of the kind `kind` with the data `response` does while the
/// model's text is read: to the text so far, and the tool use, if it starts
/// one, and what it gives to be shown.
pub open spec fn text_chunk(kind: Seq<char>, response: JsonValue, message: Seq<char>) -> Result<
    (Seq<char>, Option<ToolUseView>, ShownView),
    StreamErrorView,
> {
    if kind == "error"@ {
        Err(StreamErrorView::Upstream(upstream_text(response)))
    } else {
        match first_tool_call(response) {
            Some(call) => match tool_call_start(call) {
                Ok(tool_use) => Ok((message, Some(tool_use), ShownView::Nothing)),
                Err(error) => Err(error),
            },
            None => match delta_content(response) {
                Some(tokens) => Ok((message + tokens, None, ShownView::Tokens(tokens))),
                None => Ok((message, None, ShownView::Break)),
            },
        }
    }
}

/// What an event does while the model's text is read: the end of the stream
/// does nothing; the data of any other event must be JSON, and is then taken
/// as a chunk.
pub open spec fn text_step(event: SseEventView, message: Seq<char>) -> Result<
    (Seq<char>, Option<ToolUseView>, ShownView),
    StreamErrorView,
> {
    if event.data == DONE@ {
        Ok((message, None, ShownView::Nothing))
    } else {
        match json_parsed(event.data) {
            None => Err(StreamErrorView::InvalidData),
            Some(response) => text_chunk(event.event, response, message),
        }
    }
}

/// What a chunk of the kind `kind` with the data `response` does while tool
/// calls are read: to the fragments so far, and the tool use, if it starts
/// another. A tool call that does not name both its tool and its id is a
/// fragment of the arguments.
pub open spec fn call_chunk(kind: Seq<char>, response: JsonValue, partial_json: Seq<char>) -> Result<
    (Seq<char>, Option<ToolUseView>),
    StreamErrorView,
> {
    if kind == "error"@ {
        Err(StreamErrorView::Upstream(upstream_text(response)))
    } else {
        match first_tool_call(response) {
            None => Ok((partial_json, None)),
            Some(call) => match tool_call_start(call) {
                Ok(tool_use) => Ok((partial_json, Some(tool_use))),
                Err(_) => match call.str_at("function"@, "arguments"@) {
                    Some(arguments) => Ok((partial_json + arguments, None)),
                    None => Err(StreamErrorView::MissingArguments),
                },
            },
        }
    }
}

/// What an event does while tool calls are read: the end of the stream does
/// nothing; the data of any other event must be JSON, and is then taken as
/// a chunk.
pub open spec fn call_step(event: SseEventView, partial_json: Seq<char>) -> Result<
    (Seq<char>, Option<ToolUseView>),
    StreamErrorView,
> {
    if event.data == DONE@ {
        Ok((partial_json, None))
    } else {
        match json_parsed(event.data) {
            None => Err(StreamErrorView::InvalidData),
            Some(response) => call_chunk(event.event, response, partial_json),
        }
    }
}

/// The tool uses with `input` as the input of the last: `input` is what its
/// fragments spell, where they are JSON.
pub open spec fn closed_with(tool_uses: Seq<ToolUseView>, input: Option<JsonValue>) -> Result<
    Seq<ToolUseView>,
    StreamErrorView,
> {
    match input {
        Some(input) => Ok(
            tool_uses.drop_last().push(ToolUseView { input, ..tool_uses.last() }),
        ),
        None => Err(StreamErrorView::InvalidToolInput),
    }
}

/// The tool uses with the input of the last read from `partial_json`.
pub open spec fn with_input(tool_uses: Seq<ToolUseView>, partial_json: Seq<char>) -> Result<
    Seq<ToolUseView>,
    StreamErrorView,
> {
    closed_with(tool_uses, json_parsed(partial_json))
}

/// What an event does to the tool uses and the fragments while tool calls
/// are read. A new tool call closes the one before: its input is read from
/// the fragments, which start anew.
pub open spec fn calls_step(
    event: SseEventView,
    partial_json: Seq<char>,
    tool_uses: Seq<ToolUseView>,
) -> Result<(Seq<char>, Seq<ToolUseView>), StreamErrorView> {
    match call_step(event, partial_json) {
        Err(error) => Err(error),
        Ok((fragments, None)) => Ok((fragments, tool_uses)),
        Ok((_, Some(tool_use))) => match with_input(tool_uses, partial_json) {
            Ok(closed) => Ok((Seq::empty(), closed.push(tool_use))),
            Err(error) => Err(error),
        },
    }
}

/// What one event does to a decoder, and what it gives to be shown. Until
/// the first tool call the model's text is read, from then on tool calls.
pub open spec fn feed_step(decoder: DecoderView, event: SseEventView) -> Result<
    (DecoderView, ShownView),
    StreamErrorView,
> {
    if decoder.tool_uses.len() == 0 {
        match text_step(event, decoder.message) {
            Err(error) => Err(error),
            Ok((message, found, shown)) => Ok(
                (
                    DecoderView {
                        message,
                        tool_uses: match found {
                            Some(tool_use) => decoder.tool_uses.push(tool_use),
                            None => decoder.tool_uses,
                        },
                        ..decoder
                    },
                    shown,
                ),
            ),
        }
    } else {
        match calls_step(event, decoder.partial_json, decoder.tool_uses) {
            Err(error) => Err(error),
            Ok((partial_json, tool_uses)) => Ok(
                (DecoderView { partial_json, tool_uses, ..decoder }, ShownView::Nothing),
            ),
        }
    }
}

/// The decoder after `events`, or the error of the first event that fails.
pub open spec fn feed_all(decoder: DecoderView, events: Seq<SseEventView>) -> Result<
    DecoderView,
    StreamErrorView,
>
    decreases events.len(),
{
    if events.len() == 0 {
        Ok(decoder)
    } else {
        match feed_step(decoder, events.first()) {
            Err(error) => Err(error),
            Ok((after, _)) => feed_all(after, events.drop_first()),
        }
    }
}

/// What a decoder holds at the end of its stream: the text of the model and
/// its tool uses, the last of them with its input read from the fragments.
pub open spec fn finished(decoder: DecoderView) -> Result<
    (Seq<char>, Seq<ToolUseView>),
    StreamErrorView,
> {
    if decoder.tool_uses.len() == 0 {
        Ok((decoder.message, decoder.tool_uses))
    } else {
        match with_input(decoder.tool_uses, decoder.partial_json) {
            Ok(tool_uses) => Ok((decoder.message, tool_uses)),
            Err(error) => Err(error),
        }
    }
}

/// What a whole stream decodes to: the text of the model and its tool uses.
pub open spec fn decoded(events: Seq<SseEventView>) -> Result<
    (Seq<char>, Seq<ToolUseView>),
    StreamErrorView,
> {
    match feed_all(fresh(), events) {
        Err(error) => Err(error),
        Ok(decoder) => finished(decoder),
    }
}

/// The message of an error that the provider sent.
fn upstream_error(response: &Json) -> (error: StreamError)
    ensures
        error@ == StreamErrorView::Upstream(upstream_text(response@)),
{
    match response.get("message") {
        Some(value) => match value.as_str() {
            Some(text) => StreamError::Upstream(text_of(text)),
            None => StreamError::Upstream(text_of(NO_MESSAGE)),
        },
        None => StreamError::Upstream(text_of(NO_MESSAGE)),
    }
}

/// What a chunk adds to the first choice.
fn chunk_delta(response: &Json) -> (found: Option<&Json>)
    ensures
        match found {
            Some(value) => delta(response@) == Some(value@),
            None => delta(response@) is None,
        },
{
    match response.get("choices") {
        Some(choices) => match choices.at(0) {
            Some(choice) => choice.get("delta"),
            None => None,
        },
        None => None,
    }
}

/// The first tool call of a chunk.
fn chunk_tool_call(response: &Json) -> (found: Option<&Json>)
    ensures
        match found {
            Some(value) => first_tool_call(response@) == Some(value@),
            None => first_tool_call(response@) is None,
        },
{
    match chunk_delta(response) {
        Some(delta) => match delta.get("tool_calls") {
            Some(calls) => calls.at(0),
            None => None,
        },
        None => None,
    }
}

/// The tokens of text of a chunk.
fn chunk_content(response: &Json) -> (found: Option<&str>)
    ensures
        match found {
            Some(text) => delta_content(response@) == Some(text@),
            None => delta_content(response@) is None,
        },
{
    match chunk_delta(response) {
        Some(delta) => match delta.get("content") {
            Some(content) => content.as_str(),
            None => None,
        },
        None => None,
    }
}

/// The tool use that a tool call names.
pub fn parse_tool_call(tool_call: &Json) -> (parsed: Result<ToolUse, StreamError>)
    ensures
        match tool_call_start(tool_call@) {
            Ok(tool_use) => parsed is Ok && parsed.unwrap()@ == tool_use,
            Err(error) => parsed is Err && parsed.unwrap_err()@ == error,
        },
{
    match tool_call.str_at("function", "name") {
        None => Err(StreamError::MissingToolName),
        Some(name) => {
            let id = match tool_call.get("id") {
                Some(value) => value.as_str(),
                None => None,
            };
            match id {
                Some(id) => Ok(ToolUse::new(name, id)),
                None => Err(StreamError::MissingToolCallId),
            }
        },
    }
}

/// Takes one chunk of the model's text, with its data as it was read:
/// appends its tokens to `message`, and hands back the tool use, if it starts
/// one, and what it gives to be shown.
pub fn on_text_chunk(kind: &str, response: &Json, message: &mut String) -> (result: Result<
    (Option<ToolUse>, Shown),
    StreamError,
>)
    ensures
        match text_chunk(kind@, response@, old(message)@) {
            Ok((after, found, shown)) => {
                &&& result is Ok
                &&& found_view(result.unwrap().0) == found
                &&& result.unwrap().1@ == shown
                &&& final(message)@ == after
            },
            Err(error) => {
                &&& result is Err
                &&& result.unwrap_err()@ == error
                &&& final(message)@ == old(message)@
            },
        },
{
    if same_text(kind, "error") {
        return Err(upstream_error(response));
    }
    match chunk_tool_call(response) {
        Some(call) => match parse_tool_call(call) {
            Ok(tool_use) => Ok((Some(tool_use), Shown::Nothing)),
            Err(error) => Err(error),
        },
        None => match chunk_content(response) {
            Some(tokens) => {
                push_text(message, tokens);
                Ok((None, Shown::Tokens(text_of(tokens))))
            },
            None => Ok((None, Shown::Break)),
        },
    }
}

/// Reads one event of the model's text: appends its tokens to `message`, and
/// hands back the tool use, if it starts one, and what it gives to be shown.
pub fn stream_response_message(event: &SseEvent, message: &mut String) -> (result: Result<
    (Option<ToolUse>, Shown),
    StreamError,
>)
    ensures
        match text_step(event@, old(message)@) {
            Ok((after, found, shown)) => {
                &&& result is Ok
                &&& found_view(result.unwrap().0) == found
                &&& result.unwrap().1@ == shown
                &&& final(message)@ == after
            },
            Err(error) => {
                &&& result is Err
                &&& result.unwrap_err()@ == error
                &&& final(message)@ == old(message)@
            },
        },
{
    if same_text(event.data.as_str(), DONE) {
        return Ok((None, Shown::Nothing));
    }
    match Json::parse(event.data.as_str()) {
        Some(response) => on_text_chunk(event.event.as_str(), &response, message),
        None => Err(StreamError::InvalidData),
    }
}

/// Takes one chunk of a tool call, with its data as it was read: gathers the
/// fragments of its arguments in `partial_json`, and hands back the tool
/// use, if the chunk starts another.
pub fn on_call_chunk(kind: &str, response: &Json, partial_json: &mut String) -> (result: Result<
    Option<ToolUse>,
    StreamError,
>)
    ensures
        match call_chunk(kind@, response@, old(partial_json)@) {
            Ok((fragments, found)) => {
                &&& result is Ok
                &&& found_view(result.unwrap()) == found
                &&& final(partial_json)@ == fragments
            },
            Err(error) => {
                &&& result is Err
                &&& result.unwrap_err()@ == error
                &&& final(partial_json)@ == old(partial_json)@
            },
        },
{
    if same_text(kind, "error") {
        return Err(upstream_error(response));
    }
    let call = match chunk_tool_call(response) {
        Some(call) => call,
        None => {
            return Ok(None);
        },
    };
    match parse_tool_call(call) {
        Ok(tool_use) => Ok(Some(tool_use)),
        Err(_) => match call.str_at("function", "arguments") {
            Some(arguments) => {
                push_text(partial_json, arguments);
                Ok(None)
            },
            None => Err(StreamError::MissingArguments),
        },
    }
}

/// Reads one event of a tool call: gathers the fragments of its arguments in
/// `partial_json`, and hands back the tool use, if the event starts another.
pub fn stream_tool_call(event: &SseEvent, partial_json: &mut String) -> (result: Result<
    Option<ToolUse>,
    StreamError,
>)
    ensures
        match call_step(event@, old(partial_json)@) {
            Ok((fragments, found)) => {
                &&& result is Ok
                &&& found_view(result.unwrap()) == found
                &&& final(partial_json)@ == fragments
            },
            Err(error) => {
                &&& result is Err
                &&& result.unwrap_err()@ == error
                &&& final(partial_json)@ == old(partial_json)@
            },
        },
{
    if same_text(event.data.as_str(), DONE) {
        return Ok(None);
    }
    match Json::parse(event.data.as_str()) {
        Some(response) => on_call_chunk(event.event.as_str(), &response, partial_json),
        None => Err(StreamError::InvalidData),
    }
}

/// Gives the last of `tool_uses` the input `input`: what its fragments
/// spell, where they are JSON. Without tool uses, or without an input,
/// nothing changes.
pub fn close_tool_call(tool_uses: &mut Vec<ToolUse>, input: Option<Json>) -> (result: Result<
    (),
    StreamError,
>)
    ensures
        old(tool_uses).len() > 0 ==> match closed_with(
            uses_view(old(tool_uses)@),
            read_view(input),
        ) {
            Ok(closed) => result is Ok && uses_view(final(tool_uses)@) == closed,
            Err(error) => {
                &&& result is Err
                &&& result.unwrap_err()@ == error
                &&& uses_view(final(tool_uses)@) == uses_view(old(tool_uses)@)
            },
        },
        old(tool_uses).len() == 0 ==> result is Err && result.unwrap_err()@
            == StreamErrorView::InvalidToolInput && uses_view(final(tool_uses)@) == uses_view(
            old(tool_uses)@,
        ),
{
    if tool_uses.len() == 0 {
        return Err(StreamError::InvalidToolInput);
    }
    match input {
        Some(input) => {
            let ghost before = tool_uses@;
            let mut last = tool_uses.pop().unwrap();
            last.input = input;
            tool_uses.push(last);
            assert(uses_view(tool_uses@) =~= uses_view(before).drop_last().push(last@));
            Ok(())
        },
        None => Err(StreamError::InvalidToolInput),
    }
}

/// Reads one event while tool calls are read: a fragment goes to
/// `partial_json`; a new tool call closes the last of `tool_uses` with the
/// input that the fragments spell, and joins them.
pub fn stream_tool_calls(
    event: &SseEvent,
    partial_json: &mut String,
    tool_uses: &mut Vec<ToolUse>,
) -> (result: Result<(), StreamError>)
    requires
        old(tool_uses).len() > 0,
    ensures
        match calls_step(event@, old(partial_json)@, uses_view(old(tool_uses)@)) {
            Ok((fragments, after)) => {
                &&& result is Ok
                &&& final(partial_json)@ == fragments
                &&& uses_view(final(tool_uses)@) == after
            },
            Err(error) => {
                &&& result is Err
                &&& result.unwrap_err()@ == error
                &&& final(partial_json)@ == old(partial_json)@
                &&& uses_view(final(tool_uses)@) == uses_view(old(tool_uses)@)
            },
        },
{
    match stream_tool_call(event, partial_json) {
        Err(error) => Err(error),
        Ok(None) => Ok(()),
        Ok(Some(tool_use)) => match close_tool_call(tool_uses, Json::parse(partial_json.as_str())) {
            Err(error) => Err(error),
            Ok(()) => {
                *partial_json = String::new();
                let ghost closed = tool_uses@;
                tool_uses.push(tool_use);
                assert(uses_view(tool_uses@) =~= uses_view(closed).push(tool_use@));
                Ok(())
            },
        },
    }
}

/// Reads one event into `decoder`, and hands back what it gives to be shown.
/// An event that fails leaves the decoder as it was.
pub fn feed(decoder: &mut Decoder, event: &SseEvent) -> (result: Result<Shown, StreamError>)
    ensures
        match feed_step(old(decoder)@, event@) {
            Ok((after, shown)) => {
                &&& result is Ok
                &&& result.unwrap()@ == shown
                &&& final(decoder)@ == after
            },
            Err(error) => {
                &&& result is Err
                &&& result.unwrap_err()@ == error
                &&& final(decoder)@ == old(decoder)@
            },
        },
{
    if decoder.tool_uses.len() == 0 {
        match stream_response_message(event, &mut decoder.message) {
            Ok((Some(tool_use), shown)) => {
                let ghost before = decoder.tool_uses@;
                decoder.tool_uses.push(tool_use);
                assert(uses_view(decoder.tool_uses@) =~= uses_view(before).push(tool_use@));
                Ok(shown)
            },
            Ok((None, shown)) => Ok(shown),
            Err(error) => Err(error),
        }
    } else {
        match stream_tool_calls(event, &mut decoder.partial_json, &mut decoder.tool_uses) {
            Ok(()) => Ok(Shown::Nothing),
            Err(error) => Err(error),
        }
    }
}

/// Ends the stream of `decoder`: the text of the model and its tool uses,
/// the last of them with the input that the fragments spell.
pub fn finish(decoder: Decoder) -> (result: Result<(String, Vec<ToolUse>), StreamError>)
    ensures
        match finished(decoder@) {
            Ok((message, tool_uses)) => {
                &&& result is Ok
                &&& result.unwrap().0@ == message
                &&& uses_view(result.unwrap().1@) == tool_uses
            },
            Err(error) => result is Err && result.unwrap_err()@ == error,
        },
{
    let mut decoder = decoder;
    if decoder.tool_uses.len() == 0 {
        return Ok((decoder.message, decoder.tool_uses));
    }
    match close_tool_call(&mut decoder.tool_uses, Json::parse(decoder.partial_json.as_str())) {
        Ok(()) => Ok((decoder.message, decoder.tool_uses)),
        Err(error) => Err(error),
    }
}

/// Decodes a whole stream: the text of the model and its tool uses, or the
/// error of the first event that fails.
pub fn stream_response(events: &[SseEvent]) -> (result: Result<
    (String, Vec<ToolUse>),
    StreamError,
>)
    ensures
        match decoded(events_view(events@)) {
            Ok((message, tool_uses)) => {
                &&& result is Ok
                &&& result.unwrap().0@ == message
                &&& uses_view(result.unwrap().1@) == tool_uses
            },
            Err(error) => result is Err && result.unwrap_err()@ == error,
        },
{
    let mut decoder = Decoder::new();
    let ghost all = events_view(events@);
    let mut i: usize = 0;
    assert(all.skip(0) == all);
    while i < events.len()
        invariant
            i <= events.len(),
            all == events_view(events@),
            feed_all(fresh(), all) == feed_all(decoder@, all.skip(i as int)),
        decreases events.len() - i,
    {
        let ghost rest = all.skip(i as int);
        assert(rest.first() == events@[i as int]@);
        assert(rest.drop_first() == all.skip(i + 1));
        match feed(&mut decoder, &events[i]) {
            Ok(_) => {},
            Err(error) => {
                return Err(error);
            },
        }
        i += 1;
    }
    finish(decoder)
}

/// The names of the members of a message and of a tool call differ from each other.
proof fn lemma_names_differ()
    ensures
        "role"@ != "content"@,
        "role"@ != "tool_calls"@,
        "role"@ != "tool_call_id"@,
        "content"@ != "tool_calls"@,
        "content"@ != "tool_call_id"@,
        "id"@ != "type"@,
        "id"@ != "function"@,
{
    reveal_strlit("role");
    reveal_strlit("content");
    reveal_strlit("tool_calls");
    reveal_strlit("tool_call_id");
    reveal_strlit("id");
    reveal_strlit("type");
    reveal_strlit("function");
    assert("role"@.len() == 4 && "content"@.len() == 7 && "tool_calls"@.len() == 10);
    assert("tool_call_id"@.len() == 12 && "id"@.len() == 2 && "type"@.len() == 4);
    assert("function"@.len() == 8);
}

/// Every turn that asks for tools is written as the turn, whose tool calls
/// stand under their ids, and behind it exactly one message for each tool
/// use, which answers it under the same id, in the same order.
pub proof fn lemma_results_pair_with_uses(turn: TurnView)
    requires
        turn.1.len() > 0,
    ensures
        turn_messages(turn).len() == 1 + turn.1.len(),
        turn_messages(turn)[0] == assistant_message(turn.0, turn.1),
        turn_messages(turn)[0].get("tool_calls"@) matches Some(JsonValue::Array(calls)) && {
            &&& calls.len() == turn.1.len()
            &&& forall|k: int|
                #![trigger turn.1[k]]
                0 <= k < turn.1.len() ==> calls[k].get("id"@) == Some(
                    JsonValue::Str(turn.1[k].id),
                )
        },
        forall|k: int|
            #![trigger turn.1[k]]
            0 <= k < turn.1.len() ==> {
                &&& turn_messages(turn)[1 + k].get("role"@) == Some(JsonValue::Str("tool"@))
                &&& turn_messages(turn)[1 + k].get("tool_call_id"@) == Some(
                    JsonValue::Str(turn.1[k].id),
                )
            },
{
    reveal_with_fuel(JsonValue::position, 4);
    lemma_names_differ();
    let uses = turn.1;
    let calls = tool_calls(uses);
    assert forall|k: int| #![trigger uses[k]] 0 <= k < uses.len() implies calls[k].get("id"@)
        == Some(JsonValue::Str(uses[k].id)) by {
        assert(calls[k] == tool_call(uses[k]));
    }
    assert forall|k: int| #![trigger uses[k]] 0 <= k < uses.len() implies {
        &&& turn_messages(turn)[1 + k].get("role"@) == Some(JsonValue::Str("tool"@))
        &&& turn_messages(turn)[1 + k].get("tool_call_id"@) == Some(JsonValue::Str(uses[k].id))
    } by {
        assert(turn_messages(turn)[1 + k] == tool_result_message(uses[k]));
    }
}

/// Whether `event` is a chunk that brings `fragment` of the arguments of a
/// tool call: its first tool call does not name both a tool and an id.
pub open spec fn brings_fragment(event: SseEventView, fragment: Seq<char>) -> bool {
    &&& event.data != DONE@
    &&& event.event != "error"@
    &&& json_parsed(event.data) matches Some(response)
    &&& first_tool_call(response) matches Some(call)
    &&& tool_call_start(call) is Err
    &&& call.str_at("function"@, "arguments"@) == Some(fragment)
}

/// The input of a tool use is what its fragments spell, however the text was
/// cut: where a decoder that reads tool calls gets chunks whose fragments,
/// behind those it holds, are the text of a JSON value, and then the stream
/// ends, its last tool use has that value as input, and neither the text of
/// the model nor the tool uses before it have changed.
pub proof fn lemma_fragments_give_input(
    decoder: DecoderView,
    events: Seq<SseEventView>,
    fragments: Seq<Seq<char>>,
    value: JsonValue,
)
    requires
        decoder.tool_uses.len() > 0,
        events.len() == fragments.len(),
        forall|i: int| 0 <= i < events.len() ==> brings_fragment(#[trigger] events[i], fragments[i]),
        json_parsed(decoder.partial_json + joined(fragments)) == Some(value),
    ensures
        feed_all(decoder, events) == Ok::<DecoderView, StreamErrorView>(
            DecoderView { partial_json: decoder.partial_json + joined(fragments), ..decoder },
        ),
        finished(feed_all(decoder, events)->Ok_0) == Ok::<
            (Seq<char>, Seq<ToolUseView>),
            StreamErrorView,
        >(
            (
                decoder.message,
                decoder.tool_uses.drop_last().push(
                    ToolUseView { input: value, ..decoder.tool_uses.last() },
                ),
            ),
        ),
    decreases events.len(),
{
    if events.len() == 0 {
        assert(decoder.partial_json + joined(fragments) =~= decoder.partial_json);
    } else {
        let event = events.first();
        assert(brings_fragment(event, fragments[0]));
        let after = feed_step(decoder, event)->Ok_0.0;
        assert(after.partial_json + joined(fragments.drop_first()) =~= decoder.partial_json
            + joined(fragments));
        assert forall|i: int| 0 <= i < events.drop_first().len() implies brings_fragment(
            #[trigger] events.drop_first()[i],
            fragments.drop_first()[i],
        ) by {
            assert(events.drop_first()[i] == events[i + 1]);
        }
        lemma_fragments_give_input(after, events.drop_first(), fragments.drop_first(), value);
    }
}

/// Where requests are posted.
pub const URL: &'static str = "https://api.openai.com/v1/chat/completions";

/// The request that asks the model to go on with a conversation: the body
/// as JSON text, posted with the key of the account.
pub open spec fn request(
    conversation: Seq<ExchangeView>,
    params: ModelParamsView,
    system: Seq<char>,
    tools: Seq<ToolView>,
    api_key: Seq<char>,
) -> HttpRequestView {
    HttpRequestView {
        url: URL@,
        headers: seq![
                ("content-type"@, "application/json"@),
                ("authorization"@, "Bearer "@ + api_key),
            ],
        body: json_text(request_body(conversation, params, system, tools)),
    }
}

/// Whether a request can be made: the input schema of every tool is JSON,
/// the input of every tool use can be written as JSON text, and so can the
/// body.
pub open spec fn sendable(
    conversation: Seq<ExchangeView>,
    params: ModelParamsView,
    system: Seq<char>,
    tools: Seq<ToolView>,
) -> bool {
    buildable(conversation, tools) && renders(
        request_body(conversation, params, system, tools),
    )
}

/// Makes the request that asks the model to go on with the conversation
/// `exchanges` and then `current`, or nothing where the input schema of a
/// tool is no JSON or something cannot be written as JSON text.
pub fn send_request(
    exchanges: &[Exchange],
    current: &Exchange,
    params: &ModelParams,
    system: &str,
    tools: &[Tool],
    api_key: &str,
) -> (made: Option<HttpRequest>)
    ensures
        match made {
            Some(made) => {
                &&& sendable(
                    exchanges_view(exchanges@).push(current@),
                    params@,
                    system@,
                    tools_view(tools@),
                )
                &&& made@ == request(
                    exchanges_view(exchanges@).push(current@),
                    params@,
                    system@,
                    tools_view(tools@),
                    api_key@,
                )
            },
            None => !sendable(
                exchanges_view(exchanges@).push(current@),
                params@,
                system@,
                tools_view(tools@),
            ),
        },
{
    match build_request_body(exchanges, current, params, system, tools) {
        None => None,
        Some(body) => {
            let text = match body.render() {
                Some(text) => text,
                None => {
                    return None;
                },
            };
            let mut bearer = text_of("Bearer ");
            push_text(&mut bearer, api_key);
            let headers = vec![
                header("content-type", "application/json"),
                header("authorization", bearer.as_str()),
            ];
            let made = HttpRequest { url: text_of(URL), headers, body: text };
            assert(made@.headers =~= request(
                exchanges_view(exchanges@).push(current@),
                params@,
                system@,
                tools_view(tools@),
                api_key@,
            ).headers);
            Some(made)
        },
    }
}

/// The messages of the first turns of a run stand first in its messages.
proof fn lemma_turns_start(turns: Seq<TurnView>, count: int)
    requires
        0 <= count <= turns.len(),
    ensures
        turns_messages(turns.take(count)).is_prefix_of(turns_messages(turns)),
    decreases turns.len(),
{
    if count == turns.len() {
        assert(turns.take(count) == turns);
    } else {
        assert(turns.drop_last().take(count) == turns.take(count));
        lemma_turns_start(turns.drop_last(), count);
    }
}

/// The messages of the first exchanges of a conversation stand first in its
/// messages.
proof fn lemma_conversation_starts(conversation: Seq<ExchangeView>, count: int)
    requires
        0 <= count <= conversation.len(),
    ensures
        conversation_messages(conversation.take(count)).is_prefix_of(
            conversation_messages(conversation),
        ),
    decreases conversation.len(),
{
    if count == conversation.len() {
        assert(conversation.take(count) == conversation);
    } else {
        assert(conversation.drop_last().take(count) == conversation.take(count));
        lemma_conversation_starts(conversation.drop_last(), count);
    }
}

/// Where the messages of a turn start in the messages of its conversation:
/// behind those of the exchanges before, the prompt, and the turns before.
pub open spec fn turn_start(conversation: Seq<ExchangeView>, exchange: int, turn: int) -> int {
    (conversation_messages(conversation.take(exchange)).len() + 1 + turns_messages(
        conversation[exchange].response.take(turn),
    ).len()) as int
}

/// The messages of every turn stand whole in the messages of its
/// conversation.
pub proof fn lemma_turn_stands_whole(conversation: Seq<ExchangeView>, exchange: int, turn: int)
    requires
        0 <= exchange < conversation.len(),
        0 <= turn < conversation[exchange].response.len(),
    ensures
        ({
            let all = conversation_messages(conversation);
            let start = turn_start(conversation, exchange, turn);
            let messages = turn_messages(conversation[exchange].response[turn]);
            &&& 0 <= start
            &&& start + messages.len() <= all.len()
            &&& all.subrange(start, start + messages.len()) == messages
        }),
{
    let all = conversation_messages(conversation);
    let turns = conversation[exchange].response;
    let before = conversation_messages(conversation.take(exchange));
    let through = conversation_messages(conversation.take(exchange + 1));
    let earlier = turns_messages(turns.take(turn));
    let messages = turn_messages(turns[turn]);
    assert(conversation.take(exchange + 1).drop_last() == conversation.take(exchange));
    assert(conversation.take(exchange + 1).last() == conversation[exchange]);
    assert(through == before + exchange_messages(conversation[exchange]));
    assert(turns.take(turn + 1).drop_last() == turns.take(turn));
    assert(turns.take(turn + 1).last() == turns[turn]);
    assert(turns_messages(turns.take(turn + 1)) == earlier + messages);
    lemma_turns_start(turns, turn + 1);
    lemma_conversation_starts(conversation, exchange + 1);
    let start = turn_start(conversation, exchange, turn);
    assert(all.subrange(start, start + messages.len()) =~= messages) by {
        assert forall|i: int| 0 <= i < messages.len() implies all[start + i] == messages[i] by {
            assert(turns_messages(turns)[earlier.len() + i] == turns_messages(
                turns.take(turn + 1),
            )[earlier.len() + i]);
            assert(through[before.len() + 1 + earlier.len() + i] == turns_messages(
                turns,
            )[earlier.len() + i]);
            assert(all[start + i] == through[start + i]);
        }
    }
}

/// Every turn that asks for tools stands in the messages of its
/// conversation as the turn and, right behind it, one message for each of
/// its tool uses, in their order.
pub proof fn lemma_results_follow_uses(conversation: Seq<ExchangeView>, exchange: int, turn: int)
    requires
        0 <= exchange < conversation.len(),
        0 <= turn < conversation[exchange].response.len(),
        conversation[exchange].response[turn].1.len() > 0,
    ensures
        ({
            let all = conversation_messages(conversation);
            let start = turn_start(conversation, exchange, turn);
            let asked = conversation[exchange].response[turn];
            &&& 0 <= start
            &&& start + 1 + asked.1.len() <= all.len()
            &&& all[start] == assistant_message(asked.0, asked.1)
            &&& forall|k: int|
                #![trigger asked.1[k]]
                0 <= k < asked.1.len() ==> all[start + 1 + k] == tool_result_message(asked.1[k])
        }),
{
    let all = conversation_messages(conversation);
    let start = turn_start(conversation, exchange, turn);
    let asked = conversation[exchange].response[turn];
    lemma_turn_stands_whole(conversation, exchange, turn);
    let count = 1 + asked.1.len();
    assert(all.subrange(start, start + count)[0] == all[start]);
    assert forall|k: int| #![trigger asked.1[k]] 0 <= k < asked.1.len() implies all[start + 1 + k]
        == tool_result_message(asked.1[k]) by {
        assert(all.subrange(start, start + count)[1 + k] == all[start + 1 + k]);
    }
}

/// Whether `event` is a chunk whose first tool call names the tool `name`
/// and the id `id`.
pub open spec fn starts_tool_call(event: SseEventView, name: Seq<char>, id: Seq<char>) -> bool {
    &&& event.data != DONE@
    &&& event.event != "error"@
    &&& json_parsed(event.data) matches Some(response)
    &&& first_tool_call(response) matches Some(call)
    &&& tool_call_start(call) == Ok::<ToolUseView, StreamErrorView>(
        ToolUseView { name, id, input: JsonValue::Null, output: None },
    )
}

/// A tool use comes out of its stream with the input that the model sent:
/// where a decoder that has read only text gets the chunk that names a tool
/// call, then chunks whose fragments are, one behind the other, the text of
/// a JSON value, and then the stream ends, the turn has that one tool use,
/// with that value as its input, however the text was cut into fragments.
/// The decoder holds no fragments while it reads the model's text, as every
/// decoder does that started fresh.
pub proof fn lemma_tool_input_round_trip(
    decoder: DecoderView,
    start: SseEventView,
    events: Seq<SseEventView>,
    fragments: Seq<Seq<char>>,
    name: Seq<char>,
    id: Seq<char>,
    value: JsonValue,
)
    requires
        decoder.tool_uses.len() == 0,
        decoder.partial_json.len() == 0,
        starts_tool_call(start, name, id),
        events.len() == fragments.len(),
        forall|i: int| 0 <= i < events.len() ==> brings_fragment(#[trigger] events[i], fragments[i]),
        json_parsed(joined(fragments)) == Some(value),
    ensures
        feed_all(decoder, seq![start] + events) is Ok,
        finished(feed_all(decoder, seq![start] + events)->Ok_0) == Ok::<
            (Seq<char>, Seq<ToolUseView>),
            StreamErrorView,
        >((decoder.message, seq![ToolUseView { name, id, input: value, output: None }])),
{
    let all = seq![start] + events;
    assert(all.first() == start);
    assert(all.drop_first() =~= events);
    let started = ToolUseView { name, id, input: JsonValue::Null, output: None };
    let after = feed_step(decoder, start)->Ok_0.0;
    assert(after.tool_uses =~= seq![started]);
    assert(after.partial_json + joined(fragments) =~= joined(fragments));
    lemma_fragments_give_input(after, events, fragments, value);
    assert(after.tool_uses.drop_last().push(ToolUseView { input: value, ..started }) =~= seq![
        ToolUseView { name, id, input: value, output: None },
    ]);
}

/// The tokens that a decoder gives to be shown while it reads `events`, one
/// behind the other.
pub open spec fn shown_tokens(decoder: DecoderView, events: Seq<SseEventView>) -> Seq<char>
    decreases events.len(),
{
    if events.len() == 0 {
        Seq::empty()
    } else {
        match feed_step(decoder, events.first()) {
            Err(_) => Seq::empty(),
            Ok((after, shown)) => {
                let tokens = match shown {
                    ShownView::Tokens(tokens) => tokens,
                    _ => Seq::empty(),
                };
                tokens + shown_tokens(after, events.drop_first())
            },
        }
    }
}

/// The text of the model is what was shown of it: where a stream is read to
/// its end, the text that the decoder holds is the text it held before and
/// then the tokens that it gave to be shown, in their order.
pub proof fn lemma_message_is_what_was_shown(decoder: DecoderView, events: Seq<SseEventView>)
    requires
        feed_all(decoder, events) is Ok,
    ensures
        feed_all(decoder, events)->Ok_0.message == decoder.message + shown_tokens(decoder, events),
    decreases events.len(),
{
    if events.len() == 0 {
        assert(decoder.message + shown_tokens(decoder, events) =~= decoder.message);
    } else {
        let after = feed_step(decoder, events.first())->Ok_0.0;
        lemma_message_is_what_was_shown(after, events.drop_first());
        assert(after.message + shown_tokens(after, events.drop_first()) =~= decoder.message
            + shown_tokens(decoder, events));
    }
}

} // verus!

//! Anthropic's wire form: the request body for a conversation, and the
//! decoder of the event stream that answers it.

use crate::common::{
    exchanges_view, schemas_parse, tools_view, turn_view, turns_view, uses_view, Exchange, ExchangeView, ModelParams,
    ModelParamsView, Tool, ToolUse, ToolUseView, ToolView, TurnView, CANCELLED,
};
use crate::json::{
    json_parsed, json_text, member, member_trees, read_view, renders, trees, Json, JsonValue,
};
use crate::stream::{
    events_view, found_view, fresh, header, joined, Decoder, DecoderView, HttpRequest,
    HttpRequestView, Shown, ShownView, SseEvent, SseEventView, StreamError, StreamErrorView,
    NO_MESSAGE,
};
use crate::text::{decimal, push_text, same_text, text_of};
use vstd::prelude::*;

verus! {

/// A block of text in the content of a message.
pub open spec fn text_block(text: Seq<char>) -> JsonValue {
    JsonValue::Object(
        seq![("type"@, JsonValue::Str("text"@)), ("text"@, JsonValue::Str(text))],
    )
}

/// The block that shows a tool use to the provider.
pub open spec fn tool_use_block(tool_use: ToolUseView) -> JsonValue {
    JsonValue::Object(
        seq![
            ("type"@, JsonValue::Str("tool_use"@)),
            ("id"@, JsonValue::Str(tool_use.id)),
            ("name"@, JsonValue::Str(tool_use.name)),
            ("input"@, tool_use.input),
        ],
    )
}

/// The blocks of a turn of the model: its text, unless that is empty, and
/// then its tool uses in their order.
pub open spec fn assistant_content(message: Seq<char>, uses: Seq<ToolUseView>) -> Seq<JsonValue> {
    let blocks = uses.map_values(|tool_use: ToolUseView| tool_use_block(tool_use));
    if message.len() > 0 {
        seq![text_block(message)] + blocks
    } else {
        blocks
    }
}

/// The message that holds a turn of the model.
pub open spec fn assistant_message(message: Seq<char>, uses: Seq<ToolUseView>) -> JsonValue {
    JsonValue::Object(
        seq![
            ("role"@, JsonValue::Str("assistant"@)),
            ("content"@, JsonValue::Array(assistant_content(message, uses))),
        ],
    )
}

/// The block that answers a tool use: its output, or, where it has none, the
/// notice that the user cancelled, as an error.
pub open spec fn tool_result_block(tool_use: ToolUseView) -> JsonValue {
    JsonValue::Object(
        seq![
            ("type"@, JsonValue::Str("tool_result"@)),
            ("tool_use_id"@, JsonValue::Str(tool_use.id)),
            (
                "content"@,
                JsonValue::Str(
                    match tool_use.output {
                        Some((text, _)) => text,
                        None => CANCELLED@,
                    },
                ),
            ),
            (
                "is_error"@,
                JsonValue::Bool(
                    match tool_use.output {
                        Some((_, is_error)) => is_error,
                        None => true,
                    },
                ),
            ),
        ],
    )
}

/// The message of the user that answers the tool uses of a turn, one result
/// for each, in their order.
pub open spec fn tool_results_message(uses: Seq<ToolUseView>) -> JsonValue {
    JsonValue::Object(
        seq![
            ("role"@, JsonValue::Str("user"@)),
            (
                "content"@,
                JsonValue::Array(
                    uses.map_values(|tool_use: ToolUseView| tool_result_block(tool_use)),
                ),
            ),
        ],
    )
}

/// The message that holds a prompt of the user.
pub open spec fn user_message(prompt: Seq<char>) -> JsonValue {
    JsonValue::Object(
        seq![("role"@, JsonValue::Str("user"@)), ("content"@, JsonValue::Str(prompt))],
    )
}

/// The messages of one turn: none where both its text and its tool uses are
/// empty; else the turn, and behind it the results where it has tool uses.
pub open spec fn turn_messages(turn: TurnView) -> Seq<JsonValue> {
    if turn.0.len() == 0 && turn.1.len() == 0 {
        Seq::empty()
    } else if turn.1.len() == 0 {
        seq![assistant_message(turn.0, turn.1)]
    } else {
        seq![assistant_message(turn.0, turn.1), tool_results_message(turn.1)]
    }
}

/// The messages of a run of turns, in their order.
pub open spec fn turns_messages(turns: Seq<TurnView>) -> Seq<JsonValue>
    decreases turns.len(),
{
    if turns.len() == 0 {
        Seq::empty()
    } else {
        turns_messages(turns.drop_last()) + turn_messages(turns.last())
    }
}

/// The messages of one exchange: the prompt, then its turns.
pub open spec fn exchange_messages(exchange: ExchangeView) -> Seq<JsonValue> {
    seq![user_message(exchange.prompt)] + turns_messages(exchange.response)
}

/// The messages of a conversation: those of its exchanges, in their order.
pub open spec fn conversation_messages(exchanges: Seq<ExchangeView>) -> Seq<JsonValue>
    decreases exchanges.len(),
{
    if exchanges.len() == 0 {
        Seq::empty()
    } else {
        conversation_messages(exchanges.drop_last()) + exchange_messages(exchanges.last())
    }
}

/// The description of a tool, with `schema` as the tree of its input schema.
pub open spec fn tool_description(tool: ToolView, schema: JsonValue) -> JsonValue {
    JsonValue::Object(
        seq![
            ("name"@, JsonValue::Str(tool.name)),
            ("description"@, JsonValue::Str(tool.description)),
            ("input_schema"@, schema),
        ],
    )
}

/// The descriptions of `tools`, in their order.
pub open spec fn tool_descriptions(tools: Seq<ToolView>) -> Seq<JsonValue> {
    tools.map_values(
        |tool: ToolView| tool_description(tool, json_parsed(tool.input_schema).unwrap()),
    )
}

/// The body of the request that asks the model to go on with a conversation.
pub open spec fn request_body(
    conversation: Seq<ExchangeView>,
    params: ModelParamsView,
    system: Seq<char>,
    tools: Seq<ToolView>,
) -> JsonValue {
    JsonValue::Object(
        seq![
            ("model"@, JsonValue::Str(params.model)),
            ("max_tokens"@, JsonValue::Number(decimal(params.max_tokens))),
            ("temperature"@, JsonValue::Number(params.temperature)),
            ("stream"@, JsonValue::Bool(true)),
            ("system"@, JsonValue::Str(system)),
            ("tools"@, JsonValue::Array(tool_descriptions(tools))),
            ("messages"@, JsonValue::Array(conversation_messages(conversation))),
        ],
    )
}

/// The message that holds a turn of the model.
pub fn serialize_assistant_response(message: &str, tool_uses: &[ToolUse]) -> (json: Json)
    ensures
        json@ == assistant_message(message@, uses_view(tool_uses@)),
{
    let mut content: Vec<Json> = Vec::new();
    if !message.is_empty() {
        let members = vec![
            member("type", Json::string("text")),
            member("text", Json::string(message)),
        ];
        assert(member_trees(members@) =~= text_block(message@)->Object_0);
        content.push(Json::object(members));
    }
    let ghost uses = uses_view(tool_uses@);
    let ghost head = trees(content@);
    assert(head =~= if message@.len() > 0 {
        seq![text_block(message@)]
    } else {
        Seq::empty()
    });
    assert(uses.take(0).map_values(|tool_use: ToolUseView| tool_use_block(tool_use)) =~= Seq::empty());
    let mut i: usize = 0;
    while i < tool_uses.len()
        invariant
            i <= tool_uses.len(),
            uses == uses_view(tool_uses@),
            trees(content@) == head + uses.take(i as int).map_values(
                |tool_use: ToolUseView| tool_use_block(tool_use),
            ),
        decreases tool_uses.len() - i,
    {
        let tool_use = &tool_uses[i];
        let members = vec![
            member("type", Json::string("tool_use")),
            member("id", Json::string(tool_use.id.as_str())),
            member("name", Json::string(tool_use.name.as_str())),
            member("input", tool_use.input.copy()),
        ];
        assert(member_trees(members@) =~= tool_use_block(uses[i as int])->Object_0);
        let block = Json::object(members);
        let ghost before = content@;
        content.push(block);
        proof {
            assert(trees(content@) == trees(before).push(block@));
            assert(uses.take(i + 1) == uses.take(i as int).push(uses[i as int]));
        }
        i += 1;
    }
    proof {
        assert(uses.take(tool_uses.len() as int) == uses);
    }
    let members = vec![
        member("role", Json::string("assistant")),
        member("content", Json::array(content)),
    ];
    assert(member_trees(members@) =~= assistant_message(message@, uses)->Object_0);
    Json::object(members)
}

/// The message of the user that answers the tool uses of a turn.
pub fn serialize_tool_results(tool_uses: &[ToolUse]) -> (json: Json)
    ensures
        json@ == tool_results_message(uses_view(tool_uses@)),
{
    let mut results: Vec<Json> = Vec::new();
    let ghost uses = uses_view(tool_uses@);
    assert(trees(results@) =~= uses.take(0).map_values(
        |tool_use: ToolUseView| tool_result_block(tool_use),
    ));
    let mut i: usize = 0;
    while i < tool_uses.len()
        invariant
            i <= tool_uses.len(),
            uses == uses_view(tool_uses@),
            trees(results@) == uses.take(i as int).map_values(
                |tool_use: ToolUseView| tool_result_block(tool_use),
            ),
        decreases tool_uses.len() - i,
    {
        let tool_use = &tool_uses[i];
        let (content, is_error) = match &tool_use.output {
            Some((text, is_error)) => (Json::string(text.as_str()), *is_error),
            None => (Json::string(CANCELLED), true),
        };
        let members = vec![
            member("type", Json::string("tool_result")),
            member("tool_use_id", Json::string(tool_use.id.as_str())),
            member("content", content),
            member("is_error", Json::Bool(is_error)),
        ];
        assert(member_trees(members@) =~= tool_result_block(uses[i as int])->Object_0);
        let block = Json::object(members);
        let ghost before = results@;
        results.push(block);
        proof {
            assert(trees(results@) == trees(before).push(block@));
            assert(uses.take(i + 1) == uses.take(i as int).push(uses[i as int]));
        }
        i += 1;
    }
    proof {
        assert(uses.take(tool_uses.len() as int) == uses);
    }
    let members = vec![member("role", Json::string("user")), member("content", Json::array(results))];
    assert(member_trees(members@) =~= tool_results_message(uses)->Object_0);
    Json::object(members)
}

/// The description of `tool`, or nothing where its input schema is no JSON.
pub fn serialize_tool(tool: &Tool) -> (json: Option<Json>)
    ensures
        match json_parsed(tool@.input_schema) {
            Some(schema) => json is Some && json.unwrap()@ == tool_description(tool@, schema),
            None => json is None,
        },
{
    match Json::parse(tool.input_schema) {
        Some(schema) => {
            let members = vec![
                member("name", Json::string(tool.name)),
                member("description", Json::string(tool.description)),
                member("input_schema", schema),
            ];
            assert(member_trees(members@) =~= tool_description(tool@, schema@)->Object_0);
            Some(Json::object(members))
        },
        None => None,
    }
}

/// Appends the messages of `exchange` to `messages`.
fn push_exchange(messages: &mut Vec<Json>, exchange: &Exchange)
    ensures
        trees(final(messages)@) == trees(old(messages)@) + exchange_messages(exchange@),
{
    let ghost start = trees(messages@);
    let ghost turns = turns_view(exchange.response@);
    let members = vec![
        member("role", Json::string("user")),
        member("content", Json::string(exchange.prompt.as_str())),
    ];
    assert(member_trees(members@) =~= user_message(exchange.prompt@)->Object_0);
    let prompt = Json::object(members);
    let ghost before = messages@;
    messages.push(prompt);
    assert(trees(messages@) =~= trees(before).push(prompt@));
    assert(trees(messages@) =~= start + seq![user_message(exchange.prompt@)] + turns_messages(
        turns.take(0),
    ));
    let mut i: usize = 0;
    while i < exchange.response.len()
        invariant
            i <= exchange.response.len(),
            turns == turns_view(exchange.response@),
            trees(messages@) == start + seq![user_message(exchange.prompt@)] + turns_messages(
                turns.take(i as int),
            ),
        decreases exchange.response.len() - i,
    {
        let turn = &exchange.response[i];
        let ghost shown = turns.take(i + 1);
        assert(shown.drop_last() == turns.take(i as int));
        assert(shown.last() == turn_view(*turn));
        if !turn.0.as_str().is_empty() || turn.1.len() > 0 {
            let reply = serialize_assistant_response(turn.0.as_str(), turn.1.as_slice());
            let ghost before = messages@;
            messages.push(reply);
            assert(trees(messages@) =~= trees(before).push(reply@));
            if turn.1.len() > 0 {
                let results = serialize_tool_results(turn.1.as_slice());
                let ghost before = messages@;
                messages.push(results);
                assert(trees(messages@) =~= trees(before).push(results@));
            }
        }
        assert(trees(messages@) =~= start + seq![user_message(exchange.prompt@)] + turns_messages(
            shown,
        ));
        i += 1;
    }
    assert(turns.take(exchange.response.len() as int) == turns);
    assert(trees(messages@) =~= start + exchange_messages(exchange@));
}

/// The body of the request that asks the model to go on with the
/// conversation `exchanges` and then `current`, or nothing where the input
/// schema of a tool is no JSON.
pub fn build_request_body(
    exchanges: &[Exchange],
    current: &Exchange,
    params: &ModelParams,
    system: &str,
    tools: &[Tool],
) -> (body: Option<Json>)
    ensures
        schemas_parse(tools_view(tools@)) ==> body is Some && body.unwrap()@ == request_body(
            exchanges_view(exchanges@).push(current@),
            params@,
            system@,
            tools_view(tools@),
        ),
        !schemas_parse(tools_view(tools@)) ==> body is None,
{
    let ghost offered = tools_view(tools@);
    let mut descriptions: Vec<Json> = Vec::new();
    assert(trees(descriptions@) =~= tool_descriptions(offered.take(0)));
    let mut t: usize = 0;
    while t < tools.len()
        invariant
            t <= tools.len(),
            offered == tools_view(tools@),
            schemas_parse(offered.take(t as int)),
            trees(descriptions@) == tool_descriptions(offered.take(t as int)),
        decreases tools.len() - t,
    {
        assert(offered[t as int] == tools@[t as int]@);
        match serialize_tool(&tools[t]) {
            Some(description) => {
                let ghost before = descriptions@;
                descriptions.push(description);
                assert(trees(descriptions@) =~= trees(before).push(description@));
                assert(offered.take(t + 1) =~= offered.take(t as int).push(offered[t as int]));
                assert(trees(descriptions@) =~= tool_descriptions(offered.take(t + 1)));
            },
            None => {
                assert(json_parsed(offered[t as int].input_schema) is None);
                return None;
            },
        }
        t += 1;
    }
    assert(offered.take(tools.len() as int) == offered);

    let ghost conversation = exchanges_view(exchanges@).push(current@);
    let mut messages: Vec<Json> = Vec::new();
    assert(trees(messages@) =~= conversation_messages(conversation.take(0)));
    let mut i: usize = 0;
    while i < exchanges.len()
        invariant
            i <= exchanges.len(),
            conversation == exchanges_view(exchanges@).push(current@),
            trees(messages@) == conversation_messages(conversation.take(i as int)),
        decreases exchanges.len() - i,
    {
        let ghost shown = conversation.take(i + 1);
        assert(shown.drop_last() == conversation.take(i as int));
        assert(shown.last() == exchanges@[i as int]@);
        push_exchange(&mut messages, &exchanges[i]);
        i += 1;
    }
    assert(conversation.drop_last() == conversation.take(exchanges.len() as int));
    assert(conversation.last() == current@);
    push_exchange(&mut messages, current);

    let members = vec![
        member("model", Json::string(params.model.as_str())),
        member("max_tokens", Json::number(params.max_tokens)),
        member("temperature", Json::Number(params.temperature.clone())),
        member("stream", Json::Bool(true)),
        member("system", Json::string(system)),
        member("tools", Json::array(descriptions)),
        member("messages", Json::array(messages)),
    ];
    assert(member_trees(members@) =~= request_body(
        conversation,
        params@,
        system@,
        tools_view(tools@),
    )->Object_0);
    Some(Json::object(members))
}

/// The message of an error that the provider sent.
pub open spec fn upstream_text(response: JsonValue) -> Seq<char> {
    match response.get("message"@) {
        Some(JsonValue::Str(text)) => text,
        _ => NO_MESSAGE@,
    }
}

/// The tool use that the start of a block names.
pub open spec fn tool_use_start(response: JsonValue) -> Result<ToolUseView, StreamErrorView> {
    match response.str_at("content_block"@, "name"@) {
        None => Err(StreamErrorView::MissingToolName),
        Some(name) => match response.str_at("content_block"@, "id"@) {
            None => Err(StreamErrorView::MissingToolId),
            Some(id) => Ok(ToolUseView { name, id, input: JsonValue::Null, output: None }),
        },
    }
}

/// What an event of the kind `kind` with the data `response` does while the
/// model's text is read: to the text so far, and the tool use, if it starts
/// one, and what it gives to be shown.
pub open spec fn text_event(kind: Seq<char>, response: JsonValue, message: Seq<char>) -> Result<
    (Seq<char>, Option<ToolUseView>, ShownView),
    StreamErrorView,
> {
    if kind == "error"@ {
        Err(StreamErrorView::Upstream(upstream_text(response)))
    } else if response.str_at("content_block"@, "type"@) == Some("tool_use"@) {
        if kind != "content_block_start"@ {
            Err(StreamErrorView::UnexpectedToolUse)
        } else {
            match tool_use_start(response) {
                Ok(tool_use) => Ok((message, Some(tool_use), ShownView::Nothing)),
                Err(error) => Err(error),
            }
        }
    } else if kind == "content_block_delta"@ {
        match response.str_at("delta"@, "text"@) {
            Some(tokens) => Ok((message + tokens, None, ShownView::Tokens(tokens))),
            None => Err(StreamErrorView::MissingTokens),
        }
    } else if kind == "content_block_stop"@ {
        Ok((message, None, ShownView::Break))
    } else {
        Ok((message, None, ShownView::Nothing))
    }
}

/// What an event does while the model's text is read: its data must be
/// JSON, and is then taken by the kind of the event.
pub open spec fn text_step(event: SseEventView, message: Seq<char>) -> Result<
    (Seq<char>, Option<ToolUseView>, ShownView),
    StreamErrorView,
> {
    match json_parsed(event.data) {
        None => Err(StreamErrorView::InvalidData),
        Some(response) => text_event(event.event, response, message),
    }
}

/// What an event of the kind `kind` with the data `response` does while
/// tool uses are read: to the fragments so far and to the last tool use, and
/// the tool use, if it starts another. `input` is what the fragments so far
/// spell, where they are JSON: the stop of a block gives it to the last tool
/// use.
pub open spec fn tool_event(
    kind: Seq<char>,
    response: JsonValue,
    input: Option<JsonValue>,
    partial_json: Seq<char>,
    last: ToolUseView,
) -> Result<(Seq<char>, ToolUseView, Option<ToolUseView>), StreamErrorView> {
    if kind == "error"@ {
        Err(StreamErrorView::Upstream(upstream_text(response)))
    } else if kind == "content_block_start"@ {
        match tool_use_start(response) {
            Ok(tool_use) => Ok((Seq::empty(), last, Some(tool_use))),
            Err(error) => Err(error),
        }
    } else if kind == "content_block_delta"@ {
        match response.str_at("delta"@, "partial_json"@) {
            Some(fragment) => Ok((partial_json + fragment, last, None)),
            None => Err(StreamErrorView::MissingToolInput),
        }
    } else if kind == "content_block_stop"@ {
        match input {
            Some(input) => Ok((partial_json, ToolUseView { input, ..last }, None)),
            None => Err(StreamErrorView::InvalidToolInput),
        }
    } else {
        Ok((partial_json, last, None))
    }
}

/// What an event does while tool uses are read: its data must be JSON, and
/// is then taken by the kind of the event, with what the fragments spell.
pub open spec fn tool_step(event: SseEventView, partial_json: Seq<char>, last: ToolUseView) -> Result<
    (Seq<char>, ToolUseView, Option<ToolUseView>),
    StreamErrorView,
> {
    match json_parsed(event.data) {
        None => Err(StreamErrorView::InvalidData),
        Some(response) => tool_event(
            event.event,
            response,
            json_parsed(partial_json),
            partial_json,
            last,
        ),
    }
}

/// What one event does to a decoder, and what it gives to be shown. Until
/// the first tool use the model's text is read, from then on tool uses.
pub open spec fn feed_step(decoder: DecoderView, event: SseEventView) -> Result<
    (DecoderView, ShownView),
    StreamErrorView,
> {
    if decoder.tool_uses.len() == 0 {
        match text_step(event, decoder.message) {
            Err(error) => Err(error),
            Ok((message, found, shown)) => Ok(
                (
                    DecoderView {
                        message,
                        tool_uses: match found {
                            Some(tool_use) => decoder.tool_uses.push(tool_use),
                            None => decoder.tool_uses,
                        },
                        ..decoder
                    },
                    shown,
                ),
            ),
        }
    } else {
        match tool_step(event, decoder.partial_json, decoder.tool_uses.last()) {
            Err(error) => Err(error),
            Ok((partial_json, last, found)) => {
                let kept = decoder.tool_uses.drop_last().push(last);
                Ok(
                    (
                        DecoderView {
                            partial_json,
                            tool_uses: match found {
                                Some(tool_use) => kept.push(tool_use),
                                None => kept,
                            },
                            ..decoder
                        },
                        ShownView::Nothing,
                    ),
                )
            },
        }
    }
}

/// The decoder after `events`, or the error of the first event that fails.
pub open spec fn feed_all(decoder: DecoderView, events: Seq<SseEventView>) -> Result<
    DecoderView,
    StreamErrorView,
>
    decreases events.len(),
{
    if events.len() == 0 {
        Ok(decoder)
    } else {
        match feed_step(decoder, events.first()) {
            Err(error) => Err(error),
            Ok((after, _)) => feed_all(after, events.drop_first()),
        }
    }
}

/// What a whole stream decodes to: the text of the model and its tool uses.
pub open spec fn decoded(events: Seq<SseEventView>) -> Result<
    (Seq<char>, Seq<ToolUseView>),
    StreamErrorView,
> {
    match feed_all(fresh(), events) {
        Err(error) => Err(error),
        Ok(decoder) => Ok((decoder.message, decoder.tool_uses)),
    }
}

/// The message of an error that the provider sent.
fn upstream_error(response: &Json) -> (error: StreamError)
    ensures
        error@ == StreamErrorView::Upstream(upstream_text(response@)),
{
    match response.get("message") {
        Some(value) => match value.as_str() {
            Some(text) => StreamError::Upstream(text_of(text)),
            None => StreamError::Upstream(text_of(NO_MESSAGE)),
        },
        None => StreamError::Upstream(text_of(NO_MESSAGE)),
    }
}

/// The tool use that the start of a block names.
pub fn parse_tool_use_content_block_start(response: &Json) -> (parsed: Result<
    ToolUse,
    StreamError,
>)
    ensures
        match tool_use_start(response@) {
            Ok(tool_use) => parsed is Ok && parsed.unwrap()@ == tool_use,
            Err(error) => parsed is Err && parsed.unwrap_err()@ == error,
        },
{
    match response.str_at("content_block", "name") {
        None => Err(StreamError::MissingToolName),
        Some(name) => match response.str_at("content_block", "id") {
            None => Err(StreamError::MissingToolId),
            Some(id) => Ok(ToolUse::new(name, id)),
        },
    }
}

/// Takes one event of the model's text by its kind, with its data as it was
/// read: appends its tokens to `message`, and hands back the tool use, if it
/// starts one, and what it gives to be shown.
pub fn on_text_event(kind: &str, response: &Json, message: &mut String) -> (result: Result<
    (Option<ToolUse>, Shown),
    StreamError,
>)
    ensures
        match text_event(kind@, response@, old(message)@) {
            Ok((after, found, shown)) => {
                &&& result is Ok
                &&& found_view(result.unwrap().0) == found
                &&& result.unwrap().1@ == shown
                &&& final(message)@ == after
            },
            Err(error) => {
                &&& result is Err
                &&& result.unwrap_err()@ == error
                &&& final(message)@ == old(message)@
            },
        },
{
    if same_text(kind, "error") {
        return Err(upstream_error(response));
    }
    let starts_tool_use = match response.str_at("content_block", "type") {
        Some(block) => same_text(block, "tool_use"),
        None => false,
    };
    if starts_tool_use {
        if !same_text(kind, "content_block_start") {
            return Err(StreamError::UnexpectedToolUse);
        }
        match parse_tool_use_content_block_start(response) {
            Ok(tool_use) => Ok((Some(tool_use), Shown::Nothing)),
            Err(error) => Err(error),
        }
    } else if same_text(kind, "content_block_delta") {
        match response.str_at("delta", "text") {
            Some(tokens) => {
                push_text(message, tokens);
                Ok((None, Shown::Tokens(text_of(tokens))))
            },
            None => Err(StreamError::MissingTokens),
        }
    } else if same_text(kind, "content_block_stop") {
        Ok((None, Shown::Break))
    } else {
        Ok((None, Shown::Nothing))
    }
}

/// Reads one event of the model's text: appends its tokens to `message`, and
/// hands back the tool use, if it starts one, and what it gives to be shown.
pub fn stream_response_message(event: &SseEvent, message: &mut String) -> (result: Result<
    (Option<ToolUse>, Shown),
    StreamError,
>)
    ensures
        match text_step(event@, old(message)@) {
            Ok((after, found, shown)) => {
                &&& result is Ok
                &&& found_view(result.unwrap().0) == found
                &&& result.unwrap().1@ == shown
                &&& final(message)@ == after
            },
            Err(error) => {
                &&& result is Err
                &&& result.unwrap_err()@ == error
                &&& final(message)@ == old(message)@
            },
        },
{
    match Json::parse(event.data.as_str()) {
        Some(response) => on_text_event(event.event.as_str(), &response, message),
        None => Err(StreamError::InvalidData),
    }
}

/// Takes one event of a tool use by its kind, with its data as it was read:
/// gathers the fragments of the input in `partial_json`, gives
/// `prev_tool_use` the input `input` when its block stops, and hands back
/// the tool use, if the event starts another. `input` is what the fragments
/// spell, where they are JSON.
pub fn on_tool_event(
    kind: &str,
    response: &Json,
    input: Option<Json>,
    partial_json: &mut String,
    prev_tool_use: &mut ToolUse,
) -> (result: Result<Option<ToolUse>, StreamError>)
    ensures
        match tool_event(
            kind@,
            response@,
            read_view(input),
            old(partial_json)@,
            old(prev_tool_use)@,
        ) {
            Ok((fragments, last, found)) => {
                &&& result is Ok
                &&& found_view(result.unwrap()) == found
                &&& final(partial_json)@ == fragments
                &&& final(prev_tool_use)@ == last
            },
            Err(error) => {
                &&& result is Err
                &&& result.unwrap_err()@ == error
                &&& final(partial_json)@ == old(partial_json)@
                &&& final(prev_tool_use)@ == old(prev_tool_use)@
            },
        },
{
    if same_text(kind, "error") {
        return Err(upstream_error(response));
    }
    if same_text(kind, "content_block_start") {
        match parse_tool_use_content_block_start(response) {
            Ok(tool_use) => {
                *partial_json = String::new();
                Ok(Some(tool_use))
            },
            Err(error) => Err(error),
        }
    } else if same_text(kind, "content_block_delta") {
        match response.str_at("delta", "partial_json") {
            Some(fragment) => {
                push_text(partial_json, fragment);
                Ok(None)
            },
            None => Err(StreamError::MissingToolInput),
        }
    } else if same_text(kind, "content_block_stop") {
        match input {
            Some(input) => {
                prev_tool_use.input = input;
                Ok(None)
            },
            None => Err(StreamError::InvalidToolInput),
        }
    } else {
        Ok(None)
    }
}

/// Reads one event of a tool use: gathers the fragments of its input in
/// `partial_json`, gives `prev_tool_use` its input when its block stops, and
/// hands back the tool use, if the event starts another.
pub fn stream_tool_use(
    event: &SseEvent,
    partial_json: &mut String,
    prev_tool_use: &mut ToolUse,
) -> (result: Result<Option<ToolUse>, StreamError>)
    ensures
        match tool_step(event@, old(partial_json)@, old(prev_tool_use)@) {
            Ok((fragments, last, found)) => {
                &&& result is Ok
                &&& found_view(result.unwrap()) == found
                &&& final(partial_json)@ == fragments
                &&& final(prev_tool_use)@ == last
            },
            Err(error) => {
                &&& result is Err
                &&& result.unwrap_err()@ == error
                &&& final(partial_json)@ == old(partial_json)@
                &&& final(prev_tool_use)@ == old(prev_tool_use)@
            },
        },
{
    let response = match Json::parse(event.data.as_str()) {
        Some(response) => response,
        None => {
            return Err(StreamError::InvalidData);
        },
    };
    let kind = event.event.as_str();
    let input = if same_text(kind, "content_block_stop") {
        Json::parse(partial_json.as_str())
    } else {
        None
    };
    on_tool_event(kind, &response, input, partial_json, prev_tool_use)
}

/// Reads one event into `decoder`, and hands back what it gives to be shown.
/// An event that fails leaves the decoder as it was.
pub fn feed(decoder: &mut Decoder, event: &SseEvent) -> (result: Result<Shown, StreamError>)
    ensures
        match feed_step(old(decoder)@, event@) {
            Ok((after, shown)) => {
                &&& result is Ok
                &&& result.unwrap()@ == shown
                &&& final(decoder)@ == after
            },
            Err(error) => {
                &&& result is Err
                &&& result.unwrap_err()@ == error
                &&& final(decoder)@ == old(decoder)@
            },
        },
{
    if decoder.tool_uses.len() == 0 {
        match stream_response_message(event, &mut decoder.message) {
            Ok((Some(tool_use), shown)) => {
                let ghost before = decoder.tool_uses@;
                decoder.tool_uses.push(tool_use);
                assert(uses_view(decoder.tool_uses@) =~= uses_view(before).push(tool_use@));
                Ok(shown)
            },
            Ok((None, shown)) => Ok(shown),
            Err(error) => Err(error),
        }
    } else {
        let ghost before = decoder.tool_uses@;
        let mut last = decoder.tool_uses.pop().unwrap();
        assert(uses_view(decoder.tool_uses@) =~= uses_view(before).drop_last());
        let result = stream_tool_use(event, &mut decoder.partial_json, &mut last);
        let ghost kept = decoder.tool_uses@;
        decoder.tool_uses.push(last);
        assert(uses_view(decoder.tool_uses@) =~= uses_view(kept).push(last@));
        match result {
            Ok(Some(tool_use)) => {
                let ghost kept = decoder.tool_uses@;
                decoder.tool_uses.push(tool_use);
                assert(uses_view(decoder.tool_uses@) =~= uses_view(kept).push(tool_use@));
                Ok(Shown::Nothing)
            },
            Ok(None) => Ok(Shown::Nothing),
            Err(error) => {
                assert(uses_view(decoder.tool_uses@) =~= uses_view(before));
                Err(error)
            },
        }
    }
}

/// Decodes a whole stream: the text of the model and its tool uses, or the
/// error of the first event that fails.
pub fn stream_response(events: &[SseEvent]) -> (result: Result<
    (String, Vec<ToolUse>),
    StreamError,
>)
    ensures
        match decoded(events_view(events@)) {
            Ok((message, tool_uses)) => {
                &&& result is Ok
                &&& result.unwrap().0@ == message
                &&& uses_view(result.unwrap().1@) == tool_uses
            },
            Err(error) => result is Err && result.unwrap_err()@ == error,
        },
{
    let mut decoder = Decoder::new();
    let ghost all = events_view(events@);
    let mut i: usize = 0;
    assert(all.skip(0) == all);
    while i < events.len()
        invariant
            i <= events.len(),
            all == events_view(events@),
            feed_all(fresh(), all) == feed_all(decoder@, all.skip(i as int)),
        decreases events.len() - i,
    {
        let ghost rest = all.skip(i as int);
        assert(rest.first() == events@[i as int]@);
        assert(rest.drop_first() == all.skip(i + 1));
        match feed(&mut decoder, &events[i]) {
            Ok(_) => {},
            Err(error) => {
                return Err(error);
            },
        }
        i += 1;
    }
    Ok((decoder.message, decoder.tool_uses))
}

/// The names of the members of a block and of a message differ from each other.
proof fn lemma_names_differ()
    ensures
        "type"@ != "id"@,
        "type"@ != "name"@,
        "type"@ != "input"@,
        "type"@ != "tool_use_id"@,
        "type"@ != "content"@,
        "type"@ != "is_error"@,
        "id"@ != "name"@,
        "id"@ != "input"@,
        "tool_use_id"@ != "content"@,
        "tool_use_id"@ != "is_error"@,
        "role"@ != "content"@,
{
    reveal_strlit("type");
    reveal_strlit("id");
    reveal_strlit("name");
    reveal_strlit("input");
    reveal_strlit("role");
    reveal_strlit("content");
    reveal_strlit("tool_use_id");
    reveal_strlit("is_error");
    assert("type"@.len() == 4 && "id"@.len() == 2 && "name"@.len() == 4);
    assert("input"@.len() == 5 && "role"@.len() == 4 && "content"@.len() == 7);
    assert("tool_use_id"@.len() == 11 && "is_error"@.len() == 8);
    assert("type"@[0] != "name"@[0]);
}

/// Every turn that asks for tools is written as two messages: the turn,
/// whose last blocks are its tool uses under their ids, and a message of the
/// user that holds exactly one result for each tool use, under the same id,
/// in the same order.
pub proof fn lemma_results_pair_with_uses(turn: TurnView)
    requires
        turn.1.len() > 0,
    ensures
        turn_messages(turn).len() == 2,
        turn_messages(turn)[0] == assistant_message(turn.0, turn.1),
        turn_messages(turn)[0].get("content"@) matches Some(JsonValue::Array(blocks)) && {
            let text: int = if turn.0.len() > 0 {
                1
            } else {
                0
            };
            &&& blocks.len() == text + turn.1.len()
            &&& forall|k: int|
                #![trigger turn.1[k]]
                0 <= k < turn.1.len() ==> {
                    &&& blocks[text + k].get("type"@) == Some(JsonValue::Str("tool_use"@))
                    &&& blocks[text + k].get("id"@) == Some(JsonValue::Str(turn.1[k].id))
                }
        },
        turn_messages(turn)[1].get("role"@) == Some(JsonValue::Str("user"@)),
        turn_messages(turn)[1].get("content"@) matches Some(JsonValue::Array(results)) && {
            &&& results.len() == turn.1.len()
            &&& forall|k: int|
                #![trigger turn.1[k]]
                0 <= k < turn.1.len() ==> {
                    &&& results[k].get("type"@) == Some(JsonValue::Str("tool_result"@))
                    &&& results[k].get("tool_use_id"@) == Some(JsonValue::Str(turn.1[k].id))
                }
        },
{
    reveal_with_fuel(JsonValue::position, 5);
    lemma_names_differ();
    let uses = turn.1;
    let blocks = assistant_content(turn.0, uses);
    let text: int = if turn.0.len() > 0 {
        1
    } else {
        0
    };
    assert forall|k: int| #![trigger uses[k]] 0 <= k < uses.len() implies {
        &&& blocks[text + k].get("type"@) == Some(JsonValue::Str("tool_use"@))
        &&& blocks[text + k].get("id"@) == Some(JsonValue::Str(uses[k].id))
    } by {
        assert(blocks[text + k] == tool_use_block(uses[k]));
    }
    let results = uses.map_values(|tool_use: ToolUseView| tool_result_block(tool_use));
    assert forall|k: int| #![trigger uses[k]] 0 <= k < uses.len() implies {
        &&& results[k].get("type"@) == Some(JsonValue::Str("tool_result"@))
        &&& results[k].get("tool_use_id"@) == Some(JsonValue::Str(uses[k].id))
    } by {
        assert(results[k] == tool_result_block(uses[k]));
    }
}

/// The kinds of events differ from each other.
proof fn lemma_kinds_differ()
    ensures
        "error"@ != "content_block_start"@,
        "error"@ != "content_block_delta"@,
        "error"@ != "content_block_stop"@,
        "content_block_start"@ != "content_block_delta"@,
        "content_block_start"@ != "content_block_stop"@,
        "content_block_delta"@ != "content_block_stop"@,
{
    reveal_strlit("error");
    reveal_strlit("content_block_start");
    reveal_strlit("content_block_delta");
    reveal_strlit("content_block_stop");
    assert("error"@.len() == 5 && "content_block_stop"@.len() == 18);
    assert("content_block_start"@.len() == 19 && "content_block_delta"@.len() == 19);
    assert("content_block_start"@[14] != "content_block_delta"@[14]);
}

/// Whether `event` is a delta that brings `fragment` of the input of a tool use.
pub open spec fn brings_fragment(event: SseEventView, fragment: Seq<char>) -> bool {
    &&& event.event == "content_block_delta"@
    &&& json_parsed(event.data) matches Some(response)
    &&& response.str_at("delta"@, "partial_json"@) == Some(fragment)
}

/// Whether `event` stops a block.
pub open spec fn stops_block(event: SseEventView) -> bool {
    event.event == "content_block_stop"@ && json_parsed(event.data) is Some
}

/// The input of a tool use is what its fragments spell, however the text was
/// cut: where a decoder that reads tool uses gets deltas whose fragments,
/// behind those it holds, are the text of a JSON value, and then the stop of
/// the block, its last tool use has that value as input, and nothing else
/// has changed but the fragments held.
pub proof fn lemma_fragments_give_input(
    decoder: DecoderView,
    events: Seq<SseEventView>,
    fragments: Seq<Seq<char>>,
    stop: SseEventView,
    value: JsonValue,
)
    requires
        decoder.tool_uses.len() > 0,
        events.len() == fragments.len(),
        forall|i: int| 0 <= i < events.len() ==> brings_fragment(#[trigger] events[i], fragments[i]),
        stops_block(stop),
        json_parsed(decoder.partial_json + joined(fragments)) == Some(value),
    ensures
        feed_all(decoder, events.push(stop)) == Ok::<DecoderView, StreamErrorView>(
            DecoderView {
                message: decoder.message,
                tool_uses: decoder.tool_uses.drop_last().push(
                    ToolUseView { input: value, ..decoder.tool_uses.last() },
                ),
                partial_json: decoder.partial_json + joined(fragments),
            },
        ),
    decreases events.len(),
{
    lemma_kinds_differ();
    let all = events.push(stop);
    if events.len() == 0 {
        assert(all.first() == stop);
        assert(all.drop_first() =~= Seq::<SseEventView>::empty());
        assert(decoder.partial_json + joined(fragments) =~= decoder.partial_json);
        let after = feed_step(decoder, stop)->Ok_0.0;
        assert(feed_all(after, all.drop_first()) == Ok::<DecoderView, StreamErrorView>(after));
    } else {
        let event = events.first();
        assert(all.first() == event);
        assert(brings_fragment(event, fragments[0]));
        let after = feed_step(decoder, event)->Ok_0.0;
        assert(after.tool_uses =~= decoder.tool_uses);
        assert(after.partial_json + joined(fragments.drop_first()) =~= decoder.partial_json
            + joined(fragments));
        assert(all.drop_first() =~= events.drop_first().push(stop));
        assert forall|i: int| 0 <= i < events.drop_first().len() implies brings_fragment(
            #[trigger] events.drop_first()[i],
            fragments.drop_first()[i],
        ) by {
            assert(events.drop_first()[i] == events[i + 1]);
        }
        lemma_fragments_give_input(
            after,
            events.drop_first(),
            fragments.drop_first(),
            stop,
            value,
        );
    }
}

/// Where requests are posted.
pub const URL: &'static str = "https://api.anthropic.com/v1/messages";

/// The version of the interface that requests ask for.
pub const VERSION: &'static str = "2023-06-01";

/// The request that asks the model to go on with a conversation: the body
/// as JSON text, posted with the key of the account.
pub open spec fn request(
    conversation: Seq<ExchangeView>,
    params: ModelParamsView,
    system: Seq<char>,
    tools: Seq<ToolView>,
    api_key: Seq<char>,
) -> HttpRequestView {
    HttpRequestView {
        url: URL@,
        headers: seq![
                ("content-type"@, "application/json"@),
                ("x-api-key"@, api_key),
                ("anthropic-version"@, VERSION@),
            ],
        body: json_text(request_body(conversation, params, system, tools)),
    }
}

/// Whether a request can be made: the input schema of every tool is JSON,
/// and the body can be written as JSON text.
pub open spec fn sendable(
    conversation: Seq<ExchangeView>,
    params: ModelParamsView,
    system: Seq<char>,
    tools: Seq<ToolView>,
) -> bool {
    schemas_parse(tools) && renders(request_body(conversation, params, system, tools))
}

/// Makes the request that asks the model to go on with the conversation
/// `exchanges` and then `current`, or nothing where the input schema of a
/// tool is no JSON or the body cannot be written as JSON text.
pub fn send_request(
    exchanges: &[Exchange],
    current: &Exchange,
    params: &ModelParams,
    system: &str,
    tools: &[Tool],
    api_key: &str,
) -> (made: Option<HttpRequest>)
    ensures
        match made {
            Some(made) => {
                &&& sendable(
                    exchanges_view(exchanges@).push(current@),
                    params@,
                    system@,
                    tools_view(tools@),
                )
                &&& made@ == request(
                    exchanges_view(exchanges@).push(current@),
                    params@,
                    system@,
                    tools_view(tools@),
                    api_key@,
                )
            },
            None => !sendable(
                exchanges_view(exchanges@).push(current@),
                params@,
                system@,
                tools_view(tools@),
            ),
        },
{
    match build_request_body(exchanges, current, params, system, tools) {
        None => None,
        Some(body) => {
            let text = match body.render() {
                Some(text) => text,
                None => {
                    return None;
                },
            };
            let headers = vec![
                header("content-type", "application/json"),
                header("x-api-key", api_key),
                header("anthropic-version", VERSION),
            ];
            let made = HttpRequest { url: text_of(URL), headers, body: text };
            assert(made@.headers =~= request(
                exchanges_view(exchanges@).push(current@),
                params@,
                system@,
                tools_view(tools@),
                api_key@,
            ).headers);
            Some(made)
        },
    }
}

/// The messages of the first turns of a run stand first in its messages.
proof fn lemma_turns_start(turns: Seq<TurnView>, count: int)
    requires
        0 <= count <= turns.len(),
    ensures
        turns_messages(turns.take(count)).is_prefix_of(turns_messages(turns)),
    decreases turns.len(),
{
    if count == turns.len() {
        assert(turns.take(count) == turns);
    } else {
        assert(turns.drop_last().take(count) == turns.take(count));
        lemma_turns_start(turns.drop_last(), count);
    }
}

/// The messages of the first exchanges of a conversation stand first in its
/// messages.
proof fn lemma_conversation_starts(conversation: Seq<ExchangeView>, count: int)
    requires
        0 <= count <= conversation.len(),
    ensures
        conversation_messages(conversation.take(count)).is_prefix_of(
            conversation_messages(conversation),
        ),
    decreases conversation.len(),
{
    if count == conversation.len() {
        assert(conversation.take(count) == conversation);
    } else {
        assert(conversation.drop_last().take(count) == conversation.take(count));
        lemma_conversation_starts(conversation.drop_last(), count);
    }
}

/// Where the messages of a turn start in the messages of its conversation:
/// behind those of the exchanges before, the prompt, and the turns before.
pub open spec fn turn_start(conversation: Seq<ExchangeView>, exchange: int, turn: int) -> int {
    (conversation_messages(conversation.take(exchange)).len() + 1 + turns_messages(
        conversation[exchange].response.take(turn),
    ).len()) as int
}

/// The messages of every turn stand whole in the messages of its
/// conversation.
pub proof fn lemma_turn_stands_whole(conversation: Seq<ExchangeView>, exchange: int, turn: int)
    requires
        0 <= exchange < conversation.len(),
        0 <= turn < conversation[exchange].response.len(),
    ensures
        ({
            let all = conversation_messages(conversation);
            let start = turn_start(conversation, exchange, turn);
            let messages = turn_messages(conversation[exchange].response[turn]);
            &&& 0 <= start
            &&& start + messages.len() <= all.len()
            &&& all.subrange(start, start + messages.len()) == messages
        }),
{
    let all = conversation_messages(conversation);
    let turns = conversation[exchange].response;
    let before = conversation_messages(conversation.take(exchange));
    let through = conversation_messages(conversation.take(exchange + 1));
    let earlier = turns_messages(turns.take(turn));
    let messages = turn_messages(turns[turn]);
    assert(conversation.take(exchange + 1).drop_last() == conversation.take(exchange));
    assert(conversation.take(exchange + 1).last() == conversation[exchange]);
    assert(through == before + exchange_messages(conversation[exchange]));
    assert(turns.take(turn + 1).drop_last() == turns.take(turn));
    assert(turns.take(turn + 1).last() == turns[turn]);
    assert(turns_messages(turns.take(turn + 1)) == earlier + messages);
    lemma_turns_start(turns, turn + 1);
    lemma_conversation_starts(conversation, exchange + 1);
    let start = turn_start(conversation, exchange, turn);
    assert(all.subrange(start, start + messages.len()) =~= messages) by {
        assert forall|i: int| 0 <= i < messages.len() implies all[start + i] == messages[i] by {
            assert(turns_messages(turns)[earlier.len() + i] == turns_messages(
                turns.take(turn + 1),
            )[earlier.len() + i]);
            assert(through[before.len() + 1 + earlier.len() + i] == turns_messages(
                turns,
            )[earlier.len() + i]);
            assert(all[start + i] == through[start + i]);
        }
    }
}

/// Every turn that asks for tools stands in the messages of its
/// conversation as the turn and, right behind it, the message of the user
/// with the results of its tool uses.
pub proof fn lemma_results_follow_uses(conversation: Seq<ExchangeView>, exchange: int, turn: int)
    requires
        0 <= exchange < conversation.len(),
        0 <= turn < conversation[exchange].response.len(),
        conversation[exchange].response[turn].1.len() > 0,
    ensures
        ({
            let all = conversation_messages(conversation);
            let start = turn_start(conversation, exchange, turn);
            let asked = conversation[exchange].response[turn];
            &&& 0 <= start
            &&& start + 2 <= all.len()
            &&& all[start] == assistant_message(asked.0, asked.1)
            &&& all[start + 1] == tool_results_message(asked.1)
        }),
{
    let all = conversation_messages(conversation);
    let start = turn_start(conversation, exchange, turn);
    let asked = conversation[exchange].response[turn];
    lemma_turn_stands_whole(conversation, exchange, turn);
    assert(all.subrange(start, start + 2)[0] == all[start]);
    assert(all.subrange(start, start + 2)[1] == all[start + 1]);
}

/// Whether `event` starts the block of a tool use of `name` under `id`.
pub open spec fn starts_tool_use(event: SseEventView, name: Seq<char>, id: Seq<char>) -> bool {
    &&& event.event == "content_block_start"@
    &&& json_parsed(event.data) matches Some(response)
    &&& response.str_at("content_block"@, "type"@) == Some("tool_use"@)
    &&& response.str_at("content_block"@, "name"@) == Some(name)
    &&& response.str_at("content_block"@, "id"@) == Some(id)
}

/// A tool use comes out of its stream with the input that the model sent:
/// where a decoder gets the start of the block of a tool use, then deltas
/// whose fragments are, one behind the other, the text of a JSON value, and
/// then the stop of the block, it holds one tool use more, with that value
/// as its input, however the text was cut into fragments. The decoder holds
/// no fragments while it reads the model's text, as every decoder does that
/// started fresh.
pub proof fn lemma_tool_input_round_trip(
    decoder: DecoderView,
    start: SseEventView,
    events: Seq<SseEventView>,
    fragments: Seq<Seq<char>>,
    stop: SseEventView,
    name: Seq<char>,
    id: Seq<char>,
    value: JsonValue,
)
    requires
        decoder.tool_uses.len() > 0 || decoder.partial_json.len() == 0,
        starts_tool_use(start, name, id),
        events.len() == fragments.len(),
        forall|i: int| 0 <= i < events.len() ==> brings_fragment(#[trigger] events[i], fragments[i]),
        stops_block(stop),
        json_parsed(joined(fragments)) == Some(value),
    ensures
        feed_all(decoder, seq![start] + events.push(stop)) == Ok::<DecoderView, StreamErrorView>(
            DecoderView {
                message: decoder.message,
                tool_uses: decoder.tool_uses.push(
                    ToolUseView { name, id, input: value, output: None },
                ),
                partial_json: joined(fragments),
            },
        ),
{
    lemma_kinds_differ();
    let all = seq![start] + events.push(stop);
    assert(all.first() == start);
    assert(all.drop_first() =~= events.push(stop));
    let started = ToolUseView { name, id, input: JsonValue::Null, output: None };
    let after = feed_step(decoder, start)->Ok_0.0;
    assert(after.tool_uses == decoder.tool_uses.push(started));
    assert(after.partial_json + joined(fragments) =~= joined(fragments));
    lemma_fragments_give_input(after, events, fragments, stop, value);
    assert(after.tool_uses.drop_last() =~= decoder.tool_uses);
}

/// The tokens that a decoder gives to be shown while it reads `events`, one
/// behind the other.
pub open spec fn shown_tokens(decoder: DecoderView, events: Seq<SseEventView>) -> Seq<char>
    decreases events.len(),
{
    if events.len() == 0 {
        Seq::empty()
    } else {
        match feed_step(decoder, events.first()) {
            Err(_) => Seq::empty(),
            Ok((after, shown)) => {
                let tokens = match shown {
                    ShownView::Tokens(tokens) => tokens,
                    _ => Seq::empty(),
                };
                tokens + shown_tokens(after, events.drop_first())
            },
        }
    }
}

/// The text of the model is what was shown of it: where a stream is read to
/// its end, the text that the decoder holds is the text it held before and
/// then the tokens that it gave to be shown, in their order.
pub proof fn lemma_message_is_what_was_shown(decoder: DecoderView, events: Seq<SseEventView>)
    requires
        feed_all(decoder, events) is Ok,
    ensures
        feed_all(decoder, events)->Ok_0.message == decoder.message + shown_tokens(decoder, events),
    decreases events.len(),
{
    if events.len() == 0 {
        assert(decoder.message + shown_tokens(decoder, events) =~= decoder.message);
    } else {
        let after = feed_step(decoder, events.first())->Ok_0.0;
        lemma_message_is_what_was_shown(after, events.drop_first());
        assert(after.message + shown_tokens(after, events.drop_first()) =~= decoder.message
            + shown_tokens(decoder, events));
    }
}

} // verus!

//! The conversation: tools, tool uses, exchanges, and the parameters of the
//! model that answers.

use crate::json::{json_parsed, renders, Json, JsonValue};
use crate::text::text_of;
use vstd::prelude::*;

verus! {

/// What stands for the result of a tool use that never got one.
pub const CANCELLED: &'static str = "Operation cancelled by user";

/// A tool that the model may ask for. `input_schema` is the text of a JSON
/// Schema object.
#[derive(Debug, Clone, Copy, PartialEq, Eq)]
pub struct Tool {
    pub name: &'static str,
    pub description: &'static str,
    pub input_schema: &'static str,
}

/// A `Tool` as mathematical values.
pub struct ToolView {
    pub name: Seq<char>,
    pub description: Seq<char>,
    pub input_schema: Seq<char>,
}

impl View for Tool {
    type V = ToolView;

    open spec fn view(&self) -> ToolView {
        ToolView {
            name: self.name@,
            description: self.description@,
            input_schema: self.input_schema@,
        }
    }
}

/// The views of a sequence of tools.
pub open spec fn tools_view(tools: Seq<Tool>) -> Seq<ToolView> {
    tools.map_values(|tool: Tool| tool@)
}

/// Whether the input schema of every tool is JSON.
pub open spec fn schemas_parse(tools: Seq<ToolView>) -> bool {
    forall|i: int| 0 <= i < tools.len() ==> json_parsed(#[trigger] tools[i].input_schema) is Some
}

/// One request of the model to run a tool, with what the tool answered once
/// it has run: the text, and whether it reports an error.
#[derive(Debug, PartialEq, Eq)]
pub struct ToolUse {
    pub name: String,
    pub id: String,
    pub input: Json,
    pub output: Option<(String, bool)>,
}

/// A `ToolUse` as mathematical values.
pub struct ToolUseView {
    pub name: Seq<char>,
    pub id: Seq<char>,
    pub input: JsonValue,
    pub output: Option<(Seq<char>, bool)>,
}

impl View for ToolUse {
    type V = ToolUseView;

    open spec fn view(&self) -> ToolUseView {
        ToolUseView {
            name: self.name@,
            id: self.id@,
            input: self.input@,
            output: match self.output {
                Some((text, is_error)) => Some((text@, is_error)),
                None => None,
            },
        }
    }
}

/// One turn of the model: its text and the tool uses it asked for.
pub type TurnView = (Seq<char>, Seq<ToolUseView>);

/// One prompt of the user with every turn of the model that answers it.
#[derive(Debug, PartialEq, Eq)]
pub struct Exchange {
    pub prompt: String,
    pub response: Vec<(String, Vec<ToolUse>)>,
}

/// An `Exchange` as mathematical values.
pub struct ExchangeView {
    pub prompt: Seq<char>,
    pub response: Seq<TurnView>,
}

/// The views of a sequence of tool uses.
pub open spec fn uses_view(uses: Seq<ToolUse>) -> Seq<ToolUseView> {
    uses.map_values(|tool_use: ToolUse| tool_use@)
}

/// The view of one turn.
pub open spec fn turn_view(turn: (String, Vec<ToolUse>)) -> TurnView {
    (turn.0@, uses_view(turn.1@))
}

/// The views of a sequence of turns.
pub open spec fn turns_view(turns: Seq<(String, Vec<ToolUse>)>) -> Seq<TurnView> {
    turns.map_values(|turn: (String, Vec<ToolUse>)| turn_view(turn))
}

impl View for Exchange {
    type V = ExchangeView;

    open spec fn view(&self) -> ExchangeView {
        ExchangeView { prompt: self.prompt@, response: turns_view(self.response@) }
    }
}

/// Whether the input of each of `uses` can be written as JSON text.
pub open spec fn inputs_render(uses: Seq<ToolUseView>) -> bool {
    forall|i: int| 0 <= i < uses.len() ==> renders((#[trigger] uses[i]).input)
}

/// Whether the input of every tool use of `turns` can be written as JSON
/// text.
pub open spec fn turns_render(turns: Seq<TurnView>) -> bool {
    forall|i: int| 0 <= i < turns.len() ==> inputs_render((#[trigger] turns[i]).1)
}

/// Whether the input of every tool use of a conversation can be written as
/// JSON text.
pub open spec fn conversation_renders(conversation: Seq<ExchangeView>) -> bool {
    forall|i: int|
        0 <= i < conversation.len() ==> turns_render((#[trigger] conversation[i]).response)
}

/// The views of a sequence of exchanges.
pub open spec fn exchanges_view(exchanges: Seq<Exchange>) -> Seq<ExchangeView> {
    exchanges.map_values(|exchange: Exchange| exchange@)
}

/// The provider whose wire form a conversation is written in.
#[derive(Debug, Clone, Copy, PartialEq, Eq, Structural)]
pub enum Provider {
    Anthropic,
    OpenAI,
}

/// The model to ask and how. `temperature` is the text of a JSON number.
#[derive(Debug, PartialEq, Eq)]
pub struct ModelParams {
    pub provider: Provider,
    pub model: String,
    pub max_tokens: u32,
    pub temperature: String,
}

/// A `ModelParams` as mathematical values.
pub struct ModelParamsView {
    pub provider: Provider,
    pub model: Seq<char>,
    pub max_tokens: nat,
    pub temperature: Seq<char>,
}

impl View for ModelParams {
    type V = ModelParamsView;

    open spec fn view(&self) -> ModelParamsView {
        ModelParamsView {
            provider: self.provider,
            model: self.model@,
            max_tokens: self.max_tokens as nat,
            temperature: self.temperature@,
        }
    }
}

/// The choice of a model: one of Anthropic's where `anthropic` names one,
/// else the one of OpenAI's that `openai` names.
#[derive(Debug, PartialEq, Eq)]
pub struct Model {
    pub anthropic: Option<String>,
    pub openai: String,
}

/// A `Model` as mathematical values.
pub struct ModelView {
    pub anthropic: Option<Seq<char>>,
    pub openai: Seq<char>,
}

impl View for Model {
    type V = ModelView;

    open spec fn view(&self) -> ModelView {
        ModelView {
            anthropic: match self.anthropic {
                Some(name) => Some(name@),
                None => None,
            },
            openai: self.openai@,
        }
    }
}

/// The parameters for the model that `model` chooses.
pub open spec fn chosen(model: ModelView, max_tokens: nat, temperature: Seq<char>) -> ModelParamsView {
    match model.anthropic {
        Some(name) => ModelParamsView {
            provider: Provider::Anthropic,
            model: name,
            max_tokens,
            temperature,
        },
        None => ModelParamsView {
            provider: Provider::OpenAI,
            model: model.openai,
            max_tokens,
            temperature,
        },
    }
}

impl ToolUse {
    /// A tool use that has neither input nor output yet.
    pub fn new(name: &str, id: &str) -> (tool_use: ToolUse)
        ensures
            tool_use@ == (ToolUseView {
                name: name@,
                id: id@,
                input: JsonValue::Null,
                output: None,
            }),
    {
        ToolUse { name: text_of(name), id: text_of(id), input: Json::Null, output: None }
    }
}

impl ModelParams {
    /// The parameters for the model that `model` chooses.
    pub fn new(model: Model, max_tokens: u32, temperature: String) -> (params: ModelParams)
        ensures
            params@ == chosen(model@, max_tokens as nat, temperature@),
    {
        match model.anthropic {
            Some(name) => ModelParams {
                provider: Provider::Anthropic,
                model: name,
                max_tokens,
                temperature,
            },
            None => ModelParams {
                provider: Provider::OpenAI,
                model: model.openai,
                max_tokens,
                temperature,
            },
        }
    }
}

} // verus!

//! What the decoders of both providers share: the events they read, what
//! they hand back to be shown, and the ways in which a stream fails.

use crate::common::{uses_view, ToolUse, ToolUseView};
use crate::text::{push_text, text_of};
use vstd::prelude::*;

verus! {

/// A server-sent event: its kind and its data.
#[derive(Debug, Clone, PartialEq, Eq)]
pub struct SseEvent {
    pub event: String,
    pub data: String,
}

/// An `SseEvent` as mathematical values.
pub struct SseEventView {
    pub event: Seq<char>,
    pub data: Seq<char>,
}

impl View for SseEvent {
    type V = SseEventView;

    open spec fn view(&self) -> SseEventView {
        SseEventView { event: self.event@, data: self.data@ }
    }
}

/// The views of a sequence of events.
pub open spec fn events_view(events: Seq<SseEvent>) -> Seq<SseEventView> {
    events.map_values(|event: SseEvent| event@)
}

/// What an event gives the user to see: nothing, tokens of the model's text,
/// or the break at the end of a block.
#[derive(Debug, Clone, PartialEq, Eq)]
pub enum Shown {
    Nothing,
    Tokens(String),
    Break,
}

/// A `Shown` as mathematical values.
pub enum ShownView {
    Nothing,
    Tokens(Seq<char>),
    Break,
}

impl View for Shown {
    type V = ShownView;

    open spec fn view(&self) -> ShownView {
        match self {
            Shown::Nothing => ShownView::Nothing,
            Shown::Tokens(tokens) => ShownView::Tokens(tokens@),
            Shown::Break => ShownView::Break,
        }
    }
}

/// Why a stream could not be decoded.
#[derive(Debug, Clone, PartialEq, Eq)]
pub enum StreamError {
    /// The data of an event is no JSON.
    InvalidData,
    /// The provider sent an error, with this message.
    Upstream(String),
    /// A tool use began in an event that does not start a block.
    UnexpectedToolUse,
    /// A tool use came without the name of its tool.
    MissingToolName,
    /// A tool use came without its id.
    MissingToolId,
    /// A tool call came without its id.
    MissingToolCallId,
    /// A delta of text came without tokens.
    MissingTokens,
    /// A delta of a tool use came without a fragment of its input.
    MissingToolInput,
    /// The fragments of the input of a tool use are, together, no JSON.
    InvalidToolInput,
    /// A fragment of a tool call came without arguments.
    MissingArguments,
}

/// A `StreamError` as mathematical values.
pub enum StreamErrorView {
    InvalidData,
    Upstream(Seq<char>),
    UnexpectedToolUse,
    MissingToolName,
    MissingToolId,
    MissingToolCallId,
    MissingTokens,
    MissingToolInput,
    InvalidToolInput,
    MissingArguments,
}

impl View for StreamError {
    type V = StreamErrorView;

    open spec fn view(&self) -> StreamErrorView {
        match self {
            StreamError::InvalidData => StreamErrorView::InvalidData,
            StreamError::Upstream(message) => StreamErrorView::Upstream(message@),
            StreamError::UnexpectedToolUse => StreamErrorView::UnexpectedToolUse,
            StreamError::MissingToolName => StreamErrorView::MissingToolName,
            StreamError::MissingToolId => StreamErrorView::MissingToolId,
            StreamError::MissingToolCallId => StreamErrorView::MissingToolCallId,
            StreamError::MissingTokens => StreamErrorView::MissingTokens,
            StreamError::MissingToolInput => StreamErrorView::MissingToolInput,
            StreamError::InvalidToolInput => StreamErrorView::InvalidToolInput,
            StreamError::MissingArguments => StreamErrorView::MissingArguments,
        }
    }
}

/// What a decoder has gathered from the events it has read: the text of the
/// model, its tool uses, and the fragments of the input of the last of them.
#[derive(Debug, PartialEq, Eq)]
pub struct Decoder {
    pub message: String,
    pub tool_uses: Vec<ToolUse>,
    pub partial_json: String,
}

/// A `Decoder` as mathematical values.
pub struct DecoderView {
    pub message: Seq<char>,
    pub tool_uses: Seq<ToolUseView>,
    pub partial_json: Seq<char>,
}

impl View for Decoder {
    type V = DecoderView;

    open spec fn view(&self) -> DecoderView {
        DecoderView {
            message: self.message@,
            tool_uses: uses_view(self.tool_uses@),
            partial_json: self.partial_json@,
        }
    }
}

/// The decoder before the first event.
pub open spec fn fresh() -> DecoderView {
    DecoderView { message: Seq::empty(), tool_uses: Seq::empty(), partial_json: Seq::empty() }
}

impl Decoder {
    /// A decoder that has read nothing.
    pub fn new() -> (decoder: Decoder)
        ensures
            decoder@ == fresh(),
    {
        let decoder = Decoder {
            message: String::new(),
            tool_uses: Vec::new(),
            partial_json: String::new(),
        };
        assert(decoder@.tool_uses =~= Seq::empty());
        decoder
    }
}

/// The view of a tool use that may be there.
pub open spec fn found_view(found: Option<ToolUse>) -> Option<ToolUseView> {
    match found {
        Some(tool_use) => Some(tool_use@),
        None => None,
    }
}

/// The fragments one behind the other.
pub open spec fn joined(fragments: Seq<Seq<char>>) -> Seq<char>
    decreases fragments.len(),
{
    if fragments.len() == 0 {
        Seq::empty()
    } else {
        fragments.first() + joined(fragments.drop_first())
    }
}

/// What the provider's error is reported as where it names no message.
pub const NO_MESSAGE: &'static str = "Failed to fetch response chunk";

/// The words in which an error is reported.
pub open spec fn error_text(error: StreamErrorView) -> Seq<char> {
    match error {
        StreamErrorView::InvalidData => "Data not valid JSON."@,
        StreamErrorView::Upstream(message) => message,
        StreamErrorView::UnexpectedToolUse => "The first encountered tool use block should be of type content_block_start."@,
        StreamErrorView::MissingToolName => "Tool name not found."@,
        StreamErrorView::MissingToolId => "Tool use id not found."@,
        StreamErrorView::MissingToolCallId => "Tool call id not found."@,
        StreamErrorView::MissingTokens => "Tokens not found in content block."@,
        StreamErrorView::MissingToolInput => "Tool input not found."@,
        StreamErrorView::InvalidToolInput => "Tool input not valid JSON."@,
        StreamErrorView::MissingArguments => "Tool call arguments not found"@,
    }
}

impl StreamError {
    /// The words in which this error is reported.
    pub fn message(&self) -> (text: String)
        ensures
            text@ == error_text(self@),
    {
        match self {
            StreamError::InvalidData => text_of("Data not valid JSON."),
            StreamError::Upstream(message) => message.clone(),
            StreamError::UnexpectedToolUse => text_of("The first encountered tool use block should be of type content_block_start."),
            StreamError::MissingToolName => text_of("Tool name not found."),
            StreamError::MissingToolId => text_of("Tool use id not found."),
            StreamError::MissingToolCallId => text_of("Tool call id not found."),
            StreamError::MissingTokens => text_of("Tokens not found in content block."),
            StreamError::MissingToolInput => text_of("Tool input not found."),
            StreamError::InvalidToolInput => text_of("Tool input not valid JSON."),
            StreamError::MissingArguments => text_of("Tool call arguments not found"),
        }
    }
}

/// A request to a provider: where to post it, its headers, and its body.
#[derive(Debug, Clone, PartialEq, Eq)]
pub struct HttpRequest {
    pub url: String,
    pub headers: Vec<(String, String)>,
    pub body: String,
}

/// An `HttpRequest` as mathematical values.
pub struct HttpRequestView {
    pub url: Seq<char>,
    pub headers: Seq<(Seq<char>, Seq<char>)>,
    pub body: Seq<char>,
}

impl View for HttpRequest {
    type V = HttpRequestView;

    open spec fn view(&self) -> HttpRequestView {
        HttpRequestView {
            url: self.url@,
            headers: self.headers@.map_values(|header: (String, String)| (header.0@, header.1@)),
            body: self.body@,
        }
    }
}

/// A header: `name` with `value`.
pub fn header(name: &str, value: &str) -> (pair: (String, String))
    ensures
        pair.0@ == name@,
        pair.1@ == value@,
{
    (text_of(name), text_of(value))
}

/// The status of a response that is taken.
pub const STATUS_OK: u16 = 200;

/// The words in which a response with another status is reported:
/// `status_line` is the status as the provider spelled it, `body` what it
/// sent.
pub open spec fn status_text(status_line: Seq<char>, body: Seq<char>) -> Seq<char> {
    "Failed with status code: "@ + status_line + ": "@ + body
}

/// Takes a response with the status 200, and reports any other as an error
/// of the provider, with what it sent.
pub fn check_status(status: u16, status_line: &str, body: &str) -> (result: Result<
    (),
    StreamError,
>)
    ensures
        match result {
            Ok(()) => status == STATUS_OK,
            Err(error) => status != STATUS_OK && error@ == StreamErrorView::Upstream(
                status_text(status_line@, body@),
            ),
        },
{
    if status == STATUS_OK {
        Ok(())
    } else {
        let mut text = text_of("Failed with status code: ");
        push_text(&mut text, status_line);
        push_text(&mut text, ": ");
        push_text(&mut text, body);
        Err(StreamError::Upstream(text))
    }
}

} // verus!

//! The agent loop: which provider a conversation goes to, and the course of
//! one exchange, from the prompt through the rounds of tool uses to the
//! model's last word.

use crate::anthropic;
use crate::common::{
    exchanges_view, tools_view, turns_view, uses_view, Exchange, ExchangeView, ModelParams,
    ModelParamsView, Provider, Tool, ToolUse, ToolUseView, ToolView, TurnView,
};
use crate::openai;
use crate::stream::{
    events_view, Decoder, DecoderView, HttpRequest, HttpRequestView, Shown, ShownView, SseEvent,
    SseEventView, StreamError, StreamErrorView,
};
use vstd::prelude::*;

verus! {

/// The request in the wire form of the provider that `params` names.
pub open spec fn request(
    conversation: Seq<ExchangeView>,
    params: ModelParamsView,
    system: Seq<char>,
    tools: Seq<ToolView>,
    api_key: Seq<char>,
) -> HttpRequestView {
    match params.provider {
        Provider::Anthropic => anthropic::request(conversation, params, system, tools, api_key),
        Provider::OpenAI => openai::request(conversation, params, system, tools, api_key),
    }
}

/// Whether a request can be made in the wire form of the provider that
/// `params` names.
pub open spec fn sendable(
    conversation: Seq<ExchangeView>,
    params: ModelParamsView,
    system: Seq<char>,
    tools: Seq<ToolView>,
) -> bool {
    match params.provider {
        Provider::Anthropic => anthropic::sendable(conversation, params, system, tools),
        Provider::OpenAI => openai::sendable(conversation, params, system, tools),
    }
}

/// Makes the request to the provider that `params` names, or nothing where
/// none can be made.
pub fn send_request(
    exchanges: &[Exchange],
    current: &Exchange,
    params: &ModelParams,
    system: &str,
    tools: &[Tool],
    api_key: &str,
) -> (made: Option<HttpRequest>)
    ensures
        match made {
            Some(made) => {
                &&& sendable(
                    exchanges_view(exchanges@).push(current@),
                    params@,
                    system@,
                    tools_view(tools@),
                )
                &&& made@ == request(
                    exchanges_view(exchanges@).push(current@),
                    params@,
                    system@,
                    tools_view(tools@),
                    api_key@,
                )
            },
            None => !sendable(
                exchanges_view(exchanges@).push(current@),
                params@,
                system@,
                tools_view(tools@),
            ),
        },
{
    match params.provider {
        Provider::Anthropic => anthropic::send_request(
            exchanges,
            current,
            params,
            system,
            tools,
            api_key,
        ),
        Provider::OpenAI => openai::send_request(
            exchanges,
            current,
            params,
            system,
            tools,
            api_key,
        ),
    }
}

/// What one event does to a decoder in the wire form of `provider`.
pub open spec fn feed_step(provider: Provider, decoder: DecoderView, event: SseEventView) -> Result<
    (DecoderView, ShownView),
    StreamErrorView,
> {
    match provider {
        Provider::Anthropic => anthropic::feed_step(decoder, event),
        Provider::OpenAI => openai::feed_step(decoder, event),
    }
}

/// What a decoder holds at the end of a stream of `provider`.
pub open spec fn finished(provider: Provider, decoder: DecoderView) -> Result<
    (Seq<char>, Seq<ToolUseView>),
    StreamErrorView,
> {
    match provider {
        Provider::Anthropic => Ok((decoder.message, decoder.tool_uses)),
        Provider::OpenAI => openai::finished(decoder),
    }
}

/// What a whole stream of `provider` decodes to.
pub open spec fn decoded(provider: Provider, events: Seq<SseEventView>) -> Result<
    (Seq<char>, Seq<ToolUseView>),
    StreamErrorView,
> {
    match provider {
        Provider::Anthropic => anthropic::decoded(events),
        Provider::OpenAI => openai::decoded(events),
    }
}

/// Reads one event of a stream of `provider` into `decoder`.
pub fn feed(provider: Provider, decoder: &mut Decoder, event: &SseEvent) -> (result: Result<
    Shown,
    StreamError,
>)
    ensures
        match feed_step(provider, old(decoder)@, event@) {
            Ok((after, shown)) => {
                &&& result is Ok
                &&& result.unwrap()@ == shown
                &&& final(decoder)@ == after
            },
            Err(error) => {
                &&& result is Err
                &&& result.unwrap_err()@ == error
                &&& final(decoder)@ == old(decoder)@
            },
        },
{
    match provider {
        Provider::Anthropic => anthropic::feed(decoder, event),
        Provider::OpenAI => openai::feed(decoder, event),
    }
}

/// Ends a stream of `provider`.
pub fn finish(provider: Provider, decoder: Decoder) -> (result: Result<
    (String, Vec<ToolUse>),
    StreamError,
>)
    ensures
        match finished(provider, decoder@) {
            Ok((message, tool_uses)) => {
                &&& result is Ok
                &&& result.unwrap().0@ == message
                &&& uses_view(result.unwrap().1@) == tool_uses
            },
            Err(error) => result is Err && result.unwrap_err()@ == error,
        },
{
    match provider {
        Provider::Anthropic => Ok((decoder.message, decoder.tool_uses)),
        Provider::OpenAI => openai::finish(decoder),
    }
}

/// Decodes a whole stream of `provider`.
pub fn stream_response(provider: Provider, events: &[SseEvent]) -> (result: Result<
    (String, Vec<ToolUse>),
    StreamError,
>)
    ensures
        match decoded(provider, events_view(events@)) {
            Ok((message, tool_uses)) => {
                &&& result is Ok
                &&& result.unwrap().0@ == message
                &&& uses_view(result.unwrap().1@) == tool_uses
            },
            Err(error) => result is Err && result.unwrap_err()@ == error,
        },
{
    match provider {
        Provider::Anthropic => anthropic::stream_response(events),
        Provider::OpenAI => openai::stream_response(events),
    }
}

/// What the loop is to do next for an exchange.
#[derive(Debug, Clone, Copy, PartialEq, Eq, Structural)]
pub enum Action {
    /// Ask the model to go on with the conversation.
    Request,
    /// Run the tool use with this index.
    CallTool(usize),
    /// Nothing: the model has had its last word.
    Finish,
}

/// The course of one exchange: the exchange as far as its turns are closed,
/// the turn that is open, how many of its tool uses have run, and whether
/// the model is to be asked.
#[derive(Debug)]
pub struct RunExchangeTask {
    current: Exchange,
    message: String,
    tool_uses: Vec<ToolUse>,
    called: usize,
    waiting: bool,
}

/// A `RunExchangeTask` as mathematical values.
pub struct TaskView {
    pub current: ExchangeView,
    pub message: Seq<char>,
    pub tool_uses: Seq<ToolUseView>,
    pub called: nat,
    pub waiting: bool,
}

impl View for RunExchangeTask {
    type V = TaskView;

    closed spec fn view(&self) -> TaskView {
        TaskView {
            current: self.current@,
            message: self.message@,
            tool_uses: uses_view(self.tool_uses@),
            called: self.called as nat,
            waiting: self.waiting,
        }
    }
}

/// Whether each of `uses` has its output.
pub open spec fn all_answered(uses: Seq<ToolUseView>) -> bool {
    forall|i: int| 0 <= i < uses.len() ==> (#[trigger] uses[i]).output is Some
}

/// Whether each of `turns` asked for tools and has the output of each.
pub open spec fn turns_closed(turns: Seq<TurnView>) -> bool {
    forall|i: int|
        0 <= i < turns.len() ==> (#[trigger] turns[i]).1.len() > 0 && all_answered(turns[i].1)
}

/// Whether every tool use of every turn of an exchange has its output.
pub open spec fn is_answered(exchange: ExchangeView) -> bool {
    forall|i: int|
        0 <= i < exchange.response.len() ==> all_answered((#[trigger] exchange.response[i]).1)
}

impl TaskView {
    /// Whether the task is in a state that its course leads to: no more
    /// tool uses have run than there are, those that have run have their
    /// output, every closed turn has all of its outputs, and while the model
    /// is to be asked no turn is open.
    pub open spec fn well_formed(self) -> bool {
        &&& self.called <= self.tool_uses.len()
        &&& all_answered(self.tool_uses.take(self.called as int))
        &&& turns_closed(self.current.response)
        &&& self.waiting ==> self.message.len() == 0 && self.tool_uses.len() == 0
        &&& !self.waiting && self.tool_uses.len() > 0 ==> self.called < self.tool_uses.len()
    }

    /// What the loop is to do next.
    pub open spec fn next(self) -> Action {
        if self.waiting {
            Action::Request
        } else if self.called < self.tool_uses.len() {
            Action::CallTool(self.called as usize)
        } else {
            Action::Finish
        }
    }

    /// The task once the model has answered with `message` and `tool_uses`.
    pub open spec fn responded(self, message: Seq<char>, tool_uses: Seq<ToolUseView>) -> TaskView {
        if self.waiting {
            TaskView { message, tool_uses, called: 0, waiting: false, ..self }
        } else {
            self
        }
    }

    /// The task once the tool use that was due has given `output`. After the
    /// last tool use of the turn the turn is closed, and the model is to be
    /// asked again.
    pub open spec fn tool_finished(self, output: (Seq<char>, bool)) -> TaskView {
        if self.waiting || self.called >= self.tool_uses.len() {
            self
        } else {
            let at = self.called as int;
            let tool_uses = self.tool_uses.update(
                at,
                ToolUseView { output: Some(output), ..self.tool_uses[at] },
            );
            if at + 1 < tool_uses.len() {
                TaskView { tool_uses, called: (at + 1) as nat, ..self }
            } else {
                TaskView {
                    current: ExchangeView {
                        response: self.current.response.push((self.message, tool_uses)),
                        ..self.current
                    },
                    message: Seq::empty(),
                    tool_uses: Seq::empty(),
                    called: 0,
                    waiting: true,
                }
            }
        }
    }

    /// The exchange as it stands: the closed turns, and the open turn
    /// unless it is empty.
    pub open spec fn collected(self) -> ExchangeView {
        if self.message.len() > 0 || self.tool_uses.len() > 0 {
            ExchangeView {
                response: self.current.response.push((self.message, self.tool_uses)),
                ..self.current
            }
        } else {
            self.current
        }
    }
}

impl RunExchangeTask {
    /// The task for a new prompt: the model is to be asked.
    pub fn new(prompt: String) -> (task: RunExchangeTask)
        ensures
            task@.well_formed(),
            task@ == (TaskView {
                current: ExchangeView { prompt: prompt@, response: Seq::empty() },
                message: Seq::empty(),
                tool_uses: Seq::empty(),
                called: 0,
                waiting: true,
            }),
    {
        let task = RunExchangeTask {
            current: Exchange { prompt, response: Vec::new() },
            message: String::new(),
            tool_uses: Vec::new(),
            called: 0,
            waiting: true,
        };
        assert(task@.current.response =~= Seq::empty());
        assert(task@.tool_uses =~= Seq::empty());
        task
    }

    /// The exchange as far as its turns are closed: what the next request
    /// goes out with.
    pub fn current(&self) -> (exchange: &Exchange)
        ensures
            exchange@ == self@.current,
    {
        &self.current
    }

    /// The tool use with the index `index` of the open turn.
    pub fn tool_use(&self, index: usize) -> (found: Option<&ToolUse>)
        ensures
            match found {
                Some(tool_use) => index < self@.tool_uses.len() && tool_use@
                    == self@.tool_uses[index as int],
                None => index >= self@.tool_uses.len(),
            },
    {
        if index < self.tool_uses.len() {
            Some(&self.tool_uses[index])
        } else {
            None
        }
    }

    /// What the loop is to do next. The model is asked only when every tool
    /// use of every turn so far has its output, and the tool uses of a turn
    /// run one by one in their order. The exchange is finished when the
    /// model asks for no tool: every tool use in it then has its output.
    pub fn next(&self) -> (action: Action)
        requires
            self@.well_formed(),
        ensures
            action == self@.next(),
            action matches Action::CallTool(index) ==> index == self@.called && index
                < self@.tool_uses.len(),
            action is Request ==> turns_closed(self@.current.response),
            action is Finish ==> self@.tool_uses.len() == 0 && is_answered(self@.collected()),
    {
        proof {
            let task = self@;
            if !task.waiting && task.called >= task.tool_uses.len() {
                let exchange = task.collected();
                assert forall|i: int| 0 <= i < exchange.response.len() implies all_answered(
                    (#[trigger] exchange.response[i]).1,
                ) by {
                    if i < task.current.response.len() {
                        assert(exchange.response[i] == task.current.response[i]);
                    }
                }
            }
        }
        if self.waiting {
            Action::Request
        } else if self.called < self.tool_uses.len() {
            Action::CallTool(self.called)
        } else {
            Action::Finish
        }
    }

    /// Takes the answer of the model. Where the model was not asked, nothing
    /// changes.
    pub fn responded(&mut self, message: String, tool_uses: Vec<ToolUse>)
        requires
            old(self)@.well_formed(),
        ensures
            final(self)@.well_formed(),
            final(self)@ == old(self)@.responded(message@, uses_view(tool_uses@)),
    {
        if self.waiting {
            self.message = message;
            self.tool_uses = tool_uses;
            self.called = 0;
            self.waiting = false;
            assert(self@.tool_uses.take(0) =~= Seq::empty());
        }
    }

    /// Takes the output of the tool use that was due. Where none was, nothing
    /// changes.
    pub fn tool_finished(&mut self, output: (String, bool))
        requires
            old(self)@.well_formed(),
        ensures
            final(self)@.well_formed(),
            final(self)@ == old(self)@.tool_finished((output.0@, output.1)),
    {
        if self.waiting || self.called >= self.tool_uses.len() {
            return ;
        }
        let ghost before = self@;
        let ghost at = self.called as int;
        let ghost answered = ToolUseView {
            output: Some((output.0@, output.1)),
            ..before.tool_uses[at]
        };
        let mut rest = self.tool_uses.split_off(self.called);
        let mut due = rest.remove(0);
        due.output = Some(output);
        assert(due@ == answered);
        self.tool_uses.push(due);
        self.tool_uses.append(&mut rest);
        assert(uses_view(self.tool_uses@) =~= before.tool_uses.update(at, answered));
        assert forall|i: int| 0 <= i < at + 1 implies (#[trigger] uses_view(self.tool_uses@).take(
            at + 1,
        )[i]).output is Some by {
            if i < at {
                assert(before.tool_uses.take(at)[i] == before.tool_uses[i]);
            }
        }
        if self.called + 1 < self.tool_uses.len() {
            self.called = self.called + 1;
        } else {
            let mut message = String::new();
            let mut tool_uses: Vec<ToolUse> = Vec::new();
            core::mem::swap(&mut message, &mut self.message);
            core::mem::swap(&mut tool_uses, &mut self.tool_uses);
            let ghost closed = self.current.response@;
            assert(uses_view(tool_uses@).take(at + 1) =~= uses_view(tool_uses@));
            self.current.response.push((message, tool_uses));
            assert(turns_view(self.current.response@) =~= turns_view(closed).push(
                (message@, uses_view(tool_uses@)),
            ));
            self.called = 0;
            self.waiting = true;
            assert(self@.tool_uses =~= Seq::empty());
            assert forall|i: int| 0 <= i < self@.current.response.len() implies (
            #[trigger] self@.current.response[i]).1.len() > 0 && all_answered(
                self@.current.response[i].1,
            ) by {
                if i < closed.len() {
                    assert(self@.current.response[i] == before.current.response[i]);
                }
            }
        }
    }

    /// The exchange as it stands: the closed turns, and the open turn unless
    /// it is empty.
    pub fn collect(self) -> (exchange: Exchange)
        ensures
            exchange@ == self@.collected(),
    {
        let RunExchangeTask { current, message, tool_uses, .. } = self;
        let mut current = current;
        if !message.as_str().is_empty() || tool_uses.len() > 0 {
            let ghost closed = current.response@;
            current.response.push((message, tool_uses));
            assert(turns_view(current.response@) =~= turns_view(closed).push(
                (message@, uses_view(tool_uses@)),
            ));
        }
        current
    }
}

} // verus!

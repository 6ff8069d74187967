//! The orchestrator: a state machine that takes the reply of each
//! collaborator and answers with the next request to make. The loop that
//! performs the requests stands outside; every decision stands here.

use std::collections::VecDeque;
use vstd::prelude::*;
use vstd::string::*;
use crate::compact::{compacted, is_conversation, law_preamble_kept, prune};
use crate::config::{
    checked_view, config_of, load, Checked, Config, ConfigError, ConfigErrorView, ConfigView,
    Delim, DelimConfig, DelimConfigView, DelimView,
};
use crate::json::{document_of, Numeral, NumeralView};
use crate::message::{Message, MessageView};
use crate::text::{call_record, encode_call, trimmed, visible};

verus! {

/// A call that the model asks for: the tool's name and its arguments as
/// serialized JSON.
#[derive(Clone, Debug, PartialEq, Eq)]
pub struct ToolCall {
    pub name: String,
    pub arguments: String,
}

/// The mathematical content of a [`ToolCall`].
pub struct ToolCallView {
    pub name: Seq<char>,
    pub arguments: Seq<char>,
}

impl View for ToolCall {
    type V = ToolCallView;

    open spec fn view(&self) -> ToolCallView {
        ToolCallView { name: self.name@, arguments: self.arguments@ }
    }
}

impl DeepView for ToolCall {
    type V = ToolCallView;

    open spec fn deep_view(&self) -> ToolCallView {
        self@
    }
}

impl ToolCall {
    /// A copy of the call.
    pub fn duplicate(&self) -> (copy: ToolCall)
        ensures
            copy@ == self@,
    {
        ToolCall { name: self.name.clone(), arguments: self.arguments.clone() }
    }
}

/// What a tool handed back: its output, and a snapshot of the tool state
/// where the tooling supplies one.
#[derive(Clone, Debug, PartialEq, Eq)]
pub struct ToolOutcome {
    pub output: String,
    pub status: Option<String>,
}

/// The mathematical content of a [`ToolOutcome`].
pub struct ToolOutcomeView {
    pub output: Seq<char>,
    pub status: Option<Seq<char>>,
}

impl View for ToolOutcome {
    type V = ToolOutcomeView;

    open spec fn view(&self) -> ToolOutcomeView {
        ToolOutcomeView { output: self.output@, status: self.status.deep_view() }
    }
}

/// The delimiters that the response parser works with.
#[derive(Clone, Debug, PartialEq, Eq)]
pub struct Delims {
    pub reasoning: Option<Delim>,
    pub tool_call: Delim,
}

/// The mathematical content of a [`Delims`].
pub struct DelimsView {
    pub reasoning: Option<DelimView>,
    pub tool_call: DelimView,
}

impl View for Delims {
    type V = DelimsView;

    open spec fn view(&self) -> DelimsView {
        DelimsView { reasoning: self.reasoning.deep_view(), tool_call: self.tool_call@ }
    }
}

/// The delimiters that the tooling builds its preamble with.
#[derive(Clone, Debug, PartialEq, Eq)]
pub struct ToolDelims {
    pub available_tools: Delim,
    pub tool_call: Delim,
}

/// The mathematical content of a [`ToolDelims`].
pub struct ToolDelimsView {
    pub available_tools: DelimView,
    pub tool_call: DelimView,
}

impl View for ToolDelims {
    type V = ToolDelimsView;

    open spec fn view(&self) -> ToolDelimsView {
        ToolDelimsView { available_tools: self.available_tools@, tool_call: self.tool_call@ }
    }
}

impl DelimConfigView {
    /// The delimiter set of the response parser.
    pub open spec fn parser_delims(self) -> DelimsView {
        DelimsView { reasoning: self.reasoning, tool_call: self.tool_call }
    }

    /// The delimiter set of the tooling.
    pub open spec fn tool_delims(self) -> ToolDelimsView {
        ToolDelimsView { available_tools: self.available_tools, tool_call: self.tool_call }
    }
}

impl DelimConfig {
    /// The delimiter set of the response parser.
    pub fn parser_delims(&self) -> (delims: Delims)
        ensures
            delims@ == self@.parser_delims(),
    {
        let reasoning = match &self.reasoning {
            Some(pair) => Some(pair.duplicate()),
            None => None,
        };
        Delims { reasoning, tool_call: self.tool_call.duplicate() }
    }

    /// The delimiter set of the tooling.
    pub fn tool_delims(&self) -> (delims: ToolDelims)
        ensures
            delims@ == self@.tool_delims(),
    {
        ToolDelims {
            available_tools: self.available_tools.duplicate(),
            tool_call: self.tool_call.duplicate(),
        }
    }
}

/// What goes to the completion endpoint: the connection parameters, the
/// sampling parameters, the live conversation and the streaming flag.
#[derive(Clone, Debug, PartialEq, Eq)]
pub struct Request {
    pub api_key: Option<String>,
    pub base_url: String,
    pub model: String,
    pub temperature: Option<Numeral>,
    pub top_p: Option<Numeral>,
    pub messages: Vec<Message>,
    pub stream: bool,
}

/// The mathematical content of a [`Request`].
pub struct RequestView {
    pub api_key: Option<Seq<char>>,
    pub base_url: Seq<char>,
    pub model: Seq<char>,
    pub temperature: Option<NumeralView>,
    pub top_p: Option<NumeralView>,
    pub messages: Seq<MessageView>,
    pub stream: bool,
}

impl View for Request {
    type V = RequestView;

    open spec fn view(&self) -> RequestView {
        RequestView {
            api_key: self.api_key.deep_view(),
            base_url: self.base_url@,
            model: self.model@,
            temperature: self.temperature.deep_view(),
            top_p: self.top_p.deep_view(),
            messages: self.messages.deep_view(),
            stream: self.stream,
        }
    }
}

/// The reply of a collaborator.
#[derive(Debug)]
pub enum Event {
    /// The tooling built its preamble and named its status tool.
    Initialized { preamble: String, status_tool: String },
    /// The tooling judged a text: `Ok` holds the final answer, `Err` the next
    /// user turn.
    Prompted(Result<String, String>),
    /// The completion endpoint answered.
    Completed { text: String, tool_calls: Vec<ToolCall> },
    /// The completion endpoint failed.
    CompletionFailed,
    /// The response parser took the raw text apart.
    Parsed { content: String, tool_calls: Vec<ToolCall> },
    /// A tool ran.
    ToolReturned(ToolOutcome),
}

/// The mathematical content of an [`Event`].
pub enum EventView {
    Initialized { preamble: Seq<char>, status_tool: Seq<char> },
    Prompted(Result<Seq<char>, Seq<char>>),
    Completed { text: Seq<char>, tool_calls: Seq<ToolCallView> },
    CompletionFailed,
    Parsed { content: Seq<char>, tool_calls: Seq<ToolCallView> },
    ToolReturned(ToolOutcomeView),
}

impl View for Event {
    type V = EventView;

    open spec fn view(&self) -> EventView {
        match self {
            Event::Initialized { preamble, status_tool } => EventView::Initialized {
                preamble: preamble@,
                status_tool: status_tool@,
            },
            Event::Prompted(Ok(answer)) => EventView::Prompted(Ok(answer@)),
            Event::Prompted(Err(turn)) => EventView::Prompted(Err(turn@)),
            Event::Completed { text, tool_calls } => EventView::Completed {
                text: text@,
                tool_calls: tool_calls.deep_view(),
            },
            Event::CompletionFailed => EventView::CompletionFailed,
            Event::Parsed { content, tool_calls } => EventView::Parsed {
                content: content@,
                tool_calls: tool_calls.deep_view(),
            },
            Event::ToolReturned(outcome) => EventView::ToolReturned(outcome@),
        }
    }
}

/// The request to make next.
#[derive(Debug, PartialEq, Eq)]
pub enum Action {
    /// Ask the tooling for its preamble and the name of its status tool.
    Initialize(ToolDelims),
    /// Ask the tooling to judge a text.
    Prompt(String),
    /// Send the agent's request to the completion endpoint.
    Complete,
    /// Run the response parser on a raw text.
    Parse { text: String, delims: Delims },
    /// Run a tool.
    Call(ToolCall),
    /// Hand the answer to the caller: the run is over.
    Finish(String),
}

/// The mathematical content of an [`Action`].
pub enum ActionView {
    Initialize(ToolDelimsView),
    Prompt(Seq<char>),
    Complete,
    Parse { text: Seq<char>, delims: DelimsView },
    Call(ToolCallView),
    Finish(Seq<char>),
}

impl View for Action {
    type V = ActionView;

    open spec fn view(&self) -> ActionView {
        match self {
            Action::Initialize(delims) => ActionView::Initialize(delims@),
            Action::Prompt(text) => ActionView::Prompt(text@),
            Action::Complete => ActionView::Complete,
            Action::Parse { text, delims } => ActionView::Parse { text: text@, delims: delims@ },
            Action::Call(call) => ActionView::Call(call@),
            Action::Finish(answer) => ActionView::Finish(answer@),
        }
    }
}

/// Where a running agent stands: which reply it waits for.
#[derive(Debug, PartialEq, Eq)]
pub enum Stage {
    /// Waiting for the tooling's preamble.
    Initializing { input: String },
    /// Waiting for the tooling's judgement of the input.
    Opening { input: String },
    /// Waiting for the completion endpoint.
    Requesting,
    /// Waiting for the response parser.
    Parsing { text: String, structured: Vec<ToolCall> },
    /// Waiting for the tool that runs `current`; `later` holds the calls
    /// still to make, the next one first.
    Dispatching { content: String, current: ToolCall, later: VecDeque<ToolCall> },
    /// Waiting for the tooling's judgement of the round's visible content.
    Deciding { content: String },
}

/// The mathematical content of a [`Stage`].
pub enum StageView {
    Initializing { input: Seq<char> },
    Opening { input: Seq<char> },
    Requesting,
    Parsing { text: Seq<char>, structured: Seq<ToolCallView> },
    Dispatching { content: Seq<char>, current: ToolCallView, later: Seq<ToolCallView> },
    Deciding { content: Seq<char> },
}

impl View for Stage {
    type V = StageView;

    open spec fn view(&self) -> StageView {
        match self {
            Stage::Initializing { input } => StageView::Initializing { input: input@ },
            Stage::Opening { input } => StageView::Opening { input: input@ },
            Stage::Requesting => StageView::Requesting,
            Stage::Parsing { text, structured } => StageView::Parsing {
                text: text@,
                structured: structured.deep_view(),
            },
            Stage::Dispatching { content, current, later } => StageView::Dispatching {
                content: content@,
                current: current@,
                later: later.deep_view(),
            },
            Stage::Deciding { content } => StageView::Deciding { content: content@ },
        }
    }
}

/// A running agent: the request it owns, with the live conversation in it,
/// the delimiters, the character budget, the reserved name of the status
/// tool, and the stage it stands at.
#[derive(Debug, PartialEq, Eq)]
pub struct Session {
    pub request: Request,
    pub delims: DelimConfig,
    pub budget: u64,
    pub status_tool: String,
    pub stage: Stage,
}

/// The mathematical content of a [`Session`].
pub struct SessionView {
    pub request: RequestView,
    pub delims: DelimConfigView,
    pub budget: u64,
    pub status_tool: Seq<char>,
    pub stage: StageView,
}

impl View for Session {
    type V = SessionView;

    open spec fn view(&self) -> SessionView {
        SessionView {
            request: self.request@,
            delims: self.delims@,
            budget: self.budget,
            status_tool: self.status_tool@,
            stage: self.stage@,
        }
    }
}

/// An agent: running, or finished with its answer.
#[derive(Debug, PartialEq, Eq)]
pub enum Agent {
    Finished(String),
    Active(Session),
}

/// The mathematical content of an [`Agent`].
pub enum AgentView {
    Finished(Seq<char>),
    Active(SessionView),
}

impl View for Agent {
    type V = AgentView;

    open spec fn view(&self) -> AgentView {
        match self {
            Agent::Finished(answer) => AgentView::Finished(answer@),
            Agent::Active(session) => AgentView::Active(session@),
        }
    }
}

/// Whether a call is dispatched as a real tool: its name is not the reserved
/// name of the status tool.
pub open spec fn is_dispatched(status_tool: Seq<char>) -> spec_fn(ToolCallView) -> bool {
    |call: ToolCallView| call.name != status_tool
}

/// The calls of a round that are dispatched, in their order.
pub open spec fn dispatchable(calls: Seq<ToolCallView>, status_tool: Seq<char>) -> Seq<
    ToolCallView,
> {
    calls.filter(is_dispatched(status_tool))
}

/// The calls of a round: the structured ones that the completion endpoint
/// returned, or, where it returned none, those that the parser found.
pub open spec fn chosen_calls(structured: Seq<ToolCallView>, parsed: Seq<ToolCallView>) -> Seq<
    ToolCallView,
> {
    if structured.len() == 0 {
        parsed
    } else {
        structured
    }
}

/// The log with the round's visible content appended as an assistant
/// message, unless the content is empty.
pub open spec fn with_content(log: Seq<MessageView>, content: Seq<char>) -> Seq<MessageView> {
    if content.len() > 0 {
        log.push(MessageView::Assistant(content))
    } else {
        log
    }
}

/// The log with the result of a tool call appended: the call's canonical
/// record paired with the output, then, where the tooling supplied a status,
/// the reserved name paired with it.
pub open spec fn with_tool_result(
    log: Seq<MessageView>,
    status_tool: Seq<char>,
    call: ToolCallView,
    outcome: ToolOutcomeView,
) -> Seq<MessageView> {
    let recorded = log.push(
        MessageView::ToolCall(call_record(call.name, call.arguments), outcome.output),
    );
    match outcome.status {
        Some(status) => recorded.push(MessageView::Status(status_tool, status)),
        None => recorded,
    }
}

/// The log with the next user turn appended, unless the turn is empty.
pub open spec fn with_user_turn(log: Seq<MessageView>, turn: Seq<char>) -> Seq<MessageView> {
    if turn.len() > 0 {
        log.push(MessageView::User(turn))
    } else {
        log
    }
}

/// The stage that follows when `queue` holds the calls still to make: the
/// first of them is dispatched, or, with none left, the round's content goes
/// to the tooling for judgement.
pub open spec fn dispatch(content: Seq<char>, queue: Seq<ToolCallView>) -> StageView {
    if queue.len() > 0 {
        StageView::Dispatching { content, current: queue.first(), later: queue.drop_first() }
    } else {
        StageView::Deciding { content }
    }
}

impl SessionView {
    /// The session with another conversation and stage.
    pub open spec fn moved(self, messages: Seq<MessageView>, stage: StageView) -> SessionView {
        SessionView { request: RequestView { messages, ..self.request }, stage, ..self }
    }

    /// The agent after a reply. A reply that the stage does not wait for
    /// changes nothing, and neither does a failed completion, so that the
    /// same request is made again.
    pub open spec fn next(self, event: EventView) -> AgentView {
        let log = self.request.messages;
        match (self.stage, event) {
            (
                StageView::Initializing { input },
                EventView::Initialized { preamble, status_tool },
            ) => AgentView::Active(
                SessionView {
                    status_tool,
                    ..self.moved(seq![MessageView::System(preamble)], StageView::Opening { input })
                },
            ),
            (StageView::Opening { input }, EventView::Prompted(Ok(answer))) => AgentView::Finished(
                answer,
            ),
            (StageView::Opening { input }, EventView::Prompted(Err(turn))) => AgentView::Active(
                self.moved(log.push(MessageView::User(turn)), StageView::Requesting),
            ),
            (StageView::Requesting, EventView::Completed { text, tool_calls }) => AgentView::Active(
                self.moved(log, StageView::Parsing { text, structured: tool_calls }),
            ),
            (
                StageView::Parsing { text, structured },
                EventView::Parsed { content, tool_calls },
            ) => AgentView::Active(
                self.moved(
                    with_content(log, trimmed(content)),
                    dispatch(
                        trimmed(content),
                        dispatchable(chosen_calls(structured, tool_calls), self.status_tool),
                    ),
                ),
            ),
            (
                StageView::Dispatching { content, current, later },
                EventView::ToolReturned(outcome),
            ) => AgentView::Active(
                self.moved(
                    with_tool_result(log, self.status_tool, current, outcome),
                    dispatch(content, later),
                ),
            ),
            (StageView::Deciding { content }, EventView::Prompted(Ok(answer))) => AgentView::Finished(
                answer,
            ),
            (StageView::Deciding { content }, EventView::Prompted(Err(turn))) => AgentView::Active(
                self.moved(
                    compacted(with_user_turn(log, turn), self.budget as nat),
                    StageView::Requesting,
                ),
            ),
            _ => AgentView::Active(self),
        }
    }

    /// Whether the session is one that a run can reach. Before the tooling's
    /// preamble came the conversation is empty, after it the conversation
    /// starts with the preamble; the request streams; and no call that waits
    /// to be dispatched goes by the reserved name of the status tool.
    pub open spec fn well_formed(self) -> bool {
        &&& self.request.stream
        &&& if self.stage is Initializing {
            self.request.messages.len() == 0
        } else {
            is_conversation(self.request.messages)
        }
        &&& self.stage matches StageView::Dispatching { content, current, later } ==> {
            &&& current.name != self.status_tool
            &&& forall|i: int| 0 <= i < later.len() ==> (#[trigger] later[i]).name != self.status_tool
        }
    }

    /// The request that the session waits on.
    pub open spec fn pending(self) -> ActionView {
        match self.stage {
            StageView::Initializing { input } => ActionView::Initialize(self.delims.tool_delims()),
            StageView::Opening { input } => ActionView::Prompt(input),
            StageView::Requesting => ActionView::Complete,
            StageView::Parsing { text, structured } => ActionView::Parse {
                text,
                delims: self.delims.parser_delims(),
            },
            StageView::Dispatching { content, current, later } => ActionView::Call(current),
            StageView::Deciding { content } => ActionView::Prompt(content),
        }
    }
}

impl AgentView {
    /// The agent after a reply; a finished agent stays as it is.
    pub open spec fn next(self, event: EventView) -> AgentView {
        match self {
            AgentView::Finished(answer) => self,
            AgentView::Active(session) => session.next(event),
        }
    }

    /// Whether the agent is one that a run can reach.
    pub open spec fn well_formed(self) -> bool {
        self matches AgentView::Active(session) ==> session.well_formed()
    }

    /// The request to make next; for a finished agent, to hand out the
    /// answer.
    pub open spec fn pending(self) -> ActionView {
        match self {
            AgentView::Finished(answer) => ActionView::Finish(answer),
            AgentView::Active(session) => session.pending(),
        }
    }
}

/// The agent at the start of a run. With a refused configuration it is
/// finished at once, the failure message being its answer; else it waits for
/// the tooling's preamble, owns a request with the settings, no message yet
/// and streaming on, and has no name for the status tool yet.
pub open spec fn opened(input: Seq<char>, config: Checked<ConfigView>) -> AgentView {
    match config {
        Err(error) => AgentView::Finished(error.message()),
        Ok(config) => AgentView::Active(
            SessionView {
                request: RequestView {
                    api_key: config.api_key,
                    base_url: config.base_url,
                    model: config.model,
                    temperature: config.temperature,
                    top_p: config.top_p,
                    messages: Seq::empty(),
                    stream: true,
                },
                delims: config.delims,
                budget: config.char_limit,
                status_tool: Seq::empty(),
                stage: StageView::Initializing { input },
            },
        ),
    }
}

/// A refused configuration ends the run before any collaborator is asked:
/// the agent is finished from the start, its answer is the failure message,
/// and no reply changes that.
pub proof fn law_refused_configuration(input: Seq<char>, error: ConfigErrorView, event: EventView)
    ensures
        opened(input, Err(error)) == AgentView::Finished(error.message()),
        opened(input, Err(error)).pending() == ActionView::Finish(error.message()),
        opened(input, Err(error)).next(event) == opened(input, Err(error)),
{
}

/// An answer to the input itself ends the run before any completion is asked
/// for: from the start of a run up to that answer the agent asks for the
/// preamble and for the tooling's judgement, and then hands out the answer.
pub proof fn law_immediate_answer(
    input: Seq<char>,
    config: ConfigView,
    preamble: Seq<char>,
    status_tool: Seq<char>,
    answer: Seq<char>,
)
    ensures
        ({
            let started = opened(input, Ok(config));
            let greeted = started.next(EventView::Initialized { preamble, status_tool });
            let answered = greeted.next(EventView::Prompted(Ok(answer)));
            &&& started.pending() == ActionView::Initialize(config.delims.tool_delims())
            &&& greeted.pending() == ActionView::Prompt(input)
            &&& answered == AgentView::Finished(answer)
            &&& answered.pending() == ActionView::Finish(answer)
        }),
{
}

/// A round whose visible content is empty appends no assistant message.
pub proof fn law_empty_content_not_recorded(session: SessionView, event: EventView)
    requires
        session.stage is Parsing,
        event matches EventView::Parsed { content, .. } && trimmed(content).len() == 0,
    ensures
        session.next(event) matches AgentView::Active(after) && after.request.messages
            == session.request.messages,
{
}

/// The agent after the tools answered a run of calls, one after the other.
pub open spec fn after_outcomes(agent: AgentView, outcomes: Seq<ToolOutcomeView>) -> AgentView
    decreases outcomes.len(),
{
    if outcomes.len() == 0 {
        agent
    } else {
        after_outcomes(agent, outcomes.drop_last()).next(EventView::ToolReturned(outcomes.last()))
    }
}

/// The log with the results of the first calls of `calls` appended in order,
/// one for each outcome.
pub open spec fn with_tool_results(
    log: Seq<MessageView>,
    status_tool: Seq<char>,
    calls: Seq<ToolCallView>,
    outcomes: Seq<ToolOutcomeView>,
) -> Seq<MessageView>
    decreases outcomes.len(),
{
    if outcomes.len() == 0 {
        log
    } else {
        with_tool_result(
            with_tool_results(log, status_tool, calls, outcomes.drop_last()),
            status_tool,
            calls[outcomes.len() - 1],
            outcomes.last(),
        )
    }
}

/// The calls of a round are run one by one in their order, and each result
/// is recorded before the next call is made: after as many outcomes as
/// calls were made the log holds just their results, the agent asks for the
/// next call of the queue, and, once the queue is through, for the tooling's
/// judgement of the round's content.
pub proof fn law_calls_run_in_order(
    session: SessionView,
    content: Seq<char>,
    queue: Seq<ToolCallView>,
    outcomes: Seq<ToolOutcomeView>,
)
    requires
        session.stage == dispatch(content, queue),
        outcomes.len() <= queue.len(),
    ensures
        after_outcomes(AgentView::Active(session), outcomes) == AgentView::Active(
            session.moved(
                with_tool_results(
                    session.request.messages,
                    session.status_tool,
                    queue,
                    outcomes,
                ),
                dispatch(content, queue.skip(outcomes.len() as int)),
            ),
        ),
        after_outcomes(AgentView::Active(session), outcomes).pending() == if outcomes.len()
            < queue.len() {
            ActionView::Call(queue[outcomes.len() as int])
        } else {
            ActionView::Prompt(content)
        },
    decreases outcomes.len(),
{
    let done = outcomes.len() as int;
    if done == 0 {
        assert(queue.skip(0) == queue);
    } else {
        law_calls_run_in_order(session, content, queue, outcomes.drop_last());
        let rest = queue.skip(done - 1);
        assert(rest.first() == queue[done - 1]);
        assert(rest.drop_first() == queue.skip(done));
    }
    if done < queue.len() {
        assert(queue.skip(done).first() == queue[done]);
    }
}

/// A run starts in a state that is well formed.
pub proof fn law_opened_well_formed(input: Seq<char>, config: Checked<ConfigView>)
    ensures
        opened(input, config).well_formed(),
{
}

/// Every reply takes a well-formed agent to a well-formed agent.
pub proof fn law_well_formed_kept(agent: AgentView, event: EventView)
    requires
        agent.well_formed(),
    ensures
        agent.next(event).well_formed(),
{
    if let AgentView::Active(session) = agent {
        let log = session.request.messages;
        match (session.stage, event) {
            (StageView::Parsing { text, structured }, EventView::Parsed { content, tool_calls }) => {
                let wanted = is_dispatched(session.status_tool);
                let calls = chosen_calls(structured, tool_calls);
                let queue = dispatchable(calls, session.status_tool);
                assert forall|i: int| 0 <= i < queue.len() implies wanted(#[trigger] queue[i]) by {
                    calls.lemma_filter_pred(wanted, i);
                }
                lemma_dispatch_well_formed(
                    session.moved(with_content(log, trimmed(content)), session.stage),
                    trimmed(content),
                    queue,
                );
            },
            (
                StageView::Dispatching { content, current, later },
                EventView::ToolReturned(outcome),
            ) => {
                lemma_dispatch_well_formed(
                    session.moved(
                        with_tool_result(log, session.status_tool, current, outcome),
                        session.stage,
                    ),
                    content,
                    later,
                );
            },
            (StageView::Deciding { content }, EventView::Prompted(Err(turn))) => {
                law_preamble_kept(with_user_turn(log, turn), session.budget as nat);
            },
            _ => {},
        }
    }
}

/// Moving on with a queue free of the reserved name leaves no call under
/// that name waiting.
proof fn lemma_dispatch_well_formed(session: SessionView, content: Seq<char>, queue: Seq<
    ToolCallView,
>)
    requires
        session.request.stream,
        is_conversation(session.request.messages),
        forall|i: int| 0 <= i < queue.len() ==> (#[trigger] queue[i]).name != session.status_tool,
    ensures
        session.moved(session.request.messages, dispatch(content, queue)).well_formed(),
{
    if queue.len() > 0 {
        let later = queue.drop_first();
        assert forall|i: int| 0 <= i < later.len() implies (#[trigger] later[i]).name
            != session.status_tool by {
            assert(later[i] == queue[i + 1]);
        }
    }
}

/// The reserved name of the status tool is never dispatched: no call that a
/// well-formed agent asks for goes by it.
pub proof fn law_status_tool_never_called(session: SessionView)
    requires
        session.well_formed(),
    ensures
        session.pending() matches ActionView::Call(call) ==> call.name != session.status_tool,
{
}

/// Once the preamble stands in first place no reply moves or changes it:
/// neither what a round appends nor the compaction that ends a round.
pub proof fn law_preamble_fixed(session: SessionView, event: EventView)
    requires
        session.stage !is Initializing,
        session.request.messages.len() > 0,
    ensures
        session.next(event) matches AgentView::Active(after) ==> after.request.messages.len() > 0
            && after.request.messages[0] == session.request.messages[0],
{
    let log = session.request.messages;
    if let (StageView::Deciding { content }, EventView::Prompted(Err(turn))) = (
        session.stage,
        event,
    ) {
        law_preamble_kept(with_user_turn(log, turn), session.budget as nat);
    }
}

/// Within a round the conversation only grows: but for the tooling's
/// preamble, which opens it, and the compaction that ends a round, a reply
/// leaves every message in place and can only append.
pub proof fn law_append_only(session: SessionView, event: EventView)
    requires
        session.stage !is Initializing,
        session.stage !is Deciding,
    ensures
        session.next(event) matches AgentView::Active(after) ==> session.request.messages.is_prefix_of(
            after.request.messages,
        ),
{
}

/// No reply changes the settings of a run, and only the tooling's preamble
/// sets the name of the status tool.
pub proof fn law_settings_fixed(session: SessionView, event: EventView)
    ensures
        session.next(event) matches AgentView::Active(after) ==> after.delims == session.delims
            && after.budget == session.budget && after.request == (RequestView {
            messages: after.request.messages,
            ..session.request
        }) && (after.status_tool == session.status_tool || (session.stage is Initializing
            && event is Initialized)),
{
}

/// A run ends on the tooling's answer and on nothing else: a running agent
/// is finished by a reply exactly if it waits for the tooling's judgement
/// and the reply is a final answer, which is then the agent's answer.
pub proof fn law_finished_by_answer(session: SessionView, event: EventView)
    ensures
        session.next(event) is Finished <==> (session.stage is Opening || session.stage is Deciding)
            && event matches EventView::Prompted(Ok(_)),
        session.next(event) matches AgentView::Finished(answer) ==> event == EventView::Prompted(
            Ok(answer),
        ),
{
}

/// A failed completion changes nothing, so that the identical request is
/// made again.
pub proof fn law_failed_completion_retried(session: SessionView)
    requires
        session.stage is Requesting,
    ensures
        session.next(EventView::CompletionFailed) == AgentView::Active(session),
        session.pending() == ActionView::Complete,
{
}

/// Appending a message to a log appends its content to the log's content.
proof fn lemma_push_view(before: Seq<Message>, after: Seq<Message>, message: Message)
    requires
        after == before.push(message),
    ensures
        Seq::new(after.len(), |i: int| after[i].deep_view()) == Seq::new(
            before.len(),
            |i: int| before[i].deep_view(),
        ).push(message@),
{
}

/// Appends the round's visible content to the log as an assistant message,
/// unless it is empty.
pub fn record_content(log: &mut Vec<Message>, content: &String)
    ensures
        final(log).deep_view() == with_content(old(log).deep_view(), content@),
{
    if !content.as_str().is_empty() {
        log.push(Message::Assistant(content.clone()));
        proof {
            lemma_push_view(old(log)@, log@, Message::Assistant(*content));
        }
    }
}

/// Appends the result of a tool call to the log: the call's canonical record
/// paired with the output, then the status, where there is one, under the
/// reserved name.
pub fn record_tool_result(
    log: &mut Vec<Message>,
    status_tool: &String,
    call: &ToolCall,
    outcome: ToolOutcome,
)
    ensures
        final(log).deep_view() == with_tool_result(
            old(log).deep_view(),
            status_tool@,
            call@,
            outcome@,
        ),
{
    let record = encode_call(call.name.as_str(), call.arguments.as_str());
    let ghost first = Message::ToolCall(record, outcome.output);
    log.push(Message::ToolCall(record, outcome.output));
    proof {
        lemma_push_view(old(log)@, log@, first);
    }
    let ghost recorded = log@;
    if let Some(status) = outcome.status {
        let ghost second = Message::Status(*status_tool, status);
        log.push(Message::Status(status_tool.clone(), status));
        proof {
            lemma_push_view(recorded, log@, second);
        }
    }
}

/// Appends the next user turn to the log, unless it is empty.
pub fn record_user_turn(log: &mut Vec<Message>, turn: String)
    ensures
        final(log).deep_view() == with_user_turn(old(log).deep_view(), turn@),
{
    if !turn.as_str().is_empty() {
        log.push(Message::User(turn));
        proof {
            lemma_push_view(old(log)@, log@, Message::User(turn));
        }
    }
}

/// Picks the calls of a round that are dispatched: all but those under the
/// reserved name of the status tool, in their order.
pub fn queue_calls(calls: Vec<ToolCall>, status_tool: &String) -> (queue: VecDeque<ToolCall>)
    ensures
        queue.deep_view() == dispatchable(calls.deep_view(), status_tool@),
{
    let ghost all = calls.deep_view();
    let ghost wanted = is_dispatched(status_tool@);
    let mut calls = calls;
    let mut queue: VecDeque<ToolCall> = VecDeque::new();
    proof {
        assert(all.skip(all.len() as int) == Seq::<ToolCallView>::empty());
        reveal(Seq::filter);
        assert(queue.deep_view() == Seq::<ToolCallView>::empty());
    }
    while calls.len() > 0
        invariant
            calls.len() <= all.len(),
            calls.deep_view() == all.take(calls.len() as int),
            queue.deep_view() == all.skip(calls.len() as int).filter(wanted),
            wanted == is_dispatched(status_tool@),
        decreases calls.len(),
    {
        let ghost n = calls.len() as int;
        let ghost behind = queue.deep_view();
        let call = calls.pop().unwrap();
        proof {
            assert(all.take(n)[n - 1] == all[n - 1]);
            assert(calls.deep_view() == all.take(n - 1));
            assert(all.skip(n - 1) == seq![all[n - 1]] + all.skip(n));
            all.skip(n).lemma_filter_prepend(all[n - 1], wanted);
        }
        if !(call.name == *status_tool) {
            queue.push_front(call);
            proof {
                assert(queue.deep_view() == seq![all[n - 1]] + behind);
            }
        } else {
            proof {
                assert(Seq::<ToolCallView>::empty() + behind == behind);
            }
        }
    }
    proof {
        assert(all.skip(0) == all);
    }
    queue
}

/// Moves on with the calls still to make: dispatches the first of them, or,
/// with none left, asks for the tooling's judgement of the round's content.
pub fn dispatch_next(content: String, queue: VecDeque<ToolCall>) -> (stage: Stage)
    ensures
        stage@ == dispatch(content@, queue.deep_view()),
{
    let ghost all = queue.deep_view();
    let mut queue = queue;
    match queue.pop_front() {
        Some(current) => {
            proof {
                assert(queue.deep_view() == all.drop_first());
            }
            Stage::Dispatching { content, current, later: queue }
        },
        None => Stage::Deciding { content },
    }
}

impl Session {
    /// The request that the session waits on.
    pub fn pending(&self) -> (action: Action)
        ensures
            action@ == self@.pending(),
    {
        match &self.stage {
            Stage::Initializing { input } => Action::Initialize(self.delims.tool_delims()),
            Stage::Opening { input } => Action::Prompt(input.clone()),
            Stage::Requesting => Action::Complete,
            Stage::Parsing { text, structured } => Action::Parse {
                text: text.clone(),
                delims: self.delims.parser_delims(),
            },
            Stage::Dispatching { content, current, later } => Action::Call(current.duplicate()),
            Stage::Deciding { content } => Action::Prompt(content.clone()),
        }
    }

    /// Takes a reply and moves to the next stage, see [`SessionView::next`].
    pub fn step(self, event: Event) -> (next: Agent)
        ensures
            next@ == self@.next(event@),
    {
        let Session { request, delims, budget, status_tool, stage } = self;
        let mut request = request;
        match (stage, event) {
            (Stage::Initializing { input }, Event::Initialized { preamble, status_tool: name }) => {
                let mut messages: Vec<Message> = Vec::new();
                messages.push(Message::System(preamble));
                proof {
                    assert(messages.deep_view() == seq![MessageView::System(preamble@)]);
                }
                request.messages = messages;
                Agent::Active(
                    Session {
                        request,
                        delims,
                        budget,
                        status_tool: name,
                        stage: Stage::Opening { input },
                    },
                )
            },
            (Stage::Opening { input }, Event::Prompted(Ok(answer))) => Agent::Finished(answer),
            (Stage::Opening { input }, Event::Prompted(Err(turn))) => {
                let ghost before = request.messages@;
                request.messages.push(Message::User(turn));
                proof {
                    lemma_push_view(before, request.messages@, Message::User(turn));
                }
                Agent::Active(
                    Session { request, delims, budget, status_tool, stage: Stage::Requesting },
                )
            },
            (Stage::Requesting, Event::Completed { text, tool_calls }) => Agent::Active(
                Session {
                    request,
                    delims,
                    budget,
                    status_tool,
                    stage: Stage::Parsing { text, structured: tool_calls },
                },
            ),
            (Stage::Parsing { text, structured }, Event::Parsed { content, tool_calls }) => {
                let calls = if structured.len() == 0 {
                    tool_calls
                } else {
                    structured
                };
                let shown = visible(content.as_str());
                record_content(&mut request.messages, &shown);
                let queue = queue_calls(calls, &status_tool);
                let stage = dispatch_next(shown, queue);
                Agent::Active(Session { request, delims, budget, status_tool, stage })
            },
            (Stage::Dispatching { content, current, later }, Event::ToolReturned(outcome)) => {
                record_tool_result(&mut request.messages, &status_tool, &current, outcome);
                let stage = dispatch_next(content, later);
                Agent::Active(Session { request, delims, budget, status_tool, stage })
            },
            (Stage::Deciding { content }, Event::Prompted(Ok(answer))) => Agent::Finished(answer),
            (Stage::Deciding { content }, Event::Prompted(Err(turn))) => {
                let Request { api_key, base_url, model, temperature, top_p, messages, stream } =
                    request;
                let mut messages = messages;
                record_user_turn(&mut messages, turn);
                let messages = prune(messages, budget);
                Agent::Active(
                    Session {
                        request: Request {
                            api_key,
                            base_url,
                            model,
                            temperature,
                            top_p,
                            messages,
                            stream,
                        },
                        delims,
                        budget,
                        status_tool,
                        stage: Stage::Requesting,
                    },
                )
            },
            (stage, _) => Agent::Active(Session { request, delims, budget, status_tool, stage }),
        }
    }
}

impl Agent {
    /// Starts a run on a configuration that was already read: see
    /// [`opened`].
    pub fn open(input: String, config: Result<Config, ConfigError>) -> (agent: Agent)
        ensures
            agent@ == opened(input@, checked_view(config)),
    {
        match config {
            Err(error) => Agent::Finished(error.message()),
            Ok(config) => {
                let Config { base_url, api_key, model, temperature, top_p, delims, char_limit } =
                    config;
                let messages: Vec<Message> = Vec::new();
                proof {
                    assert(messages.deep_view() == Seq::<MessageView>::empty());
                }
                Agent::Active(
                    Session {
                        request: Request {
                            api_key,
                            base_url,
                            model,
                            temperature,
                            top_p,
                            messages,
                            stream: true,
                        },
                        delims,
                        budget: char_limit,
                        status_tool: String::new(),
                        stage: Stage::Initializing { input },
                    },
                )
            },
        }
    }

    /// Starts a run: reads the configuration from its JSON text and opens the
    /// agent on it. A text that is not JSON, or does not have the shape of a
    /// configuration, gives a finished agent whose answer is the failure
    /// message.
    pub fn start(input: String, config_text: &str) -> (agent: Agent)
        ensures
            match document_of(config_text@) {
                Some(document) => agent@ == opened(input@, config_of(document)),
                None => agent@ is Finished,
            },
    {
        Agent::open(input, load(config_text))
    }

    /// The request to make next; for a finished agent, to hand out the
    /// answer.
    pub fn pending(&self) -> (action: Action)
        ensures
            action@ == self@.pending(),
    {
        match self {
            Agent::Finished(answer) => Action::Finish(answer.clone()),
            Agent::Active(session) => session.pending(),
        }
    }

    /// Takes the reply to the pending request and moves on, see
    /// [`AgentView::next`].
    pub fn step(self, event: Event) -> (next: Agent)
        ensures
            next@ == self@.next(event@),
    {
        match self {
            Agent::Finished(answer) => Agent::Finished(answer),
            Agent::Active(session) => session.step(event),
        }
    }
    /// The request that the agent owns, while it runs.
    pub fn request(&self) -> (request: Option<&Request>)
        ensures
            match self {
                Agent::Active(session) => request == Some(&session.request),
                Agent::Finished(_) => request is None,
            },
    {
        match self {
            Agent::Active(session) => Some(&session.request),
            Agent::Finished(_) => None,
        }
    }

    /// The answer, once the agent is finished.
    pub fn answer(&self) -> (answer: Option<&String>)
        ensures
            match self {
                Agent::Finished(text) => answer == Some(text),
                Agent::Active(_) => answer is None,
            },
    {
        match self {
            Agent::Finished(text) => Some(text),
            Agent::Active(_) => None,
        }
    }
}

} // verus!

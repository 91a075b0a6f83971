//! The turn state machine: from the user's input to the final reply.
//!
//! A turn asks the model, runs the tools that the model requests one after
//! the other, feeds the results back and asks again, until the model answers
//! without a tool call or the budget of rounds is spent. The machine decides;
//! its caller performs the calls and hands back what came of them.
//!
//! A round is one model reply with tool calls and the run of those calls. The
//! budget is the number of rounds that a turn may run. When the last round of
//! the budget has run, the turn ends with a notice, without asking the model
//! again. With a budget of zero no tool runs: the first reply that asks for
//! one ends the turn with the same notice. The notice follows the free text
//! that the model wrote in earlier replies of the turn.
//!
//! Where the log is capped, its oldest messages are dropped at the start of
//! the turn. The user's input is never dropped: a cap of zero keeps it too.

use crate::message::{Message, MessageView, Role};
use crate::parser::{parse_tool_calls, parsed, ParsedResponse, ToolCall, ToolCallView};
use crate::prompt::{build_prompt, prompt_text};
use crate::text::{join, join_strings};
use vstd::prelude::*;

verus! {

/// The number of tool rounds that a turn may run by default.
pub const DEFAULT_MAX_TOOL_ROUNDS: usize = 10;

/// The limits of a turn.
#[derive(Clone, Copy, Debug, PartialEq, Eq)]
pub struct TurnConfig {
    /// The number of tool rounds that the turn may run.
    pub max_tool_rounds: usize,
    /// The budget of characters of each prompt.
    pub max_prompt_chars: usize,
    /// The number of characters of a tool result that a prompt shows.
    pub tool_result_chars: usize,
    /// The number of messages that the log keeps, if it is capped.
    pub max_messages: Option<usize>,
}

/// Where a turn stands.
#[derive(Clone, Copy, Debug, PartialEq, Eq, Structural)]
pub enum Phase {
    /// The model has been asked; its reply is awaited.
    AwaitingModel,
    /// A tool has been called; its result is awaited.
    RunningTools,
    /// The turn is over; the log is ready to be stored.
    Finalizing,
}

/// What the caller of the machine has to do next.
#[derive(Debug, PartialEq, Eq)]
pub enum Action {
    /// Ask the model with this prompt.
    CallModel { prompt: String },
    /// Run this tool call.
    CallTool { call: ToolCall },
    /// Store the log and give this reply to the user.
    Finish { reply: String },
}

/// An action as a mathematical value.
pub enum ActionView {
    CallModel { prompt: Seq<char> },
    CallTool { call: ToolCallView },
    Finish { reply: Seq<char> },
}

impl View for Action {
    type V = ActionView;

    open spec fn view(&self) -> ActionView {
        match self {
            Action::CallModel { prompt } => ActionView::CallModel { prompt: prompt@ },
            Action::CallTool { call } => ActionView::CallTool { call: call@ },
            Action::Finish { reply } => ActionView::Finish { reply: reply@ },
        }
    }
}

impl DeepView for Action {
    type V = ActionView;

    open spec fn deep_view(&self) -> ActionView {
        self@
    }
}

/// What came of the action that the machine asked for.
#[derive(Debug, PartialEq, Eq)]
pub enum Event {
    /// The model replied with this text.
    ModelReply { text: String },
    /// The model could not be reached, or failed, with this description.
    ModelError { error: String },
    /// The tool returned this text: its result, or the description of its
    /// failure.
    ToolResult { text: String },
}

/// An event as a mathematical value.
pub enum EventView {
    ModelReply { text: Seq<char> },
    ModelError { error: Seq<char> },
    ToolResult { text: Seq<char> },
}

impl View for Event {
    type V = EventView;

    open spec fn view(&self) -> EventView {
        match self {
            Event::ModelReply { text } => EventView::ModelReply { text: text@ },
            Event::ModelError { error } => EventView::ModelError { error: error@ },
            Event::ToolResult { text } => EventView::ToolResult { text: text@ },
        }
    }
}

/// The state of a turn as a mathematical value.
pub struct TurnView {
    /// The context that starts every prompt of the turn.
    pub context: Seq<char>,
    /// The limits of the turn.
    pub config: TurnConfig,
    /// The log of the conversation.
    pub history: Seq<MessageView>,
    /// The number of tool rounds that may still run.
    pub rounds_remaining: nat,
    /// The free text of the replies that asked for tools, in order.
    pub accumulated: Seq<Seq<char>>,
    /// The tool calls of the current round that have no result yet; the first
    /// is the one that is running.
    pub pending: Seq<ToolCallView>,
    /// Where the turn stands.
    pub phase: Phase,
}

impl TurnView {
    /// What holds of every state that a turn reaches: tools only run while
    /// the budget is not spent, and calls are pending exactly while tools
    /// run.
    pub open spec fn wf(self) -> bool {
        if self.phase == Phase::RunningTools {
            self.rounds_remaining >= 1 && self.pending.len() >= 1
        } else {
            self.pending.len() == 0
        }
    }

    /// The prompt for the model in this state.
    pub open spec fn prompt(self) -> Seq<char> {
        prompt_text(
            self.context,
            self.history,
            self.config.max_prompt_chars as nat,
            self.config.tool_result_chars as nat,
        )
    }

    /// This state with one more message in the log.
    pub open spec fn logged(self, role: Role, content: Seq<char>) -> TurnView {
        TurnView { history: self.history.push(MessageView { role, content }), ..self }
    }
}

/// The notice that ends a turn whose budget of rounds is spent.
pub open spec fn rounds_notice() -> Seq<char> {
    "max tool rounds reached"@
}

/// The words that start the reply of a turn whose model call failed.
pub open spec fn model_failure_prefix() -> Seq<char> {
    "error: LLM call failed: "@
}

/// The separator between the stretches of a final reply.
pub open spec fn paragraph_break() -> Seq<char> {
    "\n\n"@
}

/// `last` behind the accumulated free text, each stretch a paragraph of its
/// own.
pub open spec fn with_accumulated(accumulated: Seq<Seq<char>>, last: Seq<char>) -> Seq<char> {
    if accumulated.len() == 0 {
        last
    } else {
        join(accumulated, paragraph_break()) + paragraph_break() + last
    }
}

/// The text that records a tool call in the log.
pub open spec fn call_record(call: ToolCallView) -> Seq<char> {
    "<tool_call>\n<component>"@ + call.component + "</component>\n<function>"@ + call.function
        + "</function>\n<args>"@ + call.args + "</args>\n</tool_call>"@
}

/// The number of messages that a cap of `cap` keeps: `cap`, but never less
/// than one, so that the newest message always stays.
pub open spec fn kept_under(cap: usize) -> nat {
    if cap == 0 {
        1
    } else {
        cap as nat
    }
}

/// The last messages of `history` that the cap keeps, or all of it if it has
/// no more or there is no cap. The newest message is always kept.
pub open spec fn retained(history: Seq<MessageView>, cap: Option<usize>) -> Seq<MessageView> {
    match cap {
        Some(c) => if history.len() > kept_under(c) {
            history.subrange(history.len() - kept_under(c), history.len() as int)
        } else {
            history
        },
        None => history,
    }
}

/// The state in which a turn starts: the user's input is logged, the oldest
/// messages beyond the cap are dropped, and the model is awaited.
pub open spec fn initial(
    history: Seq<MessageView>,
    input: Seq<char>,
    context: Seq<char>,
    config: TurnConfig,
) -> TurnView {
    TurnView {
        context,
        config,
        history: retained(
            history.push(MessageView { role: Role::User, content: input }),
            config.max_messages,
        ),
        rounds_remaining: config.max_tool_rounds as nat,
        accumulated: seq![],
        pending: seq![],
        phase: Phase::AwaitingModel,
    }
}

/// The end of a turn: `reply` is logged as the assistant's and returned.
pub open spec fn finished(s: TurnView, reply: Seq<char>) -> (TurnView, Option<ActionView>) {
    (
        TurnView { phase: Phase::Finalizing, pending: seq![], ..s.logged(Role::Assistant, reply) },
        Some(ActionView::Finish { reply }),
    )
}

/// The end of a turn whose budget of rounds is spent.
pub open spec fn out_of_rounds(s: TurnView) -> (TurnView, Option<ActionView>) {
    finished(s, with_accumulated(s.accumulated, rounds_notice()))
}

/// What follows a reply of the model.
pub open spec fn after_reply(s: TurnView, text: Seq<char>) -> (TurnView, Option<ActionView>) {
    match parsed(text) {
        None => finished(s, with_accumulated(s.accumulated, text)),
        Some(p) => {
            let noted = match p.surrounding_text {
                Some(t) => TurnView { accumulated: s.accumulated.push(t), ..s.logged(
                    Role::Assistant,
                    t,
                ) },
                None => s,
            };
            if noted.rounds_remaining == 0 {
                out_of_rounds(noted)
            } else {
                (
                    TurnView {
                        phase: Phase::RunningTools,
                        pending: p.tool_calls,
                        ..noted.logged(Role::ToolCall, call_record(p.tool_calls[0]))
                    },
                    Some(ActionView::CallTool { call: p.tool_calls[0] }),
                )
            }
        },
    }
}

/// What follows a failure of the model call: the turn ends with the error as
/// its reply, and the log stays as it is.
pub open spec fn after_model_error(s: TurnView, error: Seq<char>) -> (
    TurnView,
    Option<ActionView>,
) {
    (
        TurnView { phase: Phase::Finalizing, ..s },
        Some(ActionView::Finish { reply: model_failure_prefix() + error }),
    )
}

/// What follows the result of the running tool call.
pub open spec fn after_tool_result(s: TurnView, text: Seq<char>) -> (TurnView, Option<ActionView>) {
    let logged = s.logged(Role::ToolResult, text);
    let rest = s.pending.drop_first();
    if rest.len() > 0 {
        (
            TurnView { pending: rest, ..logged.logged(Role::ToolCall, call_record(rest[0])) },
            Some(ActionView::CallTool { call: rest[0] }),
        )
    } else {
        let spent = TurnView {
            pending: rest,
            rounds_remaining: (s.rounds_remaining - 1) as nat,
            ..logged
        };
        if spent.rounds_remaining == 0 {
            out_of_rounds(spent)
        } else {
            let asking = TurnView { phase: Phase::AwaitingModel, ..spent };
            (asking, Some(ActionView::CallModel { prompt: asking.prompt() }))
        }
    }
}

/// The state after `event` and the action that it calls for. An event that
/// the phase does not await changes nothing and calls for no action.
pub open spec fn transition(s: TurnView, event: EventView) -> (TurnView, Option<ActionView>) {
    match event {
        EventView::ModelReply { text } => if s.phase == Phase::AwaitingModel {
            after_reply(s, text)
        } else {
            (s, None)
        },
        EventView::ModelError { error } => if s.phase == Phase::AwaitingModel {
            after_model_error(s, error)
        } else {
            (s, None)
        },
        EventView::ToolResult { text } => if s.phase == Phase::RunningTools {
            after_tool_result(s, text)
        } else {
            (s, None)
        },
    }
}

/// The state after a run of events, and the actions that it called for.
pub open spec fn run(s: TurnView, events: Seq<EventView>) -> (TurnView, Seq<ActionView>)
    decreases events.len(),
{
    if events.len() == 0 {
        (s, seq![])
    } else {
        let (t, action) = transition(s, events[0]);
        let (u, later) = run(t, events.drop_first());
        (
            u,
            match action {
                Some(a) => seq![a] + later,
                None => later,
            },
        )
    }
}

/// The number of model calls among `actions`.
pub open spec fn model_calls(actions: Seq<ActionView>) -> nat
    decreases actions.len(),
{
    if actions.len() == 0 {
        0
    } else {
        model_calls(actions.drop_first()) + if actions[0] is CallModel {
            1nat
        } else {
            0nat
        }
    }
}

/// The number of tool calls among `actions`.
pub open spec fn tool_calls(actions: Seq<ActionView>) -> nat
    decreases actions.len(),
{
    if actions.len() == 0 {
        0
    } else {
        tool_calls(actions.drop_first()) + if actions[0] is CallTool {
            1nat
        } else {
            0nat
        }
    }
}

/// The number of model calls that a turn in state `s` may still ask for,
/// beyond the one that it may be waiting for.
pub open spec fn model_calls_left(s: TurnView) -> nat {
    if s.phase == Phase::Finalizing || s.rounds_remaining == 0 {
        0
    } else {
        (s.rounds_remaining - 1) as nat
    }
}

/// Every step keeps the state well formed, keeps the log and the accumulated
/// text as they were but for what it appends, never raises the budget, and
/// leaves a finished turn as it is.
pub proof fn lemma_transition(s: TurnView, event: EventView)
    requires
        s.wf(),
    ensures
        ({
            let (t, action) = transition(s, event);
            &&& t.wf()
            &&& t.context == s.context
            &&& t.config == s.config
            &&& s.history.is_prefix_of(t.history)
            &&& s.accumulated.is_prefix_of(t.accumulated)
            &&& t.rounds_remaining <= s.rounds_remaining
            &&& s.phase == Phase::Finalizing ==> t == s && action is None
            &&& action matches Some(a) ==> {
                &&& a is Finish <==> t.phase == Phase::Finalizing
                &&& a is CallModel <==> t.phase == Phase::AwaitingModel
                &&& a is CallTool <==> t.phase == Phase::RunningTools
                &&& a is CallModel ==> t.rounds_remaining + 1 == s.rounds_remaining
            }
        }),
{
}

/// A turn asks the model no more often than its budget of rounds allows:
/// over any run of events from a state `s`, the model calls that the machine
/// asks for are at most `model_calls_left(s)`. From the start of a turn these
/// are one less than the budget of rounds, the first call being the one that
/// the start itself asks for.
pub proof fn lemma_model_calls_bounded(s: TurnView, events: Seq<EventView>)
    requires
        s.wf(),
    ensures
        run(s, events).0.wf(),
        model_calls(run(s, events).1) <= model_calls_left(s),
    decreases events.len(),
{
    if events.len() > 0 {
        let (t, action) = transition(s, events[0]);
        lemma_transition(s, events[0]);
        lemma_model_calls_bounded(t, events.drop_first());
        let later = run(t, events.drop_first()).1;
        match action {
            Some(a) => {
                assert((seq![a] + later).drop_first() =~= later);
            },
            None => {},
        }
    }
}

/// With a budget of one round, the machine never asks the model again after
/// the start of the turn, whatever the replies and results are.
pub proof fn lemma_single_round(
    history: Seq<MessageView>,
    input: Seq<char>,
    context: Seq<char>,
    config: TurnConfig,
    events: Seq<EventView>,
)
    requires
        config.max_tool_rounds <= 1,
    ensures
        model_calls(run(initial(history, input, context, config), events).1) == 0,
{
    lemma_model_calls_bounded(initial(history, input, context, config), events);
}

/// The user's input is never lost: whatever the cap of the log is, the log
/// with which a turn starts ends with the input, and no step of the turn
/// takes it out again.
pub proof fn lemma_input_is_kept(
    history: Seq<MessageView>,
    input: Seq<char>,
    context: Seq<char>,
    config: TurnConfig,
    events: Seq<EventView>,
)
    ensures
        ({
            let start = initial(history, input, context, config);
            let end = run(start, events).0;
            &&& start.wf()
            &&& start.history.len() >= 1
            &&& start.history.last() == (MessageView { role: Role::User, content: input })
            &&& start.history.is_prefix_of(end.history)
        }),
{
    let start = initial(history, input, context, config);
    lemma_history_grows(start, events);
}

/// The log only grows: the log before a run of events starts the log after
/// it.
pub proof fn lemma_history_grows(s: TurnView, events: Seq<EventView>)
    requires
        s.wf(),
    ensures
        run(s, events).0.wf(),
        s.history.is_prefix_of(run(s, events).0.history),
    decreases events.len(),
{
    if events.len() > 0 {
        let (t, action) = transition(s, events[0]);
        lemma_transition(s, events[0]);
        lemma_history_grows(t, events.drop_first());
    }
}

/// Without a budget of rounds no tool runs: from a state whose budget is
/// spent and in which no tool is running, the machine asks for no tool call,
/// whatever the events are. A turn that starts with a budget of zero is in
/// such a state.
pub proof fn lemma_no_tools_without_budget(s: TurnView, events: Seq<EventView>)
    requires
        s.wf(),
        s.rounds_remaining == 0,
    ensures
        tool_calls(run(s, events).1) == 0,
    decreases events.len(),
{
    if events.len() > 0 {
        let (t, action) = transition(s, events[0]);
        lemma_transition(s, events[0]);
        lemma_no_tools_without_budget(t, events.drop_first());
        let later = run(t, events.drop_first()).1;
        match action {
            Some(a) => {
                assert((seq![a] + later).drop_first() =~= later);
            },
            None => {},
        }
    }
}

/// One turn of the conversation in progress.
#[derive(Debug)]
pub struct Turn {
    context: String,
    config: TurnConfig,
    history: Vec<Message>,
    rounds_remaining: usize,
    accumulated_text: Vec<String>,
    calls: Vec<ToolCall>,
    answered: usize,
    phase: Phase,
}

impl View for Turn {
    type V = TurnView;

    closed spec fn view(&self) -> TurnView {
        TurnView {
            context: self.context@,
            config: self.config,
            history: self.history.deep_view(),
            rounds_remaining: self.rounds_remaining as nat,
            accumulated: self.accumulated_text.deep_view(),
            pending: self.calls.deep_view().skip(self.answered as int),
            phase: self.phase,
        }
    }
}

/// `last` behind the accumulated free text, each stretch a paragraph of its
/// own.
pub fn compose_reply(accumulated: &Vec<String>, last: &str) -> (r: String)
    ensures
        r@ == with_accumulated(accumulated.deep_view(), last@),
{
    if accumulated.len() == 0 {
        last.to_owned()
    } else {
        let mut out = join_strings(accumulated, "\n\n");
        out.append("\n\n");
        out.append(last);
        out
    }
}

/// The text that records `call` in the log.
pub fn format_call_record(call: &ToolCall) -> (r: String)
    ensures
        r@ == call_record(call@),
{
    let mut out = "<tool_call>\n<component>".to_owned();
    out.append(call.component.as_str());
    out.append("</component>\n<function>");
    out.append(call.function.as_str());
    out.append("</function>\n<args>");
    out.append(call.args.as_str());
    out.append("</args>\n</tool_call>");
    out
}

/// Drops the oldest messages of `history` beyond `cap`, but never the
/// newest.
pub fn evict_oldest(history: Vec<Message>, cap: Option<usize>) -> (r: Vec<Message>)
    ensures
        r.deep_view() == retained(history.deep_view(), cap),
{
    match cap {
        Some(c) => {
            let keep: usize = if c == 0 {
                1
            } else {
                c
            };
            if history.len() > keep {
                let mut history = history;
                let ghost all = history.deep_view();
                let at = history.len() - keep;
                let kept = history.split_off(at);
                assert(kept.deep_view() =~= all.subrange(at as int, all.len() as int));
                kept
            } else {
                history
            }
        },
        None => history,
    }
}

impl Turn {
    #[verifier::type_invariant]
    spec fn inv(self) -> bool {
        &&& self.answered <= self.calls.len()
        &&& self@.wf()
    }

    /// Starts a turn: logs the user's input behind `history`, drops the
    /// oldest messages beyond the cap, and asks for the first model call.
    pub fn begin(history: Vec<Message>, input: String, context: String, config: TurnConfig) -> (r: (
        Turn,
        Action,
    ))
        ensures
            r.0@ == initial(history.deep_view(), input@, context@, config),
            r.1@ == (ActionView::CallModel { prompt: r.0@.prompt() }),
            r.0@.wf(),
            r.0@.history.len() >= 1,
            r.0@.history.last() == (MessageView { role: Role::User, content: input@ }),
    {
        let ghost before = history.deep_view();
        let mut history = history;
        history.push(Message { role: Role::User, content: input });
        assert(history.deep_view() =~= before.push(
            MessageView { role: Role::User, content: input@ },
        ));
        let history = evict_oldest(history, config.max_messages);
        let prompt = build_prompt(
            context.as_str(),
            &history,
            config.max_prompt_chars,
            config.tool_result_chars,
        );
        let turn = Turn {
            context,
            config,
            history,
            rounds_remaining: config.max_tool_rounds,
            accumulated_text: Vec::new(),
            calls: Vec::new(),
            answered: 0,
            phase: Phase::AwaitingModel,
        };
        assert(turn@.accumulated =~= seq![]);
        assert(turn@.pending =~= seq![]);
        (turn, Action::CallModel { prompt })
    }

    /// Where the turn stands.
    pub fn phase(&self) -> (r: Phase)
        ensures
            r == self@.phase,
    {
        self.phase
    }

    /// The number of tool rounds that may still run.
    pub fn rounds_remaining(&self) -> (r: usize)
        ensures
            r == self@.rounds_remaining,
    {
        self.rounds_remaining
    }

    /// The log of the conversation as it stands.
    pub fn history(&self) -> (r: &Vec<Message>)
        ensures
            r.deep_view() == self@.history,
    {
        &self.history
    }

    /// Ends the use of the turn and hands out its log.
    pub fn into_history(self) -> (r: Vec<Message>)
        ensures
            r.deep_view() == self@.history,
    {
        self.history
    }

    /// Takes what came of the last action and decides the next one. An event
    /// that the phase does not await changes nothing and returns `None`.
    pub fn step(self, event: Event) -> (r: (Turn, Option<Action>))
        ensures
            (r.0@, r.1.deep_view()) == transition(self@, event@),
            r.0@.wf(),
    {
        proof {
            use_type_invariant(&self);
            lemma_transition(self@, event@);
        }
        match event {
            Event::ModelReply { text } => {
                if self.phase == Phase::AwaitingModel {
                    self.on_model_reply(text)
                } else {
                    (self, None)
                }
            },
            Event::ModelError { error } => {
                if self.phase == Phase::AwaitingModel {
                    self.on_model_error(error)
                } else {
                    (self, None)
                }
            },
            Event::ToolResult { text } => {
                if self.phase == Phase::RunningTools {
                    self.on_tool_result(text)
                } else {
                    (self, None)
                }
            },
        }
    }

    fn finish(self, reply: String) -> (r: (Turn, Option<Action>))
        ensures
            (r.0@, r.1.deep_view()) == finished(self@, reply@),
    {
        proof {
            use_type_invariant(&self);
        }
        let ghost before = self@;
        let Turn { context, config, history, rounds_remaining, accumulated_text, calls, answered, phase } =
            self;
        let mut history = history;
        history.push(Message { role: Role::Assistant, content: reply.clone() });
        assert(history.deep_view() =~= before.history.push(
            MessageView { role: Role::Assistant, content: reply@ },
        ));
        let turn = Turn {
            context,
            config,
            history,
            rounds_remaining,
            accumulated_text,
            calls: Vec::new(),
            answered: 0,
            phase: Phase::Finalizing,
        };
        assert(turn@.pending =~= seq![]);
        (turn, Some(Action::Finish { reply }))
    }

    fn finish_out_of_rounds(self) -> (r: (Turn, Option<Action>))
        ensures
            (r.0@, r.1.deep_view()) == out_of_rounds(self@),
    {
        let reply = compose_reply(&self.accumulated_text, "max tool rounds reached");
        self.finish(reply)
    }

    fn on_model_error(self, error: String) -> (r: (Turn, Option<Action>))
        requires
            self@.phase == Phase::AwaitingModel,
        ensures
            (r.0@, r.1.deep_view()) == after_model_error(self@, error@),
    {
        proof {
            use_type_invariant(&self);
        }
        let Turn { context, config, history, rounds_remaining, accumulated_text, calls, answered, phase } =
            self;
        let mut reply = "error: LLM call failed: ".to_owned();
        reply.append(error.as_str());
        let turn = Turn {
            context,
            config,
            history,
            rounds_remaining,
            accumulated_text,
            calls,
            answered,
            phase: Phase::Finalizing,
        };
        (turn, Some(Action::Finish { reply }))
    }

    fn on_model_reply(self, text: String) -> (r: (Turn, Option<Action>))
        requires
            self@.phase == Phase::AwaitingModel,
        ensures
            (r.0@, r.1.deep_view()) == after_reply(self@, text@),
    {
        proof {
            use_type_invariant(&self);
        }
        let ghost before = self@;
        match parse_tool_calls(text.as_str()) {
            None => {
                let reply = compose_reply(&self.accumulated_text, text.as_str());
                self.finish(reply)
            },
            Some(p) => {
                let Turn {
                    context,
                    config,
                    history,
                    rounds_remaining,
                    accumulated_text,
                    calls,
                    answered,
                    phase,
                } = self;
                let mut history = history;
                let mut accumulated_text = accumulated_text;
                let ParsedResponse { tool_calls, surrounding_text } = p;
                match surrounding_text {
                    Some(t) => {
                        history.push(Message { role: Role::Assistant, content: t.clone() });
                        accumulated_text.push(t);
                        assert(history.deep_view() =~= before.history.push(
                            MessageView { role: Role::Assistant, content: t@ },
                        ));
                        assert(accumulated_text.deep_view() =~= before.accumulated.push(t@));
                    },
                    None => {},
                }
                if rounds_remaining == 0 {
                    let noted = Turn {
                        context,
                        config,
                        history,
                        rounds_remaining,
                        accumulated_text,
                        calls,
                        answered,
                        phase,
                    };
                    noted.finish_out_of_rounds()
                } else {
                    let ghost logged = history.deep_view();
                    let first = tool_calls[0].clone();
                    history.push(
                        Message { role: Role::ToolCall, content: format_call_record(&first) },
                    );
                    assert(history.deep_view() =~= logged.push(
                        MessageView { role: Role::ToolCall, content: call_record(first@) },
                    ));
                    assert(tool_calls.deep_view().skip(0) =~= tool_calls.deep_view());
                    let turn = Turn {
                        context,
                        config,
                        history,
                        rounds_remaining,
                        accumulated_text,
                        calls: tool_calls,
                        answered: 0,
                        phase: Phase::RunningTools,
                    };
                    (turn, Some(Action::CallTool { call: first }))
                }
            },
        }
    }

    fn on_tool_result(self, text: String) -> (r: (Turn, Option<Action>))
        requires
            self@.phase == Phase::RunningTools,
        ensures
            (r.0@, r.1.deep_view()) == after_tool_result(self@, text@),
    {
        proof {
            use_type_invariant(&self);
        }
        let ghost before = self@;
        let Turn { context, config, history, rounds_remaining, accumulated_text, calls, answered, phase } =
            self;
        let mut history = history;
        history.push(Message { role: Role::ToolResult, content: text });
        let ghost logged = history.deep_view();
        assert(logged =~= before.history.push(
            MessageView { role: Role::ToolResult, content: text@ },
        ));
        let answered = answered + 1;
        assert(calls.deep_view().skip(answered as int) =~= before.pending.drop_first());
        if answered < calls.len() {
            let next = calls[answered].clone();
            history.push(Message { role: Role::ToolCall, content: format_call_record(&next) });
            assert(history.deep_view() =~= logged.push(
                MessageView { role: Role::ToolCall, content: call_record(next@) },
            ));
            let turn = Turn {
                context,
                config,
                history,
                rounds_remaining,
                accumulated_text,
                calls,
                answered,
                phase,
            };
            (turn, Some(Action::CallTool { call: next }))
        } else {
            let rounds_remaining = rounds_remaining - 1;
            if rounds_remaining == 0 {
                let spent = Turn {
                    context,
                    config,
                    history,
                    rounds_remaining,
                    accumulated_text,
                    calls: Vec::new(),
                    answered: 0,
                    phase: Phase::Finalizing,
                };
                assert(spent@.pending =~= before.pending.drop_first());
                let (done, action) = spent.finish_out_of_rounds();
                (done, action)
            } else {
                let prompt = build_prompt(
                    context.as_str(),
                    &history,
                    config.max_prompt_chars,
                    config.tool_result_chars,
                );
                let turn = Turn {
                    context,
                    config,
                    history,
                    rounds_remaining,
                    accumulated_text,
                    calls: Vec::new(),
                    answered: 0,
                    phase: Phase::AwaitingModel,
                };
                assert(turn@.pending =~= before.pending.drop_first());
                (turn, Some(Action::CallModel { prompt }))
            }
        }
    }
}

} // verus!

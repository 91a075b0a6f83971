use asterbot::message::{Message, Role};
use asterbot::orchestrator::{
    compose_reply, evict_oldest, format_call_record, Action, Event, Phase, Turn, TurnConfig,
    DEFAULT_MAX_TOOL_ROUNDS,
};
use asterbot::parser::ToolCall;

const ONE_CALL: &str =
    "<tool_call><component>a</component><function>f/x</function><args>[1]</args></tool_call>";
const RECORD: &str =
    "<tool_call>\n<component>a</component>\n<function>f/x</function>\n<args>[1]</args>\n</tool_call>";

fn config(rounds: usize) -> TurnConfig {
    TurnConfig {
        max_tool_rounds: rounds,
        max_prompt_chars: 10_000,
        tool_result_chars: 2000,
        max_messages: None,
    }
}

fn msg(role: Role, content: &str) -> Message {
    Message::new(role, content.to_string())
}

fn reply(text: &str) -> Event {
    Event::ModelReply { text: text.to_string() }
}

fn result(text: &str) -> Event {
    Event::ToolResult { text: text.to_string() }
}

fn call_a() -> ToolCall {
    ToolCall { component: "a".into(), function: "f/x".into(), args: "[1]".into() }
}

#[test]
fn default_round_budget_is_ten() {
    assert_eq!(DEFAULT_MAX_TOOL_ROUNDS, 10);
}

#[test]
fn begin_logs_the_input_and_asks_the_model() {
    let (turn, action) = Turn::begin(vec![msg(Role::User, "old")], "hi".into(), "ctx".into(), config(3));
    assert_eq!(turn.phase(), Phase::AwaitingModel);
    assert_eq!(turn.rounds_remaining(), 3);
    assert_eq!(turn.history(), &vec![msg(Role::User, "old"), msg(Role::User, "hi")]);
    assert_eq!(
        action,
        Action::CallModel { prompt: "ctx\n\nConversation:\nuser: old\nuser: hi\n".into() }
    );
}

#[test]
fn final_answer_ends_the_turn() {
    let (turn, _) = Turn::begin(vec![], "hi".into(), "ctx".into(), config(3));
    let (turn, action) = turn.step(reply("Hello there."));
    assert_eq!(action, Some(Action::Finish { reply: "Hello there.".into() }));
    assert_eq!(turn.phase(), Phase::Finalizing);
    assert_eq!(
        turn.into_history(),
        vec![msg(Role::User, "hi"), msg(Role::Assistant, "Hello there.")]
    );
}

#[test]
fn model_failure_ends_the_turn_and_keeps_the_log() {
    let (turn, _) = Turn::begin(vec![], "hi".into(), "ctx".into(), config(3));
    let (turn, action) = turn.step(Event::ModelError { error: "Timeout: slow".into() });
    assert_eq!(
        action,
        Some(Action::Finish { reply: "error: LLM call failed: Timeout: slow".into() })
    );
    assert_eq!(turn.phase(), Phase::Finalizing);
    assert_eq!(turn.into_history(), vec![msg(Role::User, "hi")]);
}

#[test]
fn tool_round_then_answer() {
    let (turn, _) = Turn::begin(vec![], "hi".into(), "c".into(), config(3));
    let text = format!("Let me check.\n{ONE_CALL}");
    let (turn, action) = turn.step(reply(&text));
    assert_eq!(action, Some(Action::CallTool { call: call_a() }));
    assert_eq!(turn.phase(), Phase::RunningTools);
    assert_eq!(turn.rounds_remaining(), 3);
    let (turn, action) = turn.step(result("42"));
    assert_eq!(turn.phase(), Phase::AwaitingModel);
    assert_eq!(turn.rounds_remaining(), 2);
    let prompt = format!(
        "c\n\nConversation:\nuser: hi\nassistant: Let me check.\ntool_call: {RECORD}\ntool_result: 42\n"
    );
    assert_eq!(action, Some(Action::CallModel { prompt }));
    let (turn, action) = turn.step(reply("It is 42."));
    assert_eq!(
        action,
        Some(Action::Finish { reply: "Let me check.\n\nIt is 42.".into() })
    );
    assert_eq!(
        turn.into_history(),
        vec![
            msg(Role::User, "hi"),
            msg(Role::Assistant, "Let me check."),
            msg(Role::ToolCall, RECORD),
            msg(Role::ToolResult, "42"),
            msg(Role::Assistant, "Let me check.\n\nIt is 42."),
        ]
    );
}

#[test]
fn several_calls_of_a_round_run_in_order() {
    let two = "<tool_call><component>a</component><function>f/x</function><args>[1]</args></tool_call><tool_call><component>b</component><function>g/y</function></tool_call>";
    let (turn, _) = Turn::begin(vec![], "hi".into(), "c".into(), config(2));
    let (turn, action) = turn.step(reply(two));
    assert_eq!(action, Some(Action::CallTool { call: call_a() }));
    let (turn, action) = turn.step(result("one"));
    assert_eq!(
        action,
        Some(Action::CallTool {
            call: ToolCall { component: "b".into(), function: "g/y".into(), args: "{}".into() }
        })
    );
    assert_eq!(turn.phase(), Phase::RunningTools);
    assert_eq!(turn.rounds_remaining(), 2);
    let (turn, action) = turn.step(result("two"));
    assert!(matches!(action, Some(Action::CallModel { .. })));
    assert_eq!(turn.rounds_remaining(), 1);
    let roles: Vec<Role> = turn.history().iter().map(|m| m.role).collect();
    assert_eq!(
        roles,
        vec![Role::User, Role::ToolCall, Role::ToolResult, Role::ToolCall, Role::ToolResult]
    );
    assert_eq!(turn.history()[2].content, "one");
    assert_eq!(turn.history()[4].content, "two");
}

#[test]
fn one_round_budget_ends_after_one_tool_round() {
    let (mut turn, mut action) = {
        let (t, a) = Turn::begin(vec![], "hi".into(), "c".into(), config(1));
        (t, Some(a))
    };
    let mut model_calls = 0;
    let mut tool_calls = 0;
    let final_reply = loop {
        match action {
            Some(Action::CallModel { .. }) => {
                model_calls += 1;
                let (t, a) = turn.step(reply(ONE_CALL));
                turn = t;
                action = a;
            }
            Some(Action::CallTool { .. }) => {
                tool_calls += 1;
                let (t, a) = turn.step(result("r"));
                turn = t;
                action = a;
            }
            Some(Action::Finish { reply }) => break reply,
            None => panic!("the machine asked for nothing"),
        }
    };
    assert_eq!(model_calls, 1);
    assert_eq!(tool_calls, 1);
    assert_eq!(final_reply, "max tool rounds reached");
    assert_eq!(turn.phase(), Phase::Finalizing);
    assert_eq!(turn.rounds_remaining(), 0);
    assert_eq!(
        turn.into_history(),
        vec![
            msg(Role::User, "hi"),
            msg(Role::ToolCall, RECORD),
            msg(Role::ToolResult, "r"),
            msg(Role::Assistant, "max tool rounds reached"),
        ]
    );
}

#[test]
fn model_is_asked_no_more_often_than_the_budget() {
    for rounds in [1usize, 2, 3, 7] {
        let (t, a) = Turn::begin(vec![], "hi".into(), "c".into(), config(rounds));
        let mut turn = t;
        let mut action = Some(a);
        let mut model_calls = 0;
        loop {
            match action {
                Some(Action::CallModel { .. }) => {
                    model_calls += 1;
                    let (t, a) = turn.step(reply(&format!("note\n{ONE_CALL}")));
                    turn = t;
                    action = a;
                }
                Some(Action::CallTool { .. }) => {
                    let (t, a) = turn.step(result("r"));
                    turn = t;
                    action = a;
                }
                Some(Action::Finish { reply }) => {
                    let notes = vec!["note"; rounds].join("\n\n");
                    assert_eq!(reply, format!("{notes}\n\nmax tool rounds reached"));
                    break;
                }
                None => panic!("the machine asked for nothing"),
            }
        }
        assert_eq!(model_calls, rounds);
    }
}

#[test]
fn zero_round_budget_runs_no_tool() {
    let (turn, _) = Turn::begin(vec![], "hi".into(), "c".into(), config(0));
    let (turn, action) = turn.step(reply(&format!("thinking {ONE_CALL}")));
    assert_eq!(
        action,
        Some(Action::Finish { reply: "thinking\n\nmax tool rounds reached".into() })
    );
    assert_eq!(
        turn.into_history(),
        vec![
            msg(Role::User, "hi"),
            msg(Role::Assistant, "thinking"),
            msg(Role::Assistant, "thinking\n\nmax tool rounds reached"),
        ]
    );
}

#[test]
fn zero_round_budget_still_takes_a_plain_answer() {
    let (turn, _) = Turn::begin(vec![], "hi".into(), "c".into(), config(0));
    let (_, action) = turn.step(reply("fine"));
    assert_eq!(action, Some(Action::Finish { reply: "fine".into() }));
}

#[test]
fn events_that_are_not_awaited_change_nothing() {
    let (turn, _) = Turn::begin(vec![], "hi".into(), "c".into(), config(2));
    let (turn, action) = turn.step(result("stray"));
    assert_eq!(action, None);
    assert_eq!(turn.phase(), Phase::AwaitingModel);
    assert_eq!(turn.history(), &vec![msg(Role::User, "hi")]);
    let (turn, _) = turn.step(reply(ONE_CALL));
    let (turn, action) = turn.step(reply("stray"));
    assert_eq!(action, None);
    assert_eq!(turn.phase(), Phase::RunningTools);
    let (turn, action) = turn.step(Event::ModelError { error: "stray".into() });
    assert_eq!(action, None);
    assert_eq!(turn.history().len(), 2);
    let (turn, _) = turn.step(result("r"));
    let (turn, _) = turn.step(reply("done"));
    assert_eq!(turn.phase(), Phase::Finalizing);
    let (turn, action) = turn.step(reply("again"));
    assert_eq!(action, None);
    let (turn, action) = turn.step(result("again"));
    assert_eq!(action, None);
    assert_eq!(turn.history().len(), 4);
}

#[test]
fn oldest_messages_are_evicted_beyond_the_cap() {
    let history = vec![msg(Role::User, "1"), msg(Role::Assistant, "2"), msg(Role::User, "3")];
    let mut cfg = config(2);
    cfg.max_messages = Some(2);
    let (turn, action) = Turn::begin(history, "4".into(), "c".into(), cfg);
    assert_eq!(turn.history(), &vec![msg(Role::User, "3"), msg(Role::User, "4")]);
    assert_eq!(
        action,
        Action::CallModel { prompt: "c\n\nConversation:\nuser: 3\nuser: 4\n".into() }
    );
}

#[test]
fn eviction_keeps_a_log_within_the_cap() {
    let log = || vec![msg(Role::User, "1"), msg(Role::Assistant, "2")];
    assert_eq!(evict_oldest(log(), None), log());
    assert_eq!(evict_oldest(log(), Some(2)), log());
    assert_eq!(evict_oldest(log(), Some(5)), log());
    assert_eq!(evict_oldest(log(), Some(1)), vec![msg(Role::Assistant, "2")]);
    assert_eq!(evict_oldest(log(), Some(0)), vec![msg(Role::Assistant, "2")]);
    assert_eq!(evict_oldest(vec![], Some(0)), vec![]);
}

#[test]
fn replies_are_composed_with_blank_lines() {
    assert_eq!(compose_reply(&vec![], "end"), "end");
    assert_eq!(compose_reply(&vec!["a".to_string()], "end"), "a\n\nend");
    assert_eq!(
        compose_reply(&vec!["a".to_string(), "b".to_string()], "end"),
        "a\n\nb\n\nend"
    );
}

#[test]
fn call_record_has_the_protocol_form() {
    assert_eq!(format_call_record(&call_a()), RECORD);
}

#[test]
fn a_cap_of_zero_keeps_the_input() {
    let mut cfg = config(2);
    cfg.max_messages = Some(0);
    let history = vec![msg(Role::User, "1"), msg(Role::Assistant, "2")];
    let (turn, action) = Turn::begin(history, "3".into(), "c".into(), cfg);
    assert_eq!(turn.history(), &vec![msg(Role::User, "3")]);
    assert_eq!(action, Action::CallModel { prompt: "c\n\nConversation:\nuser: 3\n".into() });
    let (turn, _) = turn.step(reply("ok"));
    assert_eq!(turn.into_history(), vec![msg(Role::User, "3"), msg(Role::Assistant, "ok")]);
}

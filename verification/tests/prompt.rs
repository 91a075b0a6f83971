use asterbot::message::{Message, Role};
use asterbot::prompt::{
    build_prompt, render_message, truncate_tool_result, DEFAULT_MAX_PROMPT_CHARS,
    TOOL_RESULT_TRUNCATE_CHARS,
};

fn msg(role: Role, content: &str) -> Message {
    Message::new(role, content.to_string())
}

#[test]
fn defaults_have_their_values() {
    assert_eq!(TOOL_RESULT_TRUNCATE_CHARS, 2000);
    assert_eq!(DEFAULT_MAX_PROMPT_CHARS, 500_000);
}

#[test]
fn short_tool_result_is_left_alone() {
    assert_eq!(truncate_tool_result("abc", 3), "abc");
    assert_eq!(truncate_tool_result("ab", 3), "ab");
    assert_eq!(truncate_tool_result("", 0), "");
    let exactly = "x".repeat(2000);
    assert_eq!(truncate_tool_result(&exactly, 2000), exactly);
}

#[test]
fn long_tool_result_is_cut_and_marked() {
    assert_eq!(truncate_tool_result("abcd", 3), "abc... (truncated)");
    assert_eq!(truncate_tool_result("abcd", 0), "... (truncated)");
    let long = "y".repeat(2001);
    let cut = truncate_tool_result(&long, 2000);
    assert_eq!(cut, format!("{}... (truncated)", "y".repeat(2000)));
}

#[test]
fn truncation_counts_characters() {
    assert_eq!(truncate_tool_result("äöüß", 2), "äö... (truncated)");
    assert_eq!(truncate_tool_result("äöüß", 4), "äöüß");
}

#[test]
fn messages_render_as_role_and_content() {
    assert_eq!(render_message(&msg(Role::User, "hi"), 2000), "user: hi\n");
    assert_eq!(render_message(&msg(Role::Assistant, "yo"), 2000), "assistant: yo\n");
    assert_eq!(render_message(&msg(Role::ToolCall, "c"), 2000), "tool_call: c\n");
    assert_eq!(render_message(&msg(Role::ToolResult, "r"), 2000), "tool_result: r\n");
}

#[test]
fn only_tool_results_are_truncated() {
    assert_eq!(
        render_message(&msg(Role::ToolResult, "abcdef"), 3),
        "tool_result: abc... (truncated)\n"
    );
    assert_eq!(render_message(&msg(Role::User, "abcdef"), 3), "user: abcdef\n");
    assert_eq!(render_message(&msg(Role::Assistant, "abcdef"), 3), "assistant: abcdef\n");
    assert_eq!(render_message(&msg(Role::ToolCall, "abcdef"), 3), "tool_call: abcdef\n");
}

#[test]
fn prompt_without_history_is_context_and_header() {
    assert_eq!(build_prompt("ctx", &vec![], 1000, 2000), "ctx\n\nConversation:\n");
    assert_eq!(build_prompt("ctx", &vec![], 0, 2000), "ctx\n\nConversation:\n");
}

#[test]
fn prompt_shows_history_oldest_first() {
    let history = vec![
        msg(Role::User, "one"),
        msg(Role::Assistant, "two"),
        msg(Role::User, "three"),
    ];
    assert_eq!(
        build_prompt("ctx", &history, 1000, 2000),
        "ctx\n\nConversation:\nuser: one\nassistant: two\nuser: three\n"
    );
}

#[test]
fn prompt_drops_oldest_messages_that_do_not_fit() {
    // The fixed part takes 3 + 16 = 19 characters. Lines: "user: one\n" is 10,
    // "assistant: two\n" is 15, "user: three\n" is 12.
    let history = vec![
        msg(Role::User, "one"),
        msg(Role::Assistant, "two"),
        msg(Role::User, "three"),
    ];
    let all = "ctx\n\nConversation:\nuser: one\nassistant: two\nuser: three\n";
    let two = "ctx\n\nConversation:\nassistant: two\nuser: three\n";
    let one = "ctx\n\nConversation:\nuser: three\n";
    assert_eq!(build_prompt("ctx", &history, 56, 2000), all);
    assert_eq!(build_prompt("ctx", &history, 55, 2000), two);
    assert_eq!(build_prompt("ctx", &history, 46, 2000), two);
    assert_eq!(build_prompt("ctx", &history, 45, 2000), one);
    assert_eq!(build_prompt("ctx", &history, 31, 2000), one);
}

#[test]
fn most_recent_message_is_always_shown() {
    let history = vec![msg(Role::User, "one"), msg(Role::User, "a long question")];
    let only_last = "ctx\n\nConversation:\nuser: a long question\n";
    assert_eq!(build_prompt("ctx", &history, 50, 2000), only_last);
    assert_eq!(build_prompt("ctx", &history, 19, 2000), only_last);
    assert_eq!(build_prompt("ctx", &history, 0, 2000), only_last);
}

#[test]
fn an_older_message_is_not_admitted_behind_one_that_did_not_fit() {
    // "user: tiny\n" would fit on its own, but the message between it and the
    // end does not, so the walk stops there.
    let history = vec![
        msg(Role::User, "tiny"),
        msg(Role::Assistant, "a much longer answer than the budget"),
        msg(Role::User, "ok"),
    ];
    assert_eq!(
        build_prompt("c", &history, 17 + 9 + 11, 2000),
        "c\n\nConversation:\nuser: ok\n"
    );
}

#[test]
fn prompt_length_stays_within_budget_when_last_line_fits() {
    let history: Vec<Message> = (0..50)
        .map(|i| msg(Role::User, &format!("message number {i}")))
        .collect();
    for budget in [47usize, 60, 100, 333, 1000, 5000] {
        let prompt = build_prompt("context", &history, budget, 2000);
        assert!(prompt.chars().count() <= budget, "budget {budget}");
        assert!(prompt.ends_with("user: message number 49\n"));
    }
}

#[test]
fn prompt_truncates_tool_results_before_measuring() {
    let history = vec![msg(Role::ToolResult, "0123456789"), msg(Role::User, "q")];
    // With the cut at 4 the tool line is "tool_result: 0123... (truncated)\n",
    // 33 characters; "user: q\n" takes 8; the fixed part 17.
    assert_eq!(
        build_prompt("c", &history, 17 + 8 + 33, 4),
        "c\n\nConversation:\ntool_result: 0123... (truncated)\nuser: q\n"
    );
    assert_eq!(
        build_prompt("c", &history, 17 + 8 + 32, 4),
        "c\n\nConversation:\nuser: q\n"
    );
}

#[test]
fn budget_counts_characters_not_bytes() {
    let history = vec![msg(Role::User, "ééé"), msg(Role::User, "ü")];
    // Lines: "user: ééé\n" is 10 characters, "user: ü\n" is 8; the fixed part
    // "é\n\nConversation:\n" is 17.
    assert_eq!(
        build_prompt("é", &history, 35, 2000),
        "é\n\nConversation:\nuser: ééé\nuser: ü\n"
    );
    assert_eq!(
        build_prompt("é", &history, 34, 2000),
        "é\n\nConversation:\nuser: ü\n"
    );
}

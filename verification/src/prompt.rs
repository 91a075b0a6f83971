//! Construction of the prompt: the context, a header, and as many of the most
//! recent messages as fit a budget of characters.
//!
//! Messages are admitted from the most recent backwards until one does not
//! fit. The most recent message is always admitted. Older messages are left
//! out whole; nothing is summarised. The content of a tool result that is
//! longer than a limit is cut to that limit and marked.

use crate::message::{Message, MessageView, Role};
use vstd::prelude::*;

verus! {

/// The number of characters of a tool result that a prompt shows by default.
pub const TOOL_RESULT_TRUNCATE_CHARS: usize = 2000;

/// The budget of characters of a prompt by default.
pub const DEFAULT_MAX_PROMPT_CHARS: usize = 500000;

/// The header that separates the context from the conversation.
pub open spec fn header() -> Seq<char> {
    "\n\nConversation:\n"@
}

/// The marker that ends a truncated tool result.
pub open spec fn truncation_marker() -> Seq<char> {
    "... (truncated)"@
}

/// `content` cut to its first `limit` characters and marked, if it is longer
/// than that; else `content` itself.
pub open spec fn truncated(content: Seq<char>, limit: nat) -> Seq<char> {
    if content.len() > limit {
        content.take(limit as int) + truncation_marker()
    } else {
        content
    }
}

/// The content of `m` as a prompt shows it: truncated if `m` is a tool result.
pub open spec fn shown_content(m: MessageView, limit: nat) -> Seq<char> {
    if m.role == Role::ToolResult {
        truncated(m.content, limit)
    } else {
        m.content
    }
}

/// The line that shows `m` in a prompt.
pub open spec fn rendered(m: MessageView, limit: nat) -> Seq<char> {
    m.role.name() + ": "@ + shown_content(m, limit) + "\n"@
}

/// The lines of `messages`, in order.
pub open spec fn rendered_all(messages: Seq<MessageView>, limit: nat) -> Seq<char>
    decreases messages.len(),
{
    if messages.len() == 0 {
        Seq::empty()
    } else {
        rendered_all(messages.drop_last(), limit) + rendered(messages.last(), limit)
    }
}

/// The last `n` messages of `history`.
pub open spec fn window(history: Seq<MessageView>, n: nat) -> Seq<MessageView> {
    history.subrange(history.len() - n, history.len() as int)
}

/// Whether the last `n` messages of `history` may be shown in `room`
/// characters: a window of one message always may, a longer one if its lines
/// take no more than `room`.
pub open spec fn fits(history: Seq<MessageView>, limit: nat, room: nat, n: nat) -> bool {
    &&& n <= history.len()
    &&& (n <= 1 || rendered_all(window(history, n), limit).len() <= room)
}

/// The size of the window that grows from `n` messages while the next larger
/// one fits.
pub open spec fn admitted_from(history: Seq<MessageView>, limit: nat, room: nat, n: nat) -> nat
    decreases history.len() - n,
{
    if n < history.len() && fits(history, limit, room, n + 1) {
        admitted_from(history, limit, room, n + 1)
    } else {
        n
    }
}

/// The number of most recent messages that a prompt with `room` characters
/// for the conversation shows.
pub open spec fn admitted(history: Seq<MessageView>, limit: nat, room: nat) -> nat {
    admitted_from(history, limit, room, 0)
}

/// The characters left for the conversation: the budget less the context and
/// the header, or none.
pub open spec fn room_for_history(context: Seq<char>, max_chars: nat) -> nat {
    let fixed = context.len() + header().len();
    if max_chars >= fixed {
        (max_chars - fixed) as nat
    } else {
        0
    }
}

/// The prompt for `context` and `history` under a budget of `max_chars`
/// characters, with tool results shown up to `limit` characters.
pub open spec fn prompt_text(
    context: Seq<char>,
    history: Seq<MessageView>,
    max_chars: nat,
    limit: nat,
) -> Seq<char> {
    let n = admitted(history, limit, room_for_history(context, max_chars));
    context + header() + rendered_all(window(history, n), limit)
}

/// The lines of a list with one more message in front are that message's
/// line and then the lines of the list.
pub proof fn lemma_rendered_all_front(m: MessageView, rest: Seq<MessageView>, limit: nat)
    ensures
        rendered_all(seq![m] + rest, limit) == rendered(m, limit) + rendered_all(rest, limit),
    decreases rest.len(),
{
    let all = seq![m] + rest;
    if rest.len() == 0 {
        assert(all.drop_last() =~= Seq::<MessageView>::empty());
        assert(all.last() == m);
        assert(rendered_all(all.drop_last(), limit) =~= Seq::<char>::empty());
        assert(rendered_all(all, limit) =~= rendered(m, limit) + rendered_all(rest, limit));
    } else {
        assert(all.drop_last() =~= seq![m] + rest.drop_last());
        assert(all.last() == rest.last());
        lemma_rendered_all_front(m, rest.drop_last(), limit);
        assert(rendered_all(all, limit) =~= rendered(m, limit) + rendered_all(rest, limit));
    }
}

/// A window of one more message is the next older message and then the
/// window.
pub proof fn lemma_window_grows(history: Seq<MessageView>, limit: nat, n: nat)
    requires
        n < history.len(),
    ensures
        rendered_all(window(history, n + 1), limit) == rendered(
            history[history.len() - 1 - n],
            limit,
        ) + rendered_all(window(history, n), limit),
{
    assert(window(history, n + 1) =~= seq![history[history.len() - 1 - n]] + window(history, n));
    lemma_rendered_all_front(history[history.len() - 1 - n], window(history, n), limit);
}

/// The lines of a longer window take at least as many characters.
pub proof fn lemma_window_monotone(history: Seq<MessageView>, limit: nat, n: nat, m: nat)
    requires
        n <= m <= history.len(),
    ensures
        rendered_all(window(history, n), limit).len() <= rendered_all(window(history, m), limit).len(),
    decreases m - n,
{
    if n < m {
        lemma_window_monotone(history, limit, n, (m - 1) as nat);
        lemma_window_grows(history, limit, (m - 1) as nat);
    }
}

/// The admitted window is the longest one that fits: it fits, and no longer
/// window of the history does.
pub proof fn lemma_admitted_is_longest(history: Seq<MessageView>, limit: nat, room: nat)
    ensures
        fits(history, limit, room, admitted(history, limit, room)),
        forall|m: nat|
            admitted(history, limit, room) < m <= history.len() ==> !fits(history, limit, room, m),
        history.len() > 0 ==> admitted(history, limit, room) >= 1,
{
    lemma_admitted_from(history, limit, room, 0);
    if history.len() > 0 {
        assert(fits(history, limit, room, 1));
    }
}

/// The window that grows from a fitting window of `n` messages fits, and no
/// longer window of the history does.
proof fn lemma_admitted_from(history: Seq<MessageView>, limit: nat, room: nat, n: nat)
    requires
        fits(history, limit, room, n),
    ensures
        n <= admitted_from(history, limit, room, n) <= history.len(),
        fits(history, limit, room, admitted_from(history, limit, room, n)),
        forall|m: nat|
            admitted_from(history, limit, room, n) < m <= history.len() ==> !fits(
                history,
                limit,
                room,
                m,
            ),
    decreases history.len() - n,
{
    if n < history.len() && fits(history, limit, room, n + 1) {
        lemma_admitted_from(history, limit, room, n + 1);
    } else if n < history.len() {
        assert forall|m: nat| n < m <= history.len() implies !fits(history, limit, room, m) by {
            lemma_window_monotone(history, limit, n + 1, m);
        }
    }
}

/// The prompt keeps to its budget, but for the line of the most recent
/// message where that line alone does not fit; and the most recent message is
/// never left out. This holds whenever the budget covers the context and the
/// header.
pub proof fn lemma_budget_respected(
    context: Seq<char>,
    history: Seq<MessageView>,
    max_chars: nat,
    limit: nat,
)
    requires
        context.len() + header().len() <= max_chars,
    ensures
        history.len() == 0 ==> prompt_text(context, history, max_chars, limit).len() <= max_chars,
        history.len() > 0 ==> {
            let line = rendered(history.last(), limit);
            let prompt = prompt_text(context, history, max_chars, limit);
            let oversized = context.len() + header().len() + line.len() > max_chars;
            &&& admitted(history, limit, room_for_history(context, max_chars)) >= 1
            &&& prompt.subrange(prompt.len() - line.len(), prompt.len() as int) == line
            &&& !oversized ==> prompt.len() <= max_chars
            &&& oversized ==> prompt == context + header() + line
        },
{
    let room = room_for_history(context, max_chars);
    let n = admitted(history, limit, room);
    lemma_admitted_is_longest(history, limit, room);
    let prompt = prompt_text(context, history, max_chars, limit);
    if history.len() == 0 {
        assert(window(history, 0) =~= Seq::<MessageView>::empty());
    } else {
        let line = rendered(history.last(), limit);
        let shown = window(history, n);
        assert(shown.last() == history.last());
        assert(rendered_all(shown, limit) == rendered_all(shown.drop_last(), limit) + line);
        assert(prompt.subrange(prompt.len() - line.len(), prompt.len() as int) =~= line);
        assert(window(history, 1) =~= seq![history.last()]);
        lemma_rendered_all_front(history.last(), Seq::empty(), limit);
        assert(seq![history.last()] + Seq::<MessageView>::empty() =~= seq![history.last()]);
        assert(rendered_all(window(history, 1), limit) =~= line);
        if n > 1 {
            lemma_window_monotone(history, limit, 1, n);
        } else {
            assert(prompt =~= context + header() + line);
        }
    }
}

/// A tool result that is no longer than the limit is shown as it is.
pub proof fn lemma_truncation_keeps_short(content: Seq<char>, limit: nat)
    requires
        content.len() <= limit,
    ensures
        truncated(content, limit) == content,
{
}

/// Cuts `content` to its first `limit` characters and marks the cut, if it is
/// longer than that.
pub fn truncate_tool_result(content: &str, limit: usize) -> (r: String)
    ensures
        r@ == truncated(content@, limit as nat),
        content@.len() <= limit ==> r@ == content@,
{
    if content.unicode_len() > limit {
        let mut out = content.substring_char(0, limit).to_owned();
        out.append("... (truncated)");
        assert(content@.subrange(0, limit as int) =~= content@.take(limit as int));
        out
    } else {
        content.to_owned()
    }
}

/// The line that shows `msg` in a prompt.
pub fn render_message(msg: &Message, limit: usize) -> (r: String)
    ensures
        r@ == rendered(msg@, limit as nat),
{
    let mut line = msg.role.as_str().to_owned();
    line.append(": ");
    match msg.role {
        Role::ToolResult => {
            let shown = truncate_tool_result(msg.content.as_str(), limit);
            line.append(shown.as_str());
        },
        _ => {
            line.append(msg.content.as_str());
        },
    }
    line.append("\n");
    line
}

/// Builds the prompt: `context`, the conversation header, and the most recent
/// messages of `history` that fit into what `max_chars` leaves, oldest first.
/// The most recent message is always shown. Tool results are shown up to
/// `truncate_chars` characters.
pub fn build_prompt(
    context: &str,
    history: &Vec<Message>,
    max_chars: usize,
    truncate_chars: usize,
) -> (r: String)
    ensures
        r@ == prompt_text(
            context@,
            history.deep_view(),
            max_chars as nat,
            truncate_chars as nat,
        ),
{
    let ghost hist = history.deep_view();
    let ghost limit = truncate_chars as nat;
    let mut prompt = context.to_owned();
    prompt.append("\n\nConversation:\n");
    let fixed = prompt.as_str().unicode_len();
    let remaining: usize = if max_chars >= fixed {
        max_chars - fixed
    } else {
        0
    };
    let ghost room = room_for_history(context@, max_chars as nat);
    assert(remaining == room);
    let total = history.len();
    let mut lines: Vec<String> = Vec::new();
    let mut used: usize = 0;
    let mut taken: usize = 0;
    assert(window(hist, 0) =~= Seq::<MessageView>::empty());
    while taken < total
        invariant_except_break
            admitted(hist, limit, room) == admitted_from(hist, limit, room, taken as nat),
        invariant
            hist == history.deep_view(),
            limit == truncate_chars as nat,
            remaining == room,
            total == history.len(),
            taken <= total,
            lines.len() == taken,
            forall|k: int|
                0 <= k < taken ==> (#[trigger] lines[k])@ == rendered(hist[total - 1 - k], limit),
            used == rendered_all(window(hist, taken as nat), limit).len(),
        ensures
            taken == admitted(hist, limit, room),
        decreases total - taken,
    {
        let line = render_message(&history[total - 1 - taken], truncate_chars);
        let line_len = line.as_str().unicode_len();
        proof {
            lemma_window_grows(hist, limit, taken as nat);
            assert(hist[total - 1 - taken] == history[total - 1 - taken]@);
        }
        let room_left = used <= remaining && line_len <= remaining - used;
        if !room_left && taken > 0 {
            assert(!fits(hist, limit, room, (taken + 1) as nat));
            break ;
        }
        assert(fits(hist, limit, room, (taken + 1) as nat));
        used = used + line_len;
        lines.push(line);
        taken = taken + 1;
    }
    let ghost n = taken as nat;
    let ghost base = context@ + header();
    assert(window(hist, 0) =~= Seq::<MessageView>::empty());
    let mut k: usize = taken;
    while k > 0
        invariant
            k <= taken,
            taken <= total,
            n == taken,
            total == hist.len(),
            lines.len() == taken,
            forall|j: int|
                0 <= j < taken ==> (#[trigger] lines[j])@ == rendered(hist[total - 1 - j], limit),
            prompt@ == base + rendered_all(
                window(hist, n).subrange(0, taken - k),
                limit,
            ),
        decreases k,
    {
        k = k - 1;
        let ghost shown = window(hist, n).subrange(0, taken - k);
        assert(shown.drop_last() =~= window(hist, n).subrange(0, taken - k - 1));
        assert(shown.last() == hist[total - 1 - k]);
        prompt.append(lines[k].as_str());
        assert(prompt@ =~= base + rendered_all(shown, limit));
    }
    assert(window(hist, n).subrange(0, taken as int) =~= window(hist, n));
    prompt
}

} // verus!

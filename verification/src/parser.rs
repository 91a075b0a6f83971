//! Extraction of tool calls from the free-form text a model returns.
//!
//! A tool call is a block between `<tool_call>` and `</tool_call>` that holds a
//! `<component>` and a `<function>` field and, optionally, an `<args>` field.
//! Everything else is free text. Malformed blocks never fail the parse: an
//! unterminated block turns into text from its opening marker on, a block
//! without a component or a function is dropped.

use crate::text::{
    chars_of, find, find_in, is_blank, join, join_strings, lemma_find_from, occurs_at,
    slice_string, trim, trim_bounds,
};
use vstd::prelude::*;

verus! {

/// A request of the model to call a function of a tool component.
#[derive(Debug, PartialEq, Eq)]
pub struct ToolCall {
    /// The component that provides the tool.
    pub component: String,
    /// The function to call, as `interface/name`.
    pub function: String,
    /// The arguments, as JSON text.
    pub args: String,
}

/// A tool call as a mathematical value.
pub struct ToolCallView {
    pub component: Seq<char>,
    pub function: Seq<char>,
    pub args: Seq<char>,
}

impl View for ToolCall {
    type V = ToolCallView;

    open spec fn view(&self) -> ToolCallView {
        ToolCallView { component: self.component@, function: self.function@, args: self.args@ }
    }
}

impl DeepView for ToolCall {
    type V = ToolCallView;

    open spec fn deep_view(&self) -> ToolCallView {
        self@
    }
}

impl Clone for ToolCall {
    fn clone(&self) -> (r: Self)
        ensures
            r@ == self@,
    {
        ToolCall {
            component: self.component.clone(),
            function: self.function.clone(),
            args: self.args.clone(),
        }
    }
}

/// What a model response holds when it asks for at least one tool call.
#[derive(Debug, PartialEq, Eq)]
pub struct ParsedResponse {
    /// The tool calls, in the order in which they stand in the response.
    pub tool_calls: Vec<ToolCall>,
    /// The text around the tool calls, one line per stretch, if there is any.
    pub surrounding_text: Option<String>,
}

/// A parsed response as a mathematical value.
pub struct ParsedResponseView {
    pub tool_calls: Seq<ToolCallView>,
    pub surrounding_text: Option<Seq<char>>,
}

impl View for ParsedResponse {
    type V = ParsedResponseView;

    open spec fn view(&self) -> ParsedResponseView {
        ParsedResponseView {
            tool_calls: self.tool_calls.deep_view(),
            surrounding_text: self.surrounding_text.deep_view(),
        }
    }
}

/// The marker that opens the field or block named `tag`.
pub open spec fn open_tag(tag: Seq<char>) -> Seq<char> {
    seq!['<'] + tag + seq!['>']
}

/// The marker that closes the field or block named `tag`.
pub open spec fn close_tag(tag: Seq<char>) -> Seq<char> {
    seq!['<', '/'] + tag + seq!['>']
}

/// The marker that opens a tool-call block.
pub open spec fn block_open() -> Seq<char> {
    open_tag("tool_call"@)
}

/// The marker that closes a tool-call block.
pub open spec fn block_close() -> Seq<char> {
    close_tag("tool_call"@)
}

/// The trimmed text between the first opening marker of `tag` in `text` and
/// the first closing marker after it; `None` if either marker is missing.
pub open spec fn tag_content(text: Seq<char>, tag: Seq<char>) -> Option<Seq<char>> {
    match find(text, open_tag(tag)) {
        None => None,
        Some(i) => {
            let start = i + open_tag(tag).len();
            match find(text.skip(start), close_tag(tag)) {
                None => None,
                Some(j) => Some(trim(text.subrange(start, start + j))),
            }
        },
    }
}

/// The tool call that the inside of a block describes: its component and
/// function fields are required, its arguments default to `{}`.
pub open spec fn block_call(block: Seq<char>) -> Option<ToolCallView> {
    match (tag_content(block, "component"@), tag_content(block, "function"@)) {
        (Some(component), Some(function)) => Some(
            ToolCallView {
                component,
                function,
                args: match tag_content(block, "args"@) {
                    Some(args) => args,
                    None => "{}"@,
                },
            },
        ),
        _ => None,
    }
}

/// The tool calls and the stretches of free text of a response.
pub struct Scan {
    /// The well-formed tool calls, in order.
    pub calls: Seq<ToolCallView>,
    /// The non-blank stretches of text, trimmed, in order.
    pub texts: Seq<Seq<char>>,
}

/// A stretch of text as a list of segments: itself, trimmed, unless blank.
pub open spec fn text_part(s: Seq<char>) -> Seq<Seq<char>> {
    if is_blank(s) {
        seq![]
    } else {
        seq![trim(s)]
    }
}

/// The inside of a block as a list of calls: the call it describes, if any.
pub open spec fn call_part(block: Seq<char>) -> Seq<ToolCallView> {
    match block_call(block) {
        Some(call) => seq![call],
        None => seq![],
    }
}

/// Scans `rest` from left to right.
///
/// Without an opening marker, `rest` is one stretch of text. With one, the
/// text before it is a stretch; then, if no closing marker follows, what
/// remains from the opening marker on is one more stretch and the scan ends;
/// otherwise the block between the markers gives a call or nothing, and the
/// scan goes on behind the closing marker. No character stands in two
/// stretches.
pub open spec fn scan(rest: Seq<char>) -> Scan
    decreases rest.len(),
{
    match find(rest, block_open()) {
        None => Scan { calls: seq![], texts: text_part(rest) },
        Some(i) => {
            let body = i + block_open().len();
            match find(rest.skip(body), block_close()) {
                None => Scan {
                    calls: seq![],
                    texts: text_part(rest.take(i)) + text_part(rest.skip(i)),
                },
                Some(j) => {
                    proof {
                        lemma_find_from(rest, block_open(), 0);
                        lemma_find_from(rest.skip(body), block_close(), 0);
                    }
                    let tail = scan(rest.skip(body + j + block_close().len()));
                    Scan {
                        calls: call_part(trim(rest.subrange(body, body + j))) + tail.calls,
                        texts: text_part(rest.take(i)) + tail.texts,
                    }
                },
            }
        },
    }
}

/// What parsing `text` returns: nothing if it holds no well-formed tool call,
/// else its calls and its stretches of text, joined by line breaks.
pub open spec fn parsed(text: Seq<char>) -> Option<ParsedResponseView> {
    let found = scan(text);
    if found.calls.len() == 0 {
        None
    } else {
        Some(
            ParsedResponseView {
                tool_calls: found.calls,
                surrounding_text: if found.texts.len() == 0 {
                    None
                } else {
                    Some(join(found.texts, "\n"@))
                },
            },
        )
    }
}

/// The tool call of the block that opens at position `at` of `text`: `None`
/// if no opening marker stands there, if no closing marker follows it, or if
/// what stands between them describes no call.
pub open spec fn call_at(text: Seq<char>, at: int) -> Option<ToolCallView> {
    if occurs_at(text, block_open(), at) {
        let body = at + block_open().len();
        match find(text.skip(body), block_close()) {
            Some(j) => block_call(trim(text.subrange(body, body + j))),
            None => None,
        }
    } else {
        None
    }
}

/// The block at a position of the text behind `after` characters is the
/// block at that position, moved by `after`, of the whole text.
proof fn lemma_call_at_shift(text: Seq<char>, after: int, at: int)
    requires
        0 <= after <= text.len(),
        0 <= at,
        call_at(text.skip(after), at) is Some,
    ensures
        call_at(text, after + at) == call_at(text.skip(after), at),
{
    let tail = text.skip(after);
    let open = block_open();
    let body = at + open.len();
    assert(tail.subrange(at, at + open.len()) =~= text.subrange(after + at, after + at + open.len()));
    assert(tail.skip(body) =~= text.skip(after + body));
    let j = find(tail.skip(body), block_close())->0;
    lemma_find_from(tail.skip(body), block_close(), 0);
    assert(tail.subrange(body, body + j) =~= text.subrange(after + body, after + body + j));
}

/// The tool calls come in the order in which their blocks stand in the text:
/// there are positions in `text`, one for each call and each behind the one
/// before, such that the block that opens at the position is the one that
/// gives the call.
pub proof fn lemma_calls_in_order(text: Seq<char>) -> (sites: Seq<int>)
    ensures
        sites.len() == scan(text).calls.len(),
        forall|k: int|
            0 <= k < sites.len() ==> 0 <= #[trigger] sites[k] && call_at(text, sites[k]) == Some(
                scan(text).calls[k],
            ),
        forall|k: int, l: int| 0 <= k < l < sites.len() ==> sites[k] < sites[l],
    decreases text.len(),
{
    match find(text, block_open()) {
        None => seq![],
        Some(i) => {
            let body = i + block_open().len();
            lemma_find_from(text, block_open(), 0);
            match find(text.skip(body), block_close()) {
                None => seq![],
                Some(j) => {
                    lemma_find_from(text.skip(body), block_close(), 0);
                    let after = body + j + block_close().len();
                    let tail = text.skip(after);
                    let later = lemma_calls_in_order(tail);
                    let moved = Seq::new(later.len(), |k: int| after + later[k]);
                    let block = trim(text.subrange(body, body + j));
                    assert forall|k: int| 0 <= k < moved.len() implies 0 <= #[trigger] moved[k]
                        && call_at(text, moved[k]) == Some(scan(tail).calls[k]) by {
                        assert(0 <= later[k]);
                        lemma_call_at_shift(text, after, later[k]);
                    }
                    if block_call(block) is Some {
                        let sites = seq![i] + moved;
                        assert(call_at(text, i) == block_call(block));
                        assert forall|k: int| 0 <= k < sites.len() implies 0 <= #[trigger] sites[k]
                            && call_at(text, sites[k]) == Some(scan(text).calls[k]) by {
                            if k > 0 {
                                assert(sites[k] == moved[k - 1]);
                            }
                        }
                        assert forall|k: int, l: int| 0 <= k < l < sites.len() implies sites[k]
                            < sites[l] by {
                            assert(sites[l] == moved[l - 1]);
                            assert(0 <= later[l - 1]);
                            if k > 0 {
                                assert(sites[k] == moved[k - 1]);
                            }
                        }
                        sites
                    } else {
                        assert(scan(text).calls =~= scan(tail).calls);
                        moved
                    }
                },
            }
        },
    }
}

/// The stretches of text come in the order in which they stand in the text,
/// and none overlaps another: there are spans of `text`, one for each
/// stretch, such that the stretch is the trimmed span, and each span ends
/// where the next begins or before it.
pub proof fn lemma_texts_in_order(text: Seq<char>) -> (spans: Seq<(int, int)>)
    ensures
        spans.len() == scan(text).texts.len(),
        forall|k: int|
            0 <= k < spans.len() ==> {
                &&& 0 <= (#[trigger] spans[k]).0 <= spans[k].1 <= text.len()
                &&& scan(text).texts[k] == trim(text.subrange(spans[k].0, spans[k].1))
            },
        forall|k: int, l: int| 0 <= k < l < spans.len() ==> spans[k].1 <= spans[l].0,
    decreases text.len(),
{
    assert(text.subrange(0, text.len() as int) =~= text);
    match find(text, block_open()) {
        None => {
            if is_blank(text) {
                seq![]
            } else {
                seq![(0int, text.len() as int)]
            }
        },
        Some(i) => {
            let body = i + block_open().len();
            lemma_find_from(text, block_open(), 0);
            assert(text.take(i) =~= text.subrange(0, i));
            let before = if is_blank(text.take(i)) {
                seq![]
            } else {
                seq![(0int, i)]
            };
            match find(text.skip(body), block_close()) {
                None => {
                    assert(text.skip(i) =~= text.subrange(i, text.len() as int));
                    let behind = if is_blank(text.skip(i)) {
                        seq![]
                    } else {
                        seq![(i, text.len() as int)]
                    };
                    let spans = before + behind;
                    assert forall|k: int, l: int| 0 <= k < l < spans.len() implies spans[k].1
                        <= spans[l].0 by {
                        assert(spans[k] == (0int, i));
                        assert(spans[l] == (i, text.len() as int));
                    }
                    spans
                },
                Some(j) => {
                    lemma_find_from(text.skip(body), block_close(), 0);
                    let after = body + j + block_close().len();
                    let tail = text.skip(after);
                    let later = lemma_texts_in_order(tail);
                    let moved = Seq::new(
                        later.len(),
                        |k: int| (after + later[k].0, after + later[k].1),
                    );
                    assert forall|k: int| 0 <= k < moved.len() implies {
                        &&& 0 <= (#[trigger] moved[k]).0 <= moved[k].1 <= text.len()
                        &&& scan(tail).texts[k] == trim(text.subrange(moved[k].0, moved[k].1))
                    } by {
                        assert(0 <= later[k].0 <= later[k].1 <= tail.len());
                        assert(tail.subrange(later[k].0, later[k].1) =~= text.subrange(
                            after + later[k].0,
                            after + later[k].1,
                        ));
                    }
                    let spans = before + moved;
                    assert forall|k: int| 0 <= k < spans.len() implies {
                        &&& 0 <= (#[trigger] spans[k]).0 <= spans[k].1 <= text.len()
                        &&& scan(text).texts[k] == trim(text.subrange(spans[k].0, spans[k].1))
                    } by {
                        if k >= before.len() {
                            assert(spans[k] == moved[k - before.len()]);
                        }
                    }
                    assert forall|k: int, l: int| 0 <= k < l < spans.len() implies spans[k].1
                        <= spans[l].0 by {
                        assert(spans[l] == moved[l - before.len()]);
                        assert(0 <= later[l - before.len()].0 <= later[l - before.len()].1);
                        if k >= before.len() {
                            assert(spans[k] == moved[k - before.len()]);
                            assert(later[k - before.len()].1 <= later[l - before.len()].0);
                        } else {
                            assert(spans[k] == (0int, i));
                        }
                    }
                    spans
                },
            }
        },
    }
}

/// The opening and the closing marker of `tag`.
fn tag_markers(tag: &str) -> (r: (Vec<char>, Vec<char>))
    ensures
        r.0@ == open_tag(tag@),
        r.1@ == close_tag(tag@),
{
    let name = chars_of(tag);
    let mut open: Vec<char> = Vec::new();
    open.push('<');
    open.extend_from_slice(name.as_slice());
    open.push('>');
    let mut close: Vec<char> = Vec::new();
    close.push('<');
    close.push('/');
    close.extend_from_slice(name.as_slice());
    close.push('>');
    assert(open@ =~= open_tag(tag@));
    assert(close@ =~= close_tag(tag@));
    (open, close)
}

/// The trimmed text of the field `tag` in `text`: what stands between the
/// first `<tag>` and the first `</tag>` after it.
pub fn extract_tag(text: &str, tag: &str) -> (r: Option<String>)
    ensures
        r.deep_view() == tag_content(text@, tag@),
{
    let chars = chars_of(text);
    let n = chars.len();
    let (open, close) = tag_markers(tag);
    assert(chars@.subrange(0, n as int) =~= text@);
    match find_in(&chars, 0, n, &open) {
        None => None,
        Some(i) => {
            let start = i + open.len();
            assert(chars@.subrange(start as int, n as int) =~= text@.skip(start as int));
            match find_in(&chars, start, n, &close) {
                None => None,
                Some(end) => {
                    let (a, b) = trim_bounds(&chars, start, end);
                    Some(slice_string(text, a, b))
                },
            }
        },
    }
}

/// The tool call that the inside of a block describes.
pub fn parse_single_tool_call(block: &str) -> (r: Option<ToolCall>)
    ensures
        r.deep_view() == block_call(block@),
{
    let component = match extract_tag(block, "component") {
        Some(c) => c,
        None => { return None; },
    };
    let function = match extract_tag(block, "function") {
        Some(f) => f,
        None => { return None; },
    };
    let args = match extract_tag(block, "args") {
        Some(a) => a,
        None => "{}".to_owned(),
    };
    Some(ToolCall { component, function, args })
}

/// The tool calls and the stretches of free text of `response`.
pub fn scan_response(response: &str) -> (r: (Vec<ToolCall>, Vec<String>))
    ensures
        r.0.deep_view() == scan(response@).calls,
        r.1.deep_view() == scan(response@).texts,
{
    let chars = chars_of(response);
    let n = chars.len();
    let (open, close) = tag_markers("tool_call");
    let mut tool_calls: Vec<ToolCall> = Vec::new();
    let mut text_parts: Vec<String> = Vec::new();
    let mut pos: usize = 0;
    assert(response@.skip(0) =~= response@);
    assert(tool_calls.deep_view() + scan(response@).calls =~= scan(response@).calls);
    assert(text_parts.deep_view() + scan(response@).texts =~= scan(response@).texts);
    loop
        invariant_except_break
            pos <= n,
            scan(response@).calls == tool_calls.deep_view() + scan(response@.skip(pos as int)).calls,
            scan(response@).texts == text_parts.deep_view() + scan(response@.skip(pos as int)).texts,
        invariant
            chars@ == response@,
            n == chars.len(),
            open@ == block_open(),
            close@ == block_close(),
        ensures
            tool_calls.deep_view() == scan(response@).calls,
            text_parts.deep_view() == scan(response@).texts,
        decreases n - pos,
    {
        let ghost rest = response@.skip(pos as int);
        let ghost calls_before = tool_calls.deep_view();
        let ghost texts_before = text_parts.deep_view();
        assert(chars@.subrange(pos as int, n as int) =~= rest);
        match find_in(&chars, pos, n, &open) {
            None => {
                let (a, b) = trim_bounds(&chars, pos, n);
                if a < b {
                    text_parts.push(slice_string(response, a, b));
                    assert(text_parts.deep_view() =~= texts_before + text_part(rest));
                } else {
                    assert(text_parts.deep_view() =~= texts_before + text_part(rest));
                }
                assert(tool_calls.deep_view() =~= calls_before + scan(rest).calls);
                break ;
            },
            Some(open_at) => {
                let ghost i = open_at - pos;
                assert(chars@.subrange(pos as int, open_at as int) =~= rest.take(i));
                let (a, b) = trim_bounds(&chars, pos, open_at);
                if a < b {
                    text_parts.push(slice_string(response, a, b));
                }
                let ghost texts_mid = text_parts.deep_view();
                assert(texts_mid =~= texts_before + text_part(rest.take(i)));
                let body = open_at + open.len();
                assert(chars@.subrange(body as int, n as int) =~= rest.skip(body - pos));
                match find_in(&chars, body, n, &close) {
                    None => {
                        assert(chars@.subrange(open_at as int, n as int) =~= rest.skip(i));
                        let (a, b) = trim_bounds(&chars, open_at, n);
                        if a < b {
                            text_parts.push(slice_string(response, a, b));
                        }
                        assert(text_parts.deep_view() =~= texts_mid + text_part(rest.skip(i)));
                        assert(text_parts.deep_view() =~= texts_before + scan(rest).texts);
                        assert(tool_calls.deep_view() =~= calls_before + scan(rest).calls);
                        break ;
                    },
                    Some(close_at) => {
                        let ghost j = close_at - body;
                        assert(chars@.subrange(body as int, close_at as int) =~= rest.subrange(
                            body - pos,
                            body - pos + j,
                        ));
                        let (a, b) = trim_bounds(&chars, body, close_at);
                        let block = slice_string(response, a, b);
                        match parse_single_tool_call(block.as_str()) {
                            Some(call) => {
                                tool_calls.push(call);
                            },
                            None => {},
                        }
                        let next = close_at + close.len();
                        assert(rest.skip(next - pos) =~= response@.skip(next as int));
                        let ghost tail = scan(response@.skip(next as int));
                        assert(tool_calls.deep_view() =~= calls_before + call_part(block@));
                        assert(scan(rest).calls == call_part(block@) + tail.calls);
                        assert(scan(rest).texts == text_part(rest.take(i)) + tail.texts);
                        assert(calls_before + (call_part(block@) + tail.calls) =~= (calls_before
                            + call_part(block@)) + tail.calls);
                        assert(texts_before + (text_part(rest.take(i)) + tail.texts) =~= (
                        texts_before + text_part(rest.take(i))) + tail.texts);
                        pos = next;
                    },
                }
            },
        }
    }
    (tool_calls, text_parts)
}

/// Parses a model response. Returns `None` when it holds no well-formed tool
/// call, so that the whole response counts as the final answer; otherwise the
/// calls in their order of appearance and the text around them.
pub fn parse_tool_calls(response: &str) -> (r: Option<ParsedResponse>)
    ensures
        match r {
            Some(p) => parsed(response@) == Some(p@),
            None => parsed(response@) is None,
        },
{
    let (tool_calls, text_parts) = scan_response(response);
    if tool_calls.len() == 0 {
        return None;
    }
    let surrounding_text = if text_parts.len() == 0 {
        None
    } else {
        Some(join_strings(&text_parts, "\n"))
    };
    Some(ParsedResponse { tool_calls, surrounding_text })
}

} // verus!

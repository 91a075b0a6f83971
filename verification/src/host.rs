//! The calling convention between components: how arguments are framed for
//! a call, and what the outcome of a call becomes.
//!
//! Arguments travel as a JSON array of positional values. A result may carry
//! one layer of JSON string encoding, which is removed. A failure has a
//! classification and a message, and becomes text.

use crate::json::{
    decode_json_string, decoded_text, encode_json_string, encode_or_empty, json_string_literal,
    literal_or_empty,
};
use vstd::prelude::*;

verus! {

/// The failure of a call to another component.
#[derive(Debug, PartialEq, Eq)]
pub struct CallError {
    /// The classification of the failure, as the host words it.
    pub kind: String,
    /// The description of the failure.
    pub message: String,
}

/// A failure as a mathematical value.
pub struct CallErrorView {
    pub kind: Seq<char>,
    pub message: Seq<char>,
}

impl View for CallError {
    type V = CallErrorView;

    open spec fn view(&self) -> CallErrorView {
        CallErrorView { kind: self.kind@, message: self.message@ }
    }
}

impl DeepView for CallError {
    type V = CallErrorView;

    open spec fn deep_view(&self) -> CallErrorView {
        self@
    }
}

/// The name of the component that holds the agent's core by default.
pub open spec fn default_core_component() -> Seq<char> {
    "asterbot:core"@
}

/// A failure as `kind: message`.
pub open spec fn failure_text(e: CallErrorView) -> Seq<char> {
    e.kind + ": "@ + e.message
}

/// The argument list that holds the one value `literal`.
pub open spec fn one_argument(literal: Seq<char>) -> Seq<char> {
    "["@ + literal + "]"@
}

/// The argument list for a model call.
pub open spec fn model_arguments(prompt: Seq<char>, model: Seq<char>) -> Seq<char> {
    "["@ + prompt + ", "@ + model + "]"@
}

/// The argument list for a tool call.
pub open spec fn tool_arguments(component: Seq<char>, function: Seq<char>, args: Seq<char>) -> Seq<
    char,
> {
    "["@ + component + ", "@ + function + ", "@ + args + "]"@
}

/// What a failed tool call becomes for the model to read.
pub open spec fn tool_failure_text(e: CallErrorView) -> Seq<char> {
    "error: tool call failed: "@ + failure_text(e)
}

/// What a failed call to the core becomes for the user to read.
pub open spec fn core_failure_text(core: Seq<char>, message: Seq<char>) -> Seq<char> {
    "error: core component '"@ + core + "' failed: "@ + message
}

/// The component that holds the agent's core: the configured one, or the
/// default if none is configured.
pub fn core_component(configured: &str) -> (r: String)
    ensures
        r@ == if configured@.len() == 0 {
            default_core_component()
        } else {
            configured@
        },
{
    if configured.unicode_len() == 0 {
        "asterbot:core".to_owned()
    } else {
        configured.to_owned()
    }
}

/// The argument list that holds `value` as its one argument.
pub fn single_argument(value: &str) -> (r: String)
    ensures
        r@ == one_argument(literal_or_empty(value@)),
{
    let mut out = "[".to_owned();
    out.append(encode_or_empty(value).as_str());
    out.append("]");
    out
}

/// The argument list of a model call for `prompt` and `model`, or the
/// encoder's description of its failure if it cannot encode one of them.
pub fn model_request_args(prompt: &str, model: &str) -> (r: Result<String, String>)
    ensures
        match r {
            Ok(args) => {
                &&& json_string_literal(prompt@) matches Some(p)
                &&& json_string_literal(model@) matches Some(m)
                &&& args@ == model_arguments(p, m)
            },
            Err(_) => json_string_literal(prompt@) is None || json_string_literal(model@) is None,
        },
{
    let prompt_json = match encode_json_string(prompt) {
        Ok(p) => p,
        Err(e) => { return Err(e); },
    };
    let model_json = match encode_json_string(model) {
        Ok(m) => m,
        Err(e) => { return Err(e); },
    };
    Ok(frame_model_args(prompt_json.as_str(), model_json.as_str()))
}

/// The argument list of a model call from the literals of its arguments.
pub fn frame_model_args(prompt_json: &str, model_json: &str) -> (r: String)
    ensures
        r@ == model_arguments(prompt_json@, model_json@),
{
    let mut out = "[".to_owned();
    out.append(prompt_json);
    out.append(", ");
    out.append(model_json);
    out.append("]");
    out
}

/// The argument list of a tool call from the literals of its arguments.
pub fn frame_tool_args(component_json: &str, function_json: &str, args_json: &str) -> (r: String)
    ensures
        r@ == tool_arguments(component_json@, function_json@, args_json@),
{
    let mut out = "[".to_owned();
    out.append(component_json);
    out.append(", ");
    out.append(function_json);
    out.append(", ");
    out.append(args_json);
    out.append("]");
    out
}

/// The argument list of a tool call: the component, the function and the
/// argument text, each as a JSON string.
pub fn tool_request_args(component: &str, function: &str, args: &str) -> (r: String)
    ensures
        r@ == tool_arguments(
            literal_or_empty(component@),
            literal_or_empty(function@),
            literal_or_empty(args@),
        ),
{
    let c = encode_or_empty(component);
    let f = encode_or_empty(function);
    let a = encode_or_empty(args);
    frame_tool_args(c.as_str(), f.as_str(), a.as_str())
}

/// `kind: message` for a failure.
pub fn describe_failure(e: &CallError) -> (r: String)
    ensures
        r@ == failure_text(e@),
{
    let mut out = e.kind.clone();
    out.append(": ");
    out.append(e.message.as_str());
    out
}

/// What a model call came to: the reply without its layer of encoding, or
/// the failure as text.
pub fn model_reply(outcome: Result<String, CallError>) -> (r: Result<String, String>)
    ensures
        match outcome {
            Ok(text) => r matches Ok(reply) && reply@ == decoded_text(text@),
            Err(e) => r matches Err(why) && why@ == failure_text(e@),
        },
{
    match outcome {
        Ok(text) => Ok(decode_json_string(text.as_str())),
        Err(e) => Err(describe_failure(&e)),
    }
}

/// What a tool call came to, as text for the model: the result without its
/// layer of encoding, or a description of the failure.
pub fn tool_reply(outcome: Result<String, CallError>) -> (r: String)
    ensures
        r@ == match outcome {
            Ok(text) => decoded_text(text@),
            Err(e) => tool_failure_text(e@),
        },
{
    match outcome {
        Ok(text) => decode_json_string(text.as_str()),
        Err(e) => {
            let mut out = "error: tool call failed: ".to_owned();
            out.append(describe_failure(&e).as_str());
            out
        },
    }
}

/// What a call to the core component `core` that failed with `message`
/// becomes for the user to read.
pub fn core_failure(core: &str, message: &str) -> (r: String)
    ensures
        r@ == core_failure_text(core@, message@),
{
    let mut out = "error: core component '".to_owned();
    out.append(core);
    out.append("' failed: ");
    out.append(message);
    out
}

/// What a call to the core component `core` came to, as text for the user:
/// the reply without its layer of encoding, or a description of the failure.
pub fn converse_reply(core: &str, outcome: Result<String, CallError>) -> (r: String)
    ensures
        r@ == match outcome {
            Ok(text) => decoded_text(text@),
            Err(e) => core_failure_text(core@, e@.message),
        },
{
    match outcome {
        Ok(text) => decode_json_string(text.as_str()),
        Err(e) => core_failure(core, e.message.as_str()),
    }
}

} // verus!

use asterbot::host::{
    converse_reply, core_component, describe_failure, frame_model_args, frame_tool_args,
    model_reply, model_request_args, single_argument, tool_reply, tool_request_args, CallError,
};
use asterbot::json::{
    decode_json_string, decoded_or_raw, encode_json_string, encode_or_empty, parse_json_shape,
    parse_json_string, parse_name_list, JsonShape,
};

fn failure() -> CallError {
    CallError { kind: "Timeout".into(), message: "took too long".into() }
}

#[test]
fn json_string_layer_is_removed() {
    assert_eq!(decode_json_string("\"hello\\nworld\""), "hello\nworld");
    assert_eq!(decode_json_string("\"say \\\"hi\\\" \\u00e9\""), "say \"hi\" é");
    assert_eq!(decode_json_string("  \"padded\"  "), "padded");
    assert_eq!(decode_json_string("\"\""), "");
}

#[test]
fn text_without_a_string_layer_passes() {
    assert_eq!(decode_json_string("plain text"), "plain text");
    assert_eq!(decode_json_string("{\"a\": 1}"), "{\"a\": 1}");
    assert_eq!(decode_json_string("42"), "42");
    assert_eq!(decode_json_string("\"unterminated"), "\"unterminated");
    assert_eq!(decode_json_string("\"a\" \"b\""), "\"a\" \"b\"");
    assert_eq!(decode_json_string(""), "");
}

#[test]
fn parse_json_string_tells_strings_from_the_rest() {
    assert_eq!(parse_json_string("\"x\""), Some("x".to_string()));
    assert_eq!(parse_json_string("x"), None);
    assert_eq!(parse_json_string("[\"x\"]"), None);
    assert_eq!(parse_json_string("null"), None);
}

#[test]
fn decoded_or_raw_prefers_the_decoded_text() {
    assert_eq!(decoded_or_raw(Some("decoded".to_string()), "raw"), "decoded");
    assert_eq!(decoded_or_raw(Some(String::new()), "raw"), "");
    assert_eq!(decoded_or_raw(None, "raw"), "raw");
}

#[test]
fn name_lists_are_read_or_empty() {
    assert_eq!(parse_name_list("[\"a\", \"b c\"]"), vec!["a".to_string(), "b c".to_string()]);
    assert_eq!(parse_name_list("[]"), Vec::<String>::new());
    assert_eq!(parse_name_list("[1, 2]"), Vec::<String>::new());
    assert_eq!(parse_name_list("\"a\""), Vec::<String>::new());
    assert_eq!(parse_name_list("not json"), Vec::<String>::new());
    assert_eq!(parse_name_list(""), Vec::<String>::new());
}

#[test]
fn strings_are_encoded_as_json_literals() {
    assert_eq!(encode_or_empty("plain"), "\"plain\"");
    assert_eq!(encode_or_empty("a\"b\\c\nd"), "\"a\\\"b\\\\c\\nd\"");
    assert_eq!(encode_or_empty(""), "\"\"");
    assert_eq!(encode_json_string("é\t"), Ok("\"é\\t\"".to_string()));
}

#[test]
fn encoding_and_decoding_undo_each_other() {
    for text in ["", "plain", "with \"quotes\" and \\ and \n and \u{1F600}", "{\"k\": [1]}"] {
        assert_eq!(decode_json_string(&encode_or_empty(text)), text);
    }
}

#[test]
fn shapes_are_told_apart() {
    assert_eq!(parse_json_shape("[1, 2]"), Some(JsonShape::Array));
    assert_eq!(parse_json_shape("3"), Some(JsonShape::Scalar));
    assert_eq!(parse_json_shape("\"s\""), Some(JsonShape::Scalar));
    assert_eq!(parse_json_shape("null"), Some(JsonShape::Scalar));
    assert_eq!(parse_json_shape("nope"), None);
    let shape = parse_json_shape("{\"b\": [1, {\"c\": null}], \"a\": \"x y\"}");
    let mut members = match shape {
        Some(JsonShape::Object(members)) => members,
        other => panic!("not an object: {other:?}"),
    };
    members.sort();
    assert_eq!(
        members,
        vec![
            ("a".to_string(), "\"x y\"".to_string()),
            ("b".to_string(), "[1,{\"c\":null}]".to_string()),
        ]
    );
}

#[test]
fn core_component_defaults() {
    assert_eq!(core_component(""), "asterbot:core");
    assert_eq!(core_component("my:core"), "my:core");
}

#[test]
fn arguments_are_framed_as_arrays() {
    assert_eq!(single_argument("hi \"you\""), "[\"hi \\\"you\\\"\"]");
    assert_eq!(frame_model_args("\"p\"", "\"m\""), "[\"p\", \"m\"]");
    assert_eq!(frame_tool_args("1", "2", "3"), "[1, 2, 3]");
    assert_eq!(
        model_request_args("line\nbreak", "model-b"),
        Ok("[\"line\\nbreak\", \"model-b\"]".to_string())
    );
    assert_eq!(
        tool_request_args("acme:weather", "forecast/today", "{\"city\": \"Oslo\"}"),
        "[\"acme:weather\", \"forecast/today\", \"{\\\"city\\\": \\\"Oslo\\\"}\"]"
    );
}

#[test]
fn model_outcome_becomes_reply_or_error() {
    assert_eq!(model_reply(Ok("\"decoded\"".to_string())), Ok("decoded".to_string()));
    assert_eq!(model_reply(Ok("raw".to_string())), Ok("raw".to_string()));
    assert_eq!(model_reply(Err(failure())), Err("Timeout: took too long".to_string()));
    assert_eq!(describe_failure(&failure()), "Timeout: took too long");
}

#[test]
fn tool_outcome_becomes_text() {
    assert_eq!(tool_reply(Ok("\"sunny\\n\"".to_string())), "sunny\n");
    assert_eq!(tool_reply(Ok("{\"t\": 3}".to_string())), "{\"t\": 3}");
    assert_eq!(tool_reply(Err(failure())), "error: tool call failed: Timeout: took too long");
}

#[test]
fn core_outcome_becomes_text() {
    assert_eq!(converse_reply("asterbot:core", Ok("\"hello\"".to_string())), "hello");
    assert_eq!(
        converse_reply("asterbot:core", Err(failure())),
        "error: core component 'asterbot:core' failed: took too long"
    );
}

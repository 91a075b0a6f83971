use asterbot::context::{
    build_context, fetch_skills, fetch_soul, format_memory_mention, format_skill,
    get_tool_descriptions, is_empty_catalog, listed, memory_mention, resolve_system_prompt,
    text_unless_blank,
};
use asterbot::host::CallError;

const INTRO: &str = "You have access to tools. To call a tool, use XML blocks:\n\n<tool_call>\n<component>component-name</component>\n<function>interface/function</function>\n<args>{\"key\": \"value\"}</args>\n</tool_call>\n\nYou can make multiple tool calls in a single response.\nAfter tool calls, you will receive the results and can\nthen respond to the user or call more tools.\n\n";

fn failure() -> CallError {
    CallError { kind: "NotFound".into(), message: "gone".into() }
}

#[test]
fn system_prompt_comes_from_file_then_setting_then_default() {
    assert_eq!(resolve_system_prompt(Some("From file.\n"), Some("set")), "From file.\n");
    assert_eq!(resolve_system_prompt(Some("  \n"), Some("set")), "set");
    assert_eq!(resolve_system_prompt(Some(""), None), "You are a helpful assistant.");
    assert_eq!(resolve_system_prompt(None, Some("set")), "set");
    assert_eq!(resolve_system_prompt(None, Some("")), "");
    assert_eq!(resolve_system_prompt(None, None), "You are a helpful assistant.");
}

#[test]
fn tool_descriptions_are_decoded_or_empty() {
    assert_eq!(get_tool_descriptions(Ok("\"Available tools:\\n\"".to_string())), "Available tools:\n");
    assert_eq!(get_tool_descriptions(Ok("raw".to_string())), "raw");
    assert_eq!(get_tool_descriptions(Err(failure())), "");
}

#[test]
fn soul_is_decoded_and_blank_soul_is_dropped() {
    assert_eq!(fetch_soul(Ok("\"I am calm.\\n\"".to_string())), "I am calm.\n");
    assert_eq!(fetch_soul(Ok("raw soul".to_string())), "raw soul");
    assert_eq!(fetch_soul(Ok("\" \\n\\t \"".to_string())), "");
    assert_eq!(fetch_soul(Ok("".to_string())), "");
    assert_eq!(fetch_soul(Err(failure())), "");
    assert_eq!(text_unless_blank("  x ".to_string()), "  x ");
    assert_eq!(text_unless_blank(" \u{a0} ".to_string()), "");
}

#[test]
fn listings_are_read_or_empty() {
    assert_eq!(listed(Ok("[\"a\",\"b\"]".to_string())), vec!["a".to_string(), "b".to_string()]);
    assert_eq!(listed(Ok("oops".to_string())), Vec::<String>::new());
    assert_eq!(listed(Err(failure())), Vec::<String>::new());
}

#[test]
fn skills_are_shown_one_section_each() {
    assert_eq!(format_skill("cook", "Boil water."), "\n### cook\nBoil water.\n");
    assert_eq!(format_skill("cook", "  "), "");
    let fetched = vec![
        ("cook".to_string(), Ok("\"Boil water.\"".to_string())),
        ("lost".to_string(), Err(failure())),
        ("blank".to_string(), Ok("\"   \"".to_string())),
        ("sing".to_string(), Ok("La la.".to_string())),
    ];
    assert_eq!(fetch_skills(&fetched), "\n### cook\nBoil water.\n\n### sing\nLa la.\n");
    assert_eq!(fetch_skills(&vec![]), "");
}

#[test]
fn memory_mention_lists_the_files() {
    let available = "You have persistent memory available. Use the memory tools to store and retrieve information across conversations.";
    assert_eq!(memory_mention(&vec![]), available);
    assert_eq!(
        memory_mention(&vec!["notes".to_string(), "todo".to_string()]),
        "You have persistent memory files: notes, todo. Use memory/get to retrieve them or memory/set to update them."
    );
    assert_eq!(
        format_memory_mention(Ok("[\"notes\"]".to_string())),
        "You have persistent memory files: notes. Use memory/get to retrieve them or memory/set to update them."
    );
    assert_eq!(format_memory_mention(Ok("[]".to_string())), available);
    assert_eq!(format_memory_mention(Ok("garbage".to_string())), available);
    assert_eq!(format_memory_mention(Err(failure())), "");
}

#[test]
fn empty_catalogs_are_recognised() {
    assert!(is_empty_catalog(""));
    assert!(is_empty_catalog("No tools available."));
    assert!(!is_empty_catalog("No tools available"));
    assert!(!is_empty_catalog("Available tools:\n"));
}

#[test]
fn context_with_only_instructions() {
    assert_eq!(build_context("Be kind.", "", "", "", ""), "Be kind.");
    assert_eq!(build_context("Be kind.", "No tools available.", "", "", ""), "Be kind.");
    assert_eq!(build_context("", "", "", "", ""), "");
}

#[test]
fn context_with_all_sections() {
    let context = build_context(
        "Be kind.",
        "Available tools:\n\n## a / f\n",
        "I am calm.",
        "\n### cook\nBoil water.\n",
        "You have memory.",
    );
    let expected = format!(
        "Be kind.\n\n{INTRO}Available tools:\n\n## a / f\n\n\nYour soul (personality & self-knowledge):\nI am calm.\n\nYour skills:\n\n### cook\nBoil water.\n\n\nYou have memory."
    );
    assert_eq!(context, expected);
}

#[test]
fn empty_sections_are_left_out() {
    assert_eq!(
        build_context("Be kind.", "", "I am calm.", "", ""),
        "Be kind.\n\nYour soul (personality & self-knowledge):\nI am calm."
    );
    assert_eq!(
        build_context("Be kind.", "", "", "", "You have memory."),
        "Be kind.\n\nYou have memory."
    );
    assert_eq!(
        build_context("", "tools", "", "", "note"),
        format!("{INTRO}tools\n\nnote")
    );
    assert_eq!(build_context("", "", "", "skills", ""), "Your skills:\nskills");
}

//! Assembly of the context: the text that starts every prompt of a turn.
//!
//! The context holds, in this order and each only if it is there: the system
//! instructions, the tool catalog behind an explanation of how to call a
//! tool, the soul, the skills, and a note on the memory. A blank line stands
//! between each two. A collaborator that fails leaves its section out; it
//! never fails the assembly.

use crate::host::CallError;
use crate::json::{decode_json_string, decoded_text, listed_names, parse_name_list};
use crate::text::{is_blank, is_blank_str, join, join_strings, same_text};
use crate::toolkit::no_tools_notice;
use vstd::prelude::*;

verus! {

/// The system instructions where none are configured.
pub open spec fn default_system_prompt() -> Seq<char> {
    "You are a helpful assistant."@
}

/// The explanation of the tool-call syntax that stands before the catalog.
pub open spec fn tools_intro() -> Seq<char> {
    "You have access to tools. To call a tool, use XML blocks:\n\n<tool_call>\n<component>component-name</component>\n<function>interface/function</function>\n<args>{\"key\": \"value\"}</args>\n</tool_call>\n\nYou can make multiple tool calls in a single response.\nAfter tool calls, you will receive the results and can\nthen respond to the user or call more tools.\n\n"@
}

/// The heading of the soul.
pub open spec fn soul_heading() -> Seq<char> {
    "Your soul (personality & self-knowledge):\n"@
}

/// The heading of the skills.
pub open spec fn skills_heading() -> Seq<char> {
    "Your skills:\n"@
}

/// The separator between the sections of the context.
pub open spec fn section_break() -> Seq<char> {
    "\n\n"@
}

/// The note on the memory when it holds no file.
pub open spec fn memory_available_notice() -> Seq<char> {
    "You have persistent memory available. Use the memory tools to store and retrieve information across conversations."@
}

/// The note on the memory when it holds the files `names`.
pub open spec fn memory_files_notice(names: Seq<Seq<char>>) -> Seq<char> {
    "You have persistent memory files: "@ + join(names, ", "@)
        + ". Use memory/get to retrieve them or memory/set to update them."@
}

/// The note on a memory that holds the files `names`.
pub open spec fn memory_note(names: Seq<Seq<char>>) -> Seq<char> {
    if names.len() == 0 {
        memory_available_notice()
    } else {
        memory_files_notice(names)
    }
}

/// `content`, or nothing if it is blank.
pub open spec fn unless_blank(content: Seq<char>) -> Seq<char> {
    if is_blank(content) {
        seq![]
    } else {
        content
    }
}

/// The system instructions: those of the file if it holds any, else the
/// configured ones, else the default.
pub open spec fn system_prompt(file: Option<Seq<char>>, configured: Option<Seq<char>>) -> Seq<
    char,
> {
    match file {
        Some(f) if !is_blank(f) => f,
        _ => match configured {
            Some(c) => c,
            None => default_system_prompt(),
        },
    }
}

/// Whether a catalog text lists no tool.
pub open spec fn catalog_is_empty(tool_descriptions: Seq<char>) -> bool {
    tool_descriptions.len() == 0 || tool_descriptions == no_tools_notice()
}

/// A section as a list: the heading and the body, unless the body is empty.
pub open spec fn section(heading: Seq<char>, body: Seq<char>) -> Seq<Seq<char>> {
    if body.len() == 0 {
        seq![]
    } else {
        seq![heading + body]
    }
}

/// The sections of the context that are there, in order.
pub open spec fn context_sections(
    system_prompt: Seq<char>,
    tool_descriptions: Seq<char>,
    soul: Seq<char>,
    skills: Seq<char>,
    memory_mention: Seq<char>,
) -> Seq<Seq<char>> {
    section(seq![], system_prompt) + (if catalog_is_empty(tool_descriptions) {
        seq![]
    } else {
        seq![tools_intro() + tool_descriptions]
    }) + section(soul_heading(), soul) + section(skills_heading(), skills) + section(
        seq![],
        memory_mention,
    )
}

/// The context: its sections with a blank line between each two.
pub open spec fn context_text(
    system_prompt: Seq<char>,
    tool_descriptions: Seq<char>,
    soul: Seq<char>,
    skills: Seq<char>,
    memory_mention: Seq<char>,
) -> Seq<char> {
    join(
        context_sections(system_prompt, tool_descriptions, soul, skills, memory_mention),
        section_break(),
    )
}

/// The section that shows the skill `name` with the text `content`, or
/// nothing if the text is blank.
pub open spec fn skill_entry(name: Seq<char>, content: Seq<char>) -> Seq<char> {
    if is_blank(content) {
        seq![]
    } else {
        "\n### "@ + name + "\n"@ + content + "\n"@
    }
}

/// What the fetch of the skill `name` adds to the skills text.
pub open spec fn skill_section(name: Seq<char>, outcome: Result<Seq<char>, ()>) -> Seq<char> {
    match outcome {
        Ok(text) => skill_entry(name, decoded_text(text)),
        Err(_) => seq![],
    }
}

/// The outcome of a call, without the details of a failure.
pub open spec fn outcome_text(outcome: Result<String, CallError>) -> Result<Seq<char>, ()> {
    match outcome {
        Ok(text) => Ok(text@),
        Err(_) => Err(()),
    }
}

/// The skills text for the fetched skills, in order.
pub open spec fn skills_text(fetched: Seq<(String, Result<String, CallError>)>) -> Seq<char>
    decreases fetched.len(),
{
    if fetched.len() == 0 {
        seq![]
    } else {
        skills_text(fetched.drop_last()) + skill_section(
            fetched.last().0@,
            outcome_text(fetched.last().1),
        )
    }
}

/// The system instructions: the contents of the instruction file if it is
/// there and not blank, else the configured instructions, else the default.
pub fn resolve_system_prompt(file: Option<&str>, configured: Option<&str>) -> (r: String)
    ensures
        r@ == system_prompt(file.deep_view(), configured.deep_view()),
{
    match file {
        Some(f) => {
            if !is_blank_str(f) {
                return f.to_owned();
            }
        },
        None => {},
    }
    match configured {
        Some(c) => c.to_owned(),
        None => "You are a helpful assistant.".to_owned(),
    }
}

/// The catalog text from the outcome of asking the toolkit for it: the text
/// without its layer of encoding, or nothing if the call failed.
pub fn get_tool_descriptions(outcome: Result<String, CallError>) -> (r: String)
    ensures
        r@ == match outcome {
            Ok(text) => decoded_text(text@),
            Err(_) => seq![],
        },
{
    match outcome {
        Ok(text) => decode_json_string(text.as_str()),
        Err(_) => String::new(),
    }
}

/// `content`, or the empty text if `content` is blank.
pub fn text_unless_blank(content: String) -> (r: String)
    ensures
        r@ == unless_blank(content@),
{
    if is_blank_str(content.as_str()) {
        String::new()
    } else {
        content
    }
}

/// The soul from the outcome of asking for it: the text without its layer of
/// encoding, or nothing if it is blank or the call failed.
pub fn fetch_soul(outcome: Result<String, CallError>) -> (r: String)
    ensures
        r@ == match outcome {
            Ok(text) => unless_blank(decoded_text(text@)),
            Err(_) => seq![],
        },
{
    match outcome {
        Ok(text) => text_unless_blank(decode_json_string(text.as_str())),
        Err(_) => String::new(),
    }
}

/// The names that the outcome of a listing holds: those of the list, or none
/// if the call failed or the reply is no list of names.
pub fn listed(outcome: Result<String, CallError>) -> (r: Vec<String>)
    ensures
        r.deep_view() == match outcome {
            Ok(text) => listed_names(text@),
            Err(_) => seq![],
        },
{
    match outcome {
        Ok(text) => parse_name_list(text.as_str()),
        Err(_) => {
            let none: Vec<String> = Vec::new();
            assert(none.deep_view() =~= seq![]);
            none
        },
    }
}

/// The section that shows the skill `name` with the text `content`, or
/// nothing if the text is blank.
pub fn format_skill(name: &str, content: &str) -> (r: String)
    ensures
        r@ == skill_entry(name@, content@),
{
    if is_blank_str(content) {
        String::new()
    } else {
        let mut out = "\n### ".to_owned();
        out.append(name);
        out.append("\n");
        out.append(content);
        out.append("\n");
        out
    }
}

/// The skills text from the skills that were fetched, each with its name and
/// the outcome of asking for it: a section for each skill whose text is there
/// and not blank, in order.
pub fn fetch_skills(fetched: &Vec<(String, Result<String, CallError>)>) -> (r: String)
    ensures
        r@ == skills_text(fetched@),
{
    let mut out = String::new();
    let n = fetched.len();
    let mut i: usize = 0;
    assert(out@ =~= skills_text(fetched@.take(0)));
    while i < n
        invariant
            n == fetched.len(),
            i <= n,
            out@ == skills_text(fetched@.take(i as int)),
        decreases n - i,
    {
        assert(fetched@.take(i + 1).drop_last() =~= fetched@.take(i as int));
        assert(fetched@.take(i + 1).last() == fetched@[i as int]);
        match &fetched[i].1 {
            Ok(text) => {
                let content = decode_json_string(text.as_str());
                out.append(format_skill(fetched[i].0.as_str(), content.as_str()).as_str());
            },
            Err(_) => {},
        }
        assert(out@ =~= skills_text(fetched@.take(i + 1)));
        i += 1;
    }
    assert(fetched@.take(n as int) =~= fetched@);
    out
}

/// The note on a memory that holds the files `names`.
pub fn memory_mention(names: &Vec<String>) -> (r: String)
    ensures
        r@ == memory_note(names.deep_view()),
{
    if names.len() == 0 {
        "You have persistent memory available. Use the memory tools to store and retrieve information across conversations.".to_owned()
    } else {
        let mut out = "You have persistent memory files: ".to_owned();
        out.append(join_strings(names, ", ").as_str());
        out.append(". Use memory/get to retrieve them or memory/set to update them.");
        out
    }
}

/// The note on the memory from the outcome of listing its files, or nothing
/// if the call failed. A reply that is no list of names counts as an empty
/// memory.
pub fn format_memory_mention(outcome: Result<String, CallError>) -> (r: String)
    ensures
        r@ == match outcome {
            Ok(text) => memory_note(listed_names(text@)),
            Err(_) => seq![],
        },
{
    match outcome {
        Ok(text) => memory_mention(&parse_name_list(text.as_str())),
        Err(_) => String::new(),
    }
}

/// Whether a catalog text lists no tool: it is empty, or it is the notice
/// that no tools are available.
pub fn is_empty_catalog(tool_descriptions: &str) -> (r: bool)
    ensures
        r == catalog_is_empty(tool_descriptions@),
{
    tool_descriptions.unicode_len() == 0 || same_text(tool_descriptions, "No tools available.")
}

/// Builds the context from its parts. A part that is empty is left out, and
/// so is a catalog that lists no tool.
pub fn build_context(
    system_prompt: &str,
    tool_descriptions: &str,
    soul: &str,
    skills: &str,
    memory_mention: &str,
) -> (r: String)
    ensures
        r@ == context_text(system_prompt@, tool_descriptions@, soul@, skills@, memory_mention@),
{
    let mut sections: Vec<String> = Vec::new();
    assert(sections.deep_view() =~= seq![]);
    if system_prompt.unicode_len() > 0 {
        let ghost before = sections.deep_view();
        sections.push(system_prompt.to_owned());
        assert(sections.deep_view() =~= before.push(system_prompt@));
        assert(seq![] + system_prompt@ =~= system_prompt@);
    }
    assert(sections.deep_view() =~= section(seq![], system_prompt@));
    if !is_empty_catalog(tool_descriptions) {
        let ghost before = sections.deep_view();
        let mut part = "You have access to tools. To call a tool, use XML blocks:\n\n<tool_call>\n<component>component-name</component>\n<function>interface/function</function>\n<args>{\"key\": \"value\"}</args>\n</tool_call>\n\nYou can make multiple tool calls in a single response.\nAfter tool calls, you will receive the results and can\nthen respond to the user or call more tools.\n\n".to_owned();
        part.append(tool_descriptions);
        sections.push(part);
        assert(sections.deep_view() =~= before.push(tools_intro() + tool_descriptions@));
    }
    let ghost with_tools = sections.deep_view();
    assert(with_tools =~= section(seq![], system_prompt@) + (if catalog_is_empty(
        tool_descriptions@,
    ) {
        seq![]
    } else {
        seq![tools_intro() + tool_descriptions@]
    }));
    if soul.unicode_len() > 0 {
        let mut part = "Your soul (personality & self-knowledge):\n".to_owned();
        part.append(soul);
        sections.push(part);
        assert(sections.deep_view() =~= with_tools.push(soul_heading() + soul@));
    }
    assert(sections.deep_view() =~= with_tools + section(soul_heading(), soul@));
    let ghost with_soul = sections.deep_view();
    if skills.unicode_len() > 0 {
        let mut part = "Your skills:\n".to_owned();
        part.append(skills);
        sections.push(part);
        assert(sections.deep_view() =~= with_soul.push(skills_heading() + skills@));
    }
    assert(sections.deep_view() =~= with_soul + section(skills_heading(), skills@));
    let ghost with_skills = sections.deep_view();
    if memory_mention.unicode_len() > 0 {
        sections.push(memory_mention.to_owned());
        assert(sections.deep_view() =~= with_skills.push(memory_mention@));
        assert(seq![] + memory_mention@ =~= memory_mention@);
    }
    assert(sections.deep_view() =~= with_skills + section(seq![], memory_mention@));
    assert(sections.deep_view() =~= context_sections(
        system_prompt@,
        tool_descriptions@,
        soul@,
        skills@,
        memory_mention@,
    ));
    join_strings(&sections, "\n\n")
}

} // verus!

//! The settings of the agent, from the texts that configure it.
//!
//! Each setting comes as an optional text, as the environment holds it. A
//! missing model and a missing state directory are errors; every other
//! setting has a default.

use crate::number::{parse_usize, unsigned_number};
use crate::orchestrator::{TurnConfig, DEFAULT_MAX_TOOL_ROUNDS};
use crate::prompt::{DEFAULT_MAX_PROMPT_CHARS, TOOL_RESULT_TRUNCATE_CHARS};
use crate::text::{chars_of, find_char, find_in, slice_string};
use vstd::prelude::*;

verus! {

/// A setting without which no turn can run.
#[derive(Clone, Copy, Debug, PartialEq, Eq, Structural)]
pub enum ConfigError {
    /// No model is configured.
    MissingModel,
    /// No directory is configured that could hold the agent's state.
    NoStateDirectory,
}

impl ConfigError {
    /// The text that reports the error.
    pub open spec fn text(self) -> Seq<char> {
        match self {
            ConfigError::MissingModel => "error: ASTERBOT_MODEL env var is required"@,
            ConfigError::NoStateDirectory => "error: no state directory available — pass --allow-dir to grant filesystem access"@,
        }
    }

    /// The text that reports the error.
    pub fn message(&self) -> (r: String)
        ensures
            r@ == self.text(),
    {
        match self {
            ConfigError::MissingModel => "error: ASTERBOT_MODEL env var is required".to_owned(),
            ConfigError::NoStateDirectory => "error: no state directory available — pass --allow-dir to grant filesystem access".to_owned(),
        }
    }
}

/// What the stores of the soul and of the memory report when there is no
/// directory for them.
pub open spec fn store_directory_notice() -> Seq<char> {
    "error: no host directory available — pass --allow-dir"@
}

/// What stands in `s` before the first `sep`, or all of `s` if it holds none.
pub open spec fn first_piece(s: Seq<char>, sep: char) -> Seq<char> {
    match find_char(s, sep) {
        Some(i) => s.take(i),
        None => s,
    }
}

/// The state directory: the configured one if it is not empty, else the
/// first of the colon-separated allowed directories if that is not empty.
pub open spec fn state_directory(host_dir: Option<Seq<char>>, allowed_dirs: Option<Seq<char>>) -> Option<
    Seq<char>,
> {
    match host_dir {
        Some(d) if d.len() > 0 => Some(d),
        _ => match allowed_dirs {
            Some(a) if first_piece(a, ':').len() > 0 => Some(first_piece(a, ':')),
            _ => None,
        },
    }
}

/// The number that configures a count: what `value` reads as, or `default`
/// if it is missing or reads as no number.
pub open spec fn count_or(value: Option<Seq<char>>, default: usize) -> usize {
    match value {
        Some(v) => match unsigned_number(v, usize::MAX as nat) {
            Some(n) => n as usize,
            None => default,
        },
        None => default,
    }
}

/// The cap that configures the length of the log: what `value` reads as, or
/// none if it is missing or reads as no number.
pub open spec fn cap_of(value: Option<Seq<char>>) -> Option<usize> {
    match value {
        Some(v) => match unsigned_number(v, usize::MAX as nat) {
            Some(n) => Some(n as usize),
            None => None,
        },
        None => None,
    }
}

/// What the stores of the soul and of the memory report when there is no
/// directory for them.
pub fn store_directory_message() -> (r: String)
    ensures
        r@ == store_directory_notice(),
{
    "error: no host directory available — pass --allow-dir".to_owned()
}

/// The model to ask, or an error if none is configured or the configured
/// name is empty.
pub fn resolve_model(model: Option<&str>) -> (r: Result<String, ConfigError>)
    ensures
        match r {
            Ok(name) => model matches Some(m) && m@.len() > 0 && name@ == m@,
            Err(e) => e == ConfigError::MissingModel && !(model matches Some(m) && m@.len() > 0),
        },
{
    match model {
        Some(m) => {
            if m.unicode_len() > 0 {
                Ok(m.to_owned())
            } else {
                Err(ConfigError::MissingModel)
            }
        },
        None => Err(ConfigError::MissingModel),
    }
}

/// What stands in `s` before the first `sep`.
pub fn first_piece_of(s: &str, sep: char) -> (r: String)
    ensures
        r@ == first_piece(s@, sep),
{
    let chars = chars_of(s);
    let n = chars.len();
    let mut needle: Vec<char> = Vec::new();
    needle.push(sep);
    assert(needle@ =~= seq![sep]);
    assert(chars@.subrange(0, n as int) =~= s@);
    match find_in(&chars, 0, n, &needle) {
        Some(i) => {
            assert(s@.subrange(0, i as int) =~= s@.take(i as int));
            slice_string(s, 0, i)
        },
        None => s.to_owned(),
    }
}

/// The directory that holds the agent's state: `host_dir` if it is set and
/// not empty, else the first entry of the colon-separated `allowed_dirs` if
/// that is set and not empty; an error if there is neither.
pub fn resolve_host_dir(host_dir: Option<&str>, allowed_dirs: Option<&str>) -> (r: Result<
    String,
    ConfigError,
>)
    ensures
        match r {
            Ok(dir) => state_directory(host_dir.deep_view(), allowed_dirs.deep_view()) == Some(dir@),
            Err(e) => e == ConfigError::NoStateDirectory && state_directory(
                host_dir.deep_view(),
                allowed_dirs.deep_view(),
            ) is None,
        },
{
    match host_dir {
        Some(d) => {
            if d.unicode_len() > 0 {
                return Ok(d.to_owned());
            }
        },
        None => {},
    }
    match allowed_dirs {
        Some(a) => {
            let first = first_piece_of(a, ':');
            if first.as_str().unicode_len() > 0 {
                return Ok(first);
            }
        },
        None => {},
    }
    Err(ConfigError::NoStateDirectory)
}

/// The count that `value` configures, or `default` if it is missing or reads
/// as no number.
pub fn configured_count(value: Option<&str>, default: usize) -> (r: usize)
    ensures
        r == count_or(value.deep_view(), default),
{
    match value {
        Some(v) => match parse_usize(v) {
            Some(n) => n,
            None => default,
        },
        None => default,
    }
}

/// The cap that `value` configures, or none if it is missing or reads as no
/// number.
pub fn configured_cap(value: Option<&str>) -> (r: Option<usize>)
    ensures
        r == cap_of(value.deep_view()),
{
    match value {
        Some(v) => parse_usize(v),
        None => None,
    }
}

/// The limits of a turn from the texts that configure them: the number of
/// tool rounds, the budget of characters of a prompt, the number of
/// characters of a tool result that a prompt shows, each with its default,
/// and the cap of the log, which is off unless configured.
pub fn turn_config(
    max_tool_rounds: Option<&str>,
    max_prompt_chars: Option<&str>,
    tool_result_chars: Option<&str>,
    max_messages: Option<&str>,
) -> (r: TurnConfig)
    ensures
        r.max_tool_rounds == count_or(max_tool_rounds.deep_view(), DEFAULT_MAX_TOOL_ROUNDS),
        r.max_prompt_chars == count_or(max_prompt_chars.deep_view(), DEFAULT_MAX_PROMPT_CHARS),
        r.tool_result_chars == count_or(tool_result_chars.deep_view(), TOOL_RESULT_TRUNCATE_CHARS),
        r.max_messages == cap_of(max_messages.deep_view()),
{
    TurnConfig {
        max_tool_rounds: configured_count(max_tool_rounds, DEFAULT_MAX_TOOL_ROUNDS),
        max_prompt_chars: configured_count(max_prompt_chars, DEFAULT_MAX_PROMPT_CHARS),
        tool_result_chars: configured_count(tool_result_chars, TOOL_RESULT_TRUNCATE_CHARS),
        max_messages: configured_cap(max_messages),
    }
}

} // verus!

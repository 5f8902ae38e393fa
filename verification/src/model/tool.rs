use vstd::prelude::*;

use crate::checks::{first_failure, lemma_first_failure_skip};
use crate::command_builder::{replace_placeholders, substitute};
use crate::json::{entries_data, lemma_object_data, JsonData, JsonValue};
use crate::model::validation::{
    argument_failure, bound_values, call_check, declares_exec, input_entries, parameter_failure,
    parameter_text_exec, path_allowed_exec, texts, unknown_input, unknown_placeholder,
    ValidationFailure,
};
use crate::parameters::ParameterMap;
use crate::service::runs_tool;

verus! {

/// A tool as the configuration describes it.
#[derive(Debug, Clone)]
pub struct ToolDefinition {
    pub name: String,
    pub description: String,
    pub command: String,
    pub arguments: Vec<String>,
    pub parameters: Vec<ToolParameter>,
    pub timeout_ms: Option<u64>,
    pub read_only: bool,
    pub category: Option<String>,
    pub working_directory: Option<String>,
}

/// An input parameter that a tool accepts.
#[derive(Debug, Clone)]
pub struct ToolParameter {
    pub name: String,
    pub parameter_type: ParameterType,
    pub required: bool,
    pub default: Option<JsonValue>,
    pub allowed_values: Option<Vec<String>>,
}

/// The kinds of value a parameter may take.
#[derive(Debug, Clone, PartialEq, Eq, Structural)]
pub enum ParameterType {
    String,
    Integer,
    Boolean,
    Path,
    Enum,
}

/// Where path parameters may and may not point.
#[derive(Debug, Clone)]
pub struct SecurityPolicy {
    pub allowed_paths: Vec<String>,
    pub blocked_paths: Vec<String>,
}

/// A tool call ready to be run.
#[derive(Debug, Clone, PartialEq, Eq)]
pub struct ResolvedToolCall {
    pub command: String,
    pub arguments: Vec<String>,
    pub working_directory: Option<String>,
    pub timeout_ms: u64,
}

/// Why a tool call was refused.
#[derive(Debug, Clone, PartialEq, Eq)]
pub enum ToolValidationError {
    MissingParameter(String),
    InvalidParameterType { parameter: String, expected: ParameterType },
    InvalidEnumValue { parameter: String, value: String, allowed_values: Vec<String> },
    PathNotAllowed(String),
    UnknownPlaceholder(String),
    UnknownParameter(String),
}

/// The timeout that a tool runs with when its definition names none.
pub open spec fn default_timeout_ms() -> u64 {
    5000
}

/// The timeout that a tool runs with.
pub open spec fn effective_timeout(tool: ToolDefinition) -> u64 {
    match tool.timeout_ms {
        Some(t) => t,
        None => default_timeout_ms(),
    }
}

/// The lowercase name under which a parameter type is written.
pub open spec fn type_label(t: ParameterType) -> Seq<char> {
    match t {
        ParameterType::String => "string"@,
        ParameterType::Integer => "integer"@,
        ParameterType::Boolean => "boolean"@,
        ParameterType::Path => "path"@,
        ParameterType::Enum => "enum"@,
    }
}

impl ParameterType {
    /// The lowercase name under which the type is written in a configuration.
    pub fn as_str(&self) -> (r: &'static str)
        ensures
            r@ == type_label(*self),
    {
        match self {
            ParameterType::String => "string",
            ParameterType::Integer => "integer",
            ParameterType::Boolean => "boolean",
            ParameterType::Path => "path",
            ParameterType::Enum => "enum",
        }
    }
}

/// Checks a call of `tool` with `input` against the tool's parameters and the
/// policy, and resolves it into the command that runs it. The checks, in
/// order: every input name must be a parameter of the tool; every parameter
/// must have a value, from the input or its default, that fits its type,
/// unless it is optional and has none; every placeholder of the arguments and
/// working directory must name a parameter; and the working directory must be
/// a path that may be used. The call then carries the tool's command, its
/// arguments and working directory with each placeholder replaced by its
/// parameter's text, and its timeout, 5000 ms where the tool names none. An
/// input that is not an object supplies no values; a placeholder of an
/// optional parameter that has no value stays as it is.
pub fn validate_tool_call(
    tool: &ToolDefinition,
    input: &JsonValue,
    policy: &SecurityPolicy,
) -> (r: Result<ResolvedToolCall, ToolValidationError>)
    ensures
        match r {
            Ok(call) => {
                &&& call_check(
                    *tool,
                    input.data(),
                    texts(policy.allowed_paths@),
                    texts(policy.blocked_paths@),
                ) is Ok
                &&& runs_tool(
                    call,
                    *tool,
                    bound_values(
                        tool.parameters@,
                        input.data(),
                        texts(policy.allowed_paths@),
                        texts(policy.blocked_paths@),
                    ),
                )
            },
            Err(e) => call_check(
                *tool,
                input.data(),
                texts(policy.allowed_paths@),
                texts(policy.blocked_paths@),
            ) == Err::<(), ValidationFailure>(e@),
        },
{
    let ghost d = input.data();
    let ghost allowed = texts(policy.allowed_paths@);
    let ghost blocked = texts(policy.blocked_paths@);
    let ghost unknown = |i: int| unknown_input(*tool, d, i);
    let ghost failing = |i: int| parameter_failure(*tool, d, allowed, blocked, i);
    let ghost misplaced = |i: int| argument_failure(*tool, i);
    let ghost n_input = input_entries(d).len() as int;
    // Every input name must be a parameter.
    match input {
        JsonValue::Object(entries) => {
            proof {
                lemma_object_data(*entries);
            }
            let mut k: usize = 0;
            while k < entries.len()
                invariant
                    k <= entries@.len(),
                    d == input.data(),
                    d == JsonData::Object(entries_data(entries@)),
                    n_input == entries@.len(),
                    unknown == (|i: int| unknown_input(*tool, d, i)),
                    forall|j: int| 0 <= j < k ==> #[trigger] unknown(j) is None,
                decreases entries.len() - k,
            {
                assert(input_entries(d)[k as int].0 == entries@[k as int].0@);
                if !declares_exec(tool, entries[k].0.as_str()) {
                    proof {
                        lemma_first_failure_skip(k as int, n_input, unknown);
                    }
                    return Err(ToolValidationError::UnknownParameter(entries[k].0.clone()));
                }
                k = k + 1;
            }
            proof {
                lemma_first_failure_skip(k as int, n_input, unknown);
            }
        },
        _ => {
            assert(input_entries(d).len() == 0);
        },
    }
    assert(first_failure(0, n_input, unknown) is Ok);
    // Every parameter must have a value that fits it, unless it is optional.
    let mut values = ParameterMap::new();
    let mut i: usize = 0;
    assert(tool.parameters@.take(0) =~= Seq::<ToolParameter>::empty());
    while i < tool.parameters.len()
        invariant
            i <= tool.parameters@.len(),
            d == input.data(),
            allowed == texts(policy.allowed_paths@),
            blocked == texts(policy.blocked_paths@),
            failing == (|i: int| parameter_failure(*tool, d, allowed, blocked, i)),
            forall|j: int| 0 <= j < i ==> #[trigger] failing(j) is None,
            unknown == (|i: int| unknown_input(*tool, d, i)),
            n_input == input_entries(d).len(),
            first_failure(0, n_input, unknown) is Ok,
            values@ == bound_values(tool.parameters@.take(i as int), d, allowed, blocked),
        decreases tool.parameters.len() - i,
    {
        let p = &tool.parameters[i];
        let ghost seen = tool.parameters@.take(i + 1);
        assert(seen.drop_last() =~= tool.parameters@.take(i as int));
        assert(seen.last() == *p);
        let value: Option<&JsonValue> = match input.get(p.name.as_str()) {
            Some(v) => Some(v),
            None => match &p.default {
                Some(v) => Some(v),
                None => None,
            },
        };
        match value {
            None => {
                if p.required {
                    proof {
                        lemma_first_failure_skip(i as int, tool.parameters@.len() as int, failing);
                    }
                    return Err(ToolValidationError::MissingParameter(p.name.clone()));
                }
            },
            Some(v) => {
                match parameter_text_exec(p, v, &policy.allowed_paths, &policy.blocked_paths) {
                    Ok(t) => {
                        values.insert(p.name.clone(), t);
                    },
                    Err(e) => {
                        proof {
                            lemma_first_failure_skip(
                                i as int,
                                tool.parameters@.len() as int,
                                failing,
                            );
                        }
                        return Err(e);
                    },
                }
            },
        }
        assert(failing(i as int) is None);
        i = i + 1;
    }
    proof {
        lemma_first_failure_skip(i as int, tool.parameters@.len() as int, failing);
    }
    assert(tool.parameters@.take(i as int) =~= tool.parameters@);
    // Every placeholder of the arguments must name a parameter.
    let mut a: usize = 0;
    while a < tool.arguments.len()
        invariant
            a <= tool.arguments@.len(),
            misplaced == (|i: int| argument_failure(*tool, i)),
            forall|j: int| 0 <= j < a ==> #[trigger] misplaced(j) is None,
            d == input.data(),
            allowed == texts(policy.allowed_paths@),
            blocked == texts(policy.blocked_paths@),
            unknown == (|i: int| unknown_input(*tool, d, i)),
            n_input == input_entries(d).len(),
            first_failure(0, n_input, unknown) is Ok,
            failing == (|i: int| parameter_failure(*tool, d, allowed, blocked, i)),
            first_failure(0, tool.parameters@.len() as int, failing) is Ok,
        decreases tool.arguments.len() - a,
    {
        match unknown_placeholder(tool, tool.arguments[a].as_str()) {
            Some(name) => {
                proof {
                    lemma_first_failure_skip(a as int, tool.arguments@.len() as int, misplaced);
                }
                return Err(ToolValidationError::UnknownPlaceholder(name));
            },
            None => {},
        }
        assert(misplaced(a as int) is None);
        a = a + 1;
    }
    proof {
        lemma_first_failure_skip(a as int, tool.arguments@.len() as int, misplaced);
    }
    // The working directory must name parameters only, and be a path that may be used.
    let working_directory = match &tool.working_directory {
        Some(dir) => {
            match unknown_placeholder(tool, dir.as_str()) {
                Some(name) => {
                    return Err(ToolValidationError::UnknownPlaceholder(name));
                },
                None => {},
            }
            let resolved = replace_placeholders(dir.as_str(), &values);
            if !path_allowed_exec(resolved.as_str(), &policy.allowed_paths, &policy.blocked_paths) {
                return Err(ToolValidationError::PathNotAllowed(resolved));
            }
            Some(resolved)
        },
        None => None,
    };
    let mut arguments: Vec<String> = Vec::new();
    let mut k: usize = 0;
    while k < tool.arguments.len()
        invariant
            k <= tool.arguments@.len(),
            arguments@.len() == k,
            forall|j: int|
                0 <= j < k ==> #[trigger] arguments@[j]@ == substitute(
                    tool.arguments@[j]@,
                    values@,
                ),
        decreases tool.arguments.len() - k,
    {
        arguments.push(replace_placeholders(tool.arguments[k].as_str(), &values));
        k = k + 1;
    }
    let timeout_ms = match tool.timeout_ms {
        Some(t) => t,
        None => 5000,
    };
    Ok(ResolvedToolCall {
        command: tool.command.clone(),
        arguments,
        working_directory,
        timeout_ms,
    })
}

} // verus!

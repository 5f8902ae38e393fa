use vstd::prelude::*;

use crate::command_builder::{build_command, required_check, substitute};
use crate::json::{entries_data, lemma_object_data, text_value, JsonData, JsonValue};
use crate::model::tool::{effective_timeout, validate_tool_call};
use crate::model::validation::{bound_values, call_check, failure_message, texts};
use crate::model::{ResolvedToolCall, SecurityPolicy, ToolDefinition};
use crate::parameters::ParameterMap;
use crate::registry::{find_named, ToolRegistry};

verus! {

/// `call` runs `tool` with the given parameter values: the tool's command,
/// its arguments and working directory with every placeholder filled in, and
/// its timeout.
pub open spec fn runs_tool(
    call: ResolvedToolCall,
    tool: ToolDefinition,
    values: Seq<(Seq<char>, Seq<char>)>,
) -> bool {
    &&& call.command == tool.command
    &&& call.arguments@.len() == tool.arguments@.len()
    &&& forall|i: int|
        0 <= i < tool.arguments@.len() ==> #[trigger] call.arguments@[i]@ == substitute(
            tool.arguments@[i]@,
            values,
        )
    &&& match (call.working_directory, tool.working_directory) {
        (Some(w), Some(d)) => w@ == substitute(d@, values),
        (None, None) => true,
        _ => false,
    }
    &&& call.timeout_ms == effective_timeout(tool)
}

/// The input of a call whose parameter values arrive as text: an object with
/// one string member per value, in order.
pub open spec fn text_input(values: Seq<(Seq<char>, Seq<char>)>) -> JsonData {
    JsonData::Object(Seq::new(values.len(), |i: int| (values[i].0, JsonData::Text(values[i].1))))
}

/// The check of a call of `tool` with text values, under a policy that adds
/// no roots to the default ones, with the refusal as a sentence.
pub open spec fn text_call_check(tool: ToolDefinition, values: Seq<(Seq<char>, Seq<char>)>) -> Result<
    (),
    Seq<char>,
> {
    match call_check(tool, text_input(values), Seq::empty(), Seq::empty()) {
        Err(f) => Err(failure_message(f)),
        Ok(()) => Ok(()),
    }
}

/// The parameters of `tool` that a call with text values binds, each with its
/// text.
pub open spec fn text_bindings(tool: ToolDefinition, values: Seq<(Seq<char>, Seq<char>)>) -> Seq<
    (Seq<char>, Seq<char>),
> {
    bound_values(tool.parameters@, text_input(values), Seq::empty(), Seq::empty())
}

/// The input object of a call with the given parameter values.
pub fn text_input_value(parameters: &ParameterMap) -> (r: JsonValue)
    ensures
        r.data() == text_input(parameters@),
{
    let mut entries: Vec<(String, JsonValue)> = Vec::new();
    let n = parameters.len();
    let mut i: usize = 0;
    while i < n
        invariant
            n == parameters@.len(),
            i <= n,
            entries@.len() == i,
            forall|k: int|
                0 <= k < i ==> (#[trigger] entries@[k]).0@ == parameters@[k].0 && entries@[k].1.data()
                    == JsonData::Text(parameters@[k].1),
        decreases n - i,
    {
        let key = parameters.key_at(i).clone();
        let value = text_value(parameters.value_at(i).as_str());
        entries.push((key, value));
        i = i + 1;
    }
    proof {
        lemma_object_data(entries);
        if let JsonData::Object(e) = text_input(parameters@) {
            assert(entries_data(entries@) =~= e);
        }
    }
    JsonValue::Object(entries)
}

/// Runs the tools of a registry.
#[derive(Debug)]
pub struct ToolExecutionService {
    registry: ToolRegistry,
}

impl View for ToolExecutionService {
    type V = Seq<ToolDefinition>;

    closed spec fn view(&self) -> Seq<ToolDefinition> {
        self.registry@
    }
}

impl ToolExecutionService {
    /// A service that runs the tools of `registry`.
    pub fn new(registry: ToolRegistry) -> (r: Self)
        ensures
            r@ == registry@,
    {
        ToolExecutionService { registry }
    }

    /// The registry whose tools the service runs.
    pub fn registry(&self) -> (r: &ToolRegistry)
        ensures
            r@ == self@,
    {
        &self.registry
    }

    /// Resolves a call of the tool named `tool_name` with the given parameter
    /// values into the process to run. Fails when no tool has that name, when
    /// a required parameter of the tool has no value or a blank one, or when
    /// the call does not pass the tool's checks: every value must belong to a
    /// parameter and fit its type, every placeholder must name a parameter,
    /// and paths must be plain, absolute and outside the blocked roots.
    /// Parameters without a value take their defaults.
    pub fn prepare_call(&self, tool_name: &str, parameters: &ParameterMap) -> (r: Result<
        ResolvedToolCall,
        String,
    >)
        ensures
            match find_named(self@, tool_name@) {
                None => r matches Err(m) && m@ == "Tool '"@ + tool_name@ + "' was not found"@,
                Some(tool) => match required_check(tool, parameters@) {
                    Err(m) => r matches Err(e) && e@ == m,
                    Ok(()) => match text_call_check(tool, parameters@) {
                        Err(m) => r matches Err(e) && e@ == m,
                        Ok(()) => r matches Ok(call) && runs_tool(
                            call,
                            tool,
                            text_bindings(tool, parameters@),
                        ),
                    },
                },
            },
    {
        let tool = match self.registry.find_tool(tool_name) {
            Ok(tool) => tool,
            Err(e) => {
                return Err(e);
            },
        };
        match build_command(tool, parameters) {
            Ok(_) => {},
            Err(e) => {
                return Err(e);
            },
        }
        let input = text_input_value(parameters);
        let policy = SecurityPolicy { allowed_paths: Vec::new(), blocked_paths: Vec::new() };
        proof {
            assert(texts(policy.allowed_paths@) =~= Seq::<Seq<char>>::empty());
            assert(texts(policy.blocked_paths@) =~= Seq::<Seq<char>>::empty());
        }
        match validate_tool_call(tool, &input, &policy) {
            Ok(call) => Ok(call),
            Err(e) => Err(e.message()),
        }
    }
}

} // verus!

use vstd::prelude::*;

use crate::checks::{first_failure, lemma_first_failure_meaning, lemma_first_failure_skip, outcome};
use crate::model::ToolDefinition;
use crate::text::{is_blank, is_blank_text, lowercase, to_lowercase};

verus! {

/// Whether one of the first `i` names has the same lowercase form as `name`.
pub open spec fn earlier_lowercase(names: Seq<Seq<char>>, i: int, name: Seq<char>) -> bool {
    exists|j: int| 0 <= j < i && #[trigger] lowercase(names[j]) == lowercase(name)
}

/// The names of a tool's parameters, in order.
pub open spec fn parameter_names(tool: ToolDefinition) -> Seq<Seq<char>> {
    Seq::new(tool.parameters@.len(), |i: int| tool.parameters@[i].name@)
}

/// The names of the tools, in order.
pub open spec fn tool_names(tools: Seq<ToolDefinition>) -> Seq<Seq<char>> {
    Seq::new(tools.len(), |i: int| tools[i].name@)
}

/// What is wrong with the `i`-th parameter of `tool`: a blank name, or a name
/// that an earlier parameter already has, letter case aside.
pub open spec fn parameter_problem(tool: ToolDefinition, i: int) -> Option<Seq<char>> {
    let name = tool.parameters@[i].name@;
    if is_blank(name) {
        Some("Tool '"@ + tool.name@ + "' has a parameter with an empty name"@)
    } else if earlier_lowercase(parameter_names(tool), i, name) {
        Some("Tool '"@ + tool.name@ + "' has duplicate parameter name: "@ + name)
    } else {
        None
    }
}

/// The check of a tool's parameters.
pub open spec fn parameters_check(tool: ToolDefinition) -> Result<(), Seq<char>> {
    first_failure(0, tool.parameters@.len() as int, |i: int| parameter_problem(tool, i))
}

/// The check of one tool: its name, description and command must not be
/// blank, a timeout that it names must be positive, and its parameters must
/// pass their check.
pub open spec fn tool_check(tool: ToolDefinition) -> Result<(), Seq<char>> {
    if is_blank(tool.name@) {
        Err("Tool name cannot be empty"@)
    } else if is_blank(tool.description@) {
        Err("Tool '"@ + tool.name@ + "' must have a description"@)
    } else if is_blank(tool.command@) {
        Err("Tool '"@ + tool.name@ + "' must have a command"@)
    } else if tool.timeout_ms == Some(0u64) {
        Err("Tool '"@ + tool.name@ + "' must have a timeout greater than 0"@)
    } else {
        parameters_check(tool)
    }
}

/// What is wrong with the `i`-th tool of a configuration: it fails its own
/// check, or an earlier tool has the same name, letter case aside.
pub open spec fn tool_problem(tools: Seq<ToolDefinition>, i: int) -> Option<Seq<char>> {
    match tool_check(tools[i]) {
        Err(m) => Some(m),
        Ok(()) => if earlier_lowercase(tool_names(tools), i, tools[i].name@) {
            Some("Duplicate tool name: "@ + tools[i].name@)
        } else {
            None
        },
    }
}

/// The check of a whole configuration: the first problem of its tools, in order.
pub open spec fn tools_check(tools: Seq<ToolDefinition>) -> Result<(), Seq<char>> {
    first_failure(0, tools.len() as int, |i: int| tool_problem(tools, i))
}

/// Checks a configuration. Succeeds when every tool passes its check and no
/// two tools share a name, letter case aside; otherwise fails with the message
/// about the first tool, in order, that does not.
pub fn validate_tools(tools: &[ToolDefinition]) -> (r: Result<(), String>)
    ensures
        outcome(r) == tools_check(tools@),
{
    let ghost check = |i: int| tool_problem(tools@, i);
    let mut seen: Vec<String> = Vec::new();
    let mut i: usize = 0;
    while i < tools.len()
        invariant
            i <= tools@.len(),
            check == (|i: int| tool_problem(tools@, i)),
            seen@.len() == i,
            forall|k: int| 0 <= k < i ==> #[trigger] seen@[k]@ == lowercase(tools@[k].name@),
            forall|j: int| 0 <= j < i ==> #[trigger] check(j) is None,
        decreases tools.len() - i,
    {
        let tool = &tools[i];
        match validate_tool(tool) {
            Ok(()) => {},
            Err(e) => {
                proof {
                    lemma_first_failure_skip(i as int, tools@.len() as int, check);
                }
                return Err(e);
            },
        }
        let normalized = to_lowercase(tool.name.as_str());
        let duplicate = contains_text(&seen, &normalized);
        proof {
            let names = tool_names(tools@);
            assert(names[i as int] == tool.name@);
            if duplicate {
                let k = choose|k: int| 0 <= k < seen@.len() && seen@[k]@ == normalized@;
                assert(names[k] == tools@[k].name@);
                assert(lowercase(names[k]) == lowercase(tool.name@));
            } else {
                assert forall|j: int| 0 <= j < i implies #[trigger] lowercase(names[j])
                    != lowercase(tool.name@) by {
                    assert(names[j] == tools@[j].name@);
                    assert(seen@[j]@ == lowercase(tools@[j].name@));
                }
            }
        }
        if duplicate {
            let mut m = String::from_str("Duplicate tool name: ");
            m.append(tool.name.as_str());
            proof {
                lemma_first_failure_skip(i as int, tools@.len() as int, check);
            }
            return Err(m);
        }
        seen.push(normalized);
        assert(check(i as int) is None);
        i = i + 1;
    }
    proof {
        lemma_first_failure_skip(i as int, tools@.len() as int, check);
    }
    Ok(())
}

/// Whether one of `items` holds the same text as `item`.
fn contains_text(items: &Vec<String>, item: &String) -> (r: bool)
    ensures
        r == exists|k: int| 0 <= k < items@.len() && items@[k]@ == item@,
{
    let mut k: usize = 0;
    while k < items.len()
        invariant
            k <= items@.len(),
            forall|j: int| 0 <= j < k ==> items@[j]@ != item@,
        decreases items.len() - k,
    {
        if items[k] == *item {
            return true;
        }
        k = k + 1;
    }
    false
}

fn tool_message(prefix: &str, tool: &ToolDefinition, suffix: &str) -> (r: String)
    ensures
        r@ == prefix@ + tool.name@ + suffix@,
{
    let mut m = String::from_str(prefix);
    m.append(tool.name.as_str());
    m.append(suffix);
    m
}

/// Checks one tool: its name, description and command must not be blank, a
/// timeout that it names must be positive, and its parameters must pass their
/// check. Fails with the message of the first check that does not pass.
pub fn validate_tool(tool: &ToolDefinition) -> (r: Result<(), String>)
    ensures
        outcome(r) == tool_check(*tool),
{
    if is_blank_text(tool.name.as_str()) {
        return Err(String::from_str("Tool name cannot be empty"));
    }
    if is_blank_text(tool.description.as_str()) {
        return Err(tool_message("Tool '", tool, "' must have a description"));
    }
    if is_blank_text(tool.command.as_str()) {
        return Err(tool_message("Tool '", tool, "' must have a command"));
    }
    if tool.timeout_ms == Some(0u64) {
        return Err(tool_message("Tool '", tool, "' must have a timeout greater than 0"));
    }
    validate_parameters(tool)
}

fn validate_parameters(tool: &ToolDefinition) -> (r: Result<(), String>)
    ensures
        outcome(r) == parameters_check(*tool),
{
    let ghost check = |i: int| parameter_problem(*tool, i);
    let mut seen: Vec<String> = Vec::new();
    let mut i: usize = 0;
    while i < tool.parameters.len()
        invariant
            i <= tool.parameters@.len(),
            check == (|i: int| parameter_problem(*tool, i)),
            seen@.len() == i,
            forall|k: int|
                0 <= k < i ==> #[trigger] seen@[k]@ == lowercase(tool.parameters@[k].name@),
            forall|j: int| 0 <= j < i ==> #[trigger] check(j) is None,
        decreases tool.parameters.len() - i,
    {
        let parameter = &tool.parameters[i];
        if is_blank_text(parameter.name.as_str()) {
            let m = tool_message("Tool '", tool, "' has a parameter with an empty name");
            proof {
                lemma_first_failure_skip(i as int, tool.parameters@.len() as int, check);
            }
            return Err(m);
        }
        let normalized = to_lowercase(parameter.name.as_str());
        let duplicate = contains_text(&seen, &normalized);
        proof {
            let names = parameter_names(*tool);
            assert(names[i as int] == parameter.name@);
            if duplicate {
                let k = choose|k: int| 0 <= k < seen@.len() && seen@[k]@ == normalized@;
                assert(names[k] == tool.parameters@[k].name@);
                assert(lowercase(names[k]) == lowercase(parameter.name@));
            } else {
                assert forall|j: int| 0 <= j < i implies #[trigger] lowercase(names[j])
                    != lowercase(parameter.name@) by {
                    assert(names[j] == tool.parameters@[j].name@);
                    assert(seen@[j]@ == lowercase(tool.parameters@[j].name@));
                }
            }
        }
        if duplicate {
            let mut m = tool_message("Tool '", tool, "' has duplicate parameter name: ");
            m.append(parameter.name.as_str());
            proof {
                lemma_first_failure_skip(i as int, tool.parameters@.len() as int, check);
            }
            return Err(m);
        }
        seen.push(normalized);
        assert(check(i as int) is None);
        i = i + 1;
    }
    proof {
        lemma_first_failure_skip(i as int, tool.parameters@.len() as int, check);
    }
    Ok(())
}

/// A configuration passes its check exactly when every tool passes its own
/// check and no two tools have the same name, letter case aside.
pub proof fn lemma_tools_check_meaning(tools: Seq<ToolDefinition>)
    ensures
        tools_check(tools) is Ok <==> {
            &&& forall|i: int| 0 <= i < tools.len() ==> #[trigger] tool_check(tools[i]) is Ok
            &&& forall|i: int, j: int|
                0 <= i < j < tools.len() ==> lowercase(#[trigger] tools[i].name@) != lowercase(
                    #[trigger] tools[j].name@,
                )
        },
{
    let check = |i: int| tool_problem(tools, i);
    lemma_first_failure_meaning(0, tools.len() as int, check);
    let names = tool_names(tools);
    if tools_check(tools) is Ok {
        assert forall|i: int, j: int| 0 <= i < j < tools.len() implies lowercase(
            #[trigger] tools[i].name@,
        ) != lowercase(#[trigger] tools[j].name@) by {
            assert(check(j) is None);
            assert(names[i] == tools[i].name@);
            assert(names[j] == tools[j].name@);
            if lowercase(tools[i].name@) == lowercase(tools[j].name@) {
                assert(lowercase(names[i]) == lowercase(tools[j].name@));
            }
        }
        assert forall|i: int| 0 <= i < tools.len() implies #[trigger] tool_check(tools[i]) is Ok by {
            assert(check(i) is None);
        }
    }
    if (forall|i: int| 0 <= i < tools.len() ==> #[trigger] tool_check(tools[i]) is Ok) && (
    forall|i: int, j: int|
        0 <= i < j < tools.len() ==> lowercase(#[trigger] tools[i].name@) != lowercase(
            #[trigger] tools[j].name@,
        )) {
        assert forall|j: int| 0 <= j < tools.len() implies #[trigger] check(j) is None by {
            assert(tool_check(tools[j]) is Ok);
            assert forall|k: int| 0 <= k < j implies #[trigger] lowercase(names[k]) != lowercase(
                tools[j].name@,
            ) by {
                assert(names[k] == tools[k].name@);
            }
        }
    }
}


/// A tool's parameters pass their check exactly when no parameter name is
/// blank and no two parameters have the same name, letter case aside.
pub proof fn lemma_parameters_check_meaning(tool: ToolDefinition)
    ensures
        parameters_check(tool) is Ok <==> {
            &&& forall|i: int|
                0 <= i < tool.parameters@.len() ==> !is_blank(#[trigger] tool.parameters@[i].name@)
            &&& forall|i: int, j: int|
                0 <= i < j < tool.parameters@.len() ==> lowercase(
                    #[trigger] tool.parameters@[i].name@,
                ) != lowercase(#[trigger] tool.parameters@[j].name@)
        },
{
    let n = tool.parameters@.len() as int;
    let check = |i: int| parameter_problem(tool, i);
    lemma_first_failure_meaning(0, n, check);
    let names = parameter_names(tool);
    if parameters_check(tool) is Ok {
        assert forall|i: int, j: int| 0 <= i < j < n implies lowercase(
            #[trigger] tool.parameters@[i].name@,
        ) != lowercase(#[trigger] tool.parameters@[j].name@) by {
            assert(check(j) is None);
            assert(names[i] == tool.parameters@[i].name@);
            assert(names[j] == tool.parameters@[j].name@);
            if lowercase(tool.parameters@[i].name@) == lowercase(tool.parameters@[j].name@) {
                assert(lowercase(names[i]) == lowercase(tool.parameters@[j].name@));
            }
        }
        assert forall|i: int| 0 <= i < n implies !is_blank(#[trigger] tool.parameters@[i].name@) by {
            assert(check(i) is None);
        }
    }
    if (forall|i: int| 0 <= i < n ==> !is_blank(#[trigger] tool.parameters@[i].name@)) && (forall|
        i: int,
        j: int,
    |
        0 <= i < j < n ==> lowercase(#[trigger] tool.parameters@[i].name@) != lowercase(
            #[trigger] tool.parameters@[j].name@,
        )) {
        assert forall|j: int| 0 <= j < n implies #[trigger] check(j) is None by {
            assert(names[j] == tool.parameters@[j].name@);
            assert(!is_blank(tool.parameters@[j].name@));
            assert forall|k: int| 0 <= k < j implies #[trigger] lowercase(names[k]) != lowercase(
                tool.parameters@[j].name@,
            ) by {
                assert(names[k] == tool.parameters@[k].name@);
            }
        }
    }
}

/// A configuration that passes validation still passes when tools are
/// removed from it or reordered: `kept` holds tools of `tools`, its `k`-th
/// tool being the one at position `at(k)`, and no position is taken twice.
pub proof fn lemma_valid_after_removal_or_reordering(
    tools: Seq<ToolDefinition>,
    kept: Seq<ToolDefinition>,
    at: spec_fn(int) -> int,
)
    requires
        tools_check(tools) is Ok,
        forall|k: int| 0 <= k < kept.len() ==> 0 <= #[trigger] at(k) < tools.len() && kept[k] == tools[at(k)],
        forall|k: int, l: int| 0 <= k < l < kept.len() ==> #[trigger] at(k) != #[trigger] at(l),
    ensures
        tools_check(kept) is Ok,
{
    lemma_tools_check_meaning(tools);
    lemma_tools_check_meaning(kept);
    assert forall|i: int| 0 <= i < kept.len() implies #[trigger] tool_check(kept[i]) is Ok by {
        assert(tool_check(tools[at(i)]) is Ok);
    }
    assert forall|i: int, j: int| 0 <= i < j < kept.len() implies lowercase(#[trigger] kept[i].name@)
        != lowercase(#[trigger] kept[j].name@) by {
        let a = at(i);
        let b = at(j);
        if a < b {
            assert(lowercase(tools[a].name@) != lowercase(tools[b].name@));
        } else {
            assert(lowercase(tools[b].name@) != lowercase(tools[a].name@));
        }
    }
}

/// The check of a tool never looks at its arguments: two tools that differ
/// in their arguments alone pass or fail it alike, with the same message.
pub proof fn lemma_tool_check_ignores_arguments(tool: ToolDefinition, other: ToolDefinition)
    requires
        other.name == tool.name,
        other.description == tool.description,
        other.command == tool.command,
        other.parameters == tool.parameters,
        other.timeout_ms == tool.timeout_ms,
    ensures
        tool_check(other) == tool_check(tool),
{
    assert(parameter_names(other) =~= parameter_names(tool));
    assert((|i: int| parameter_problem(other, i)) =~= (|i: int| parameter_problem(tool, i)));
}

/// A tool passes its own check exactly when its name, description and
/// command are not blank, it names no zero timeout, and its parameters pass
/// their check: a command is refused only when it is blank, whatever else it
/// holds (a name, a relative or an absolute path).
pub proof fn lemma_tool_check_conditions(tool: ToolDefinition)
    ensures
        tool_check(tool) is Ok <==> {
            &&& !is_blank(tool.name@)
            &&& !is_blank(tool.description@)
            &&& !is_blank(tool.command@)
            &&& tool.timeout_ms != Some(0u64)
            &&& parameters_check(tool) is Ok
        },
        !is_blank(tool.name@) && !is_blank(tool.description@) && is_blank(tool.command@) ==> tool_check(tool)
            is Err,
{
}
} // verus!

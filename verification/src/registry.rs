use vstd::prelude::*;

use crate::model::ToolDefinition;
use crate::text::same_text;

verus! {

/// No two tools have the same name.
pub open spec fn distinct_names(tools: Seq<ToolDefinition>) -> bool {
    forall|i: int, j: int| 0 <= i < j < tools.len() ==> #[trigger] tools[i].name@ != #[trigger] tools[j].name@
}

/// Whether some tool has the given name.
pub open spec fn has_name(tools: Seq<ToolDefinition>, name: Seq<char>) -> bool {
    exists|i: int| 0 <= i < tools.len() && #[trigger] tools[i].name@ == name
}

/// Whether `tool` is one of `tools`.
pub open spec fn is_among(tools: Seq<ToolDefinition>, tool: ToolDefinition) -> bool {
    exists|i: int| 0 <= i < tools.len() && #[trigger] tools[i] == tool
}

/// The tool with the given name, in a sequence where names do not repeat.
pub open spec fn find_named(tools: Seq<ToolDefinition>, name: Seq<char>) -> Option<ToolDefinition> {
    if has_name(tools, name) {
        Some(tools[choose|i: int| 0 <= i < tools.len() && #[trigger] tools[i].name@ == name])
    } else {
        None
    }
}

/// The last of the tools with the given name.
pub open spec fn last_named(tools: Seq<ToolDefinition>, name: Seq<char>) -> Option<ToolDefinition>
    decreases tools.len(),
{
    if tools.len() == 0 {
        None
    } else if tools.last().name@ == name {
        Some(tools.last())
    } else {
        last_named(tools.drop_last(), name)
    }
}

/// The names that the tools carry.
pub open spec fn names_of(tools: Seq<ToolDefinition>) -> Set<Seq<char>> {
    Set::new(|name: Seq<char>| has_name(tools, name))
}

/// A sequence of tools without repeated names that keeps, under each name,
/// the last tool of `input` with that name, holds one tool per name of
/// `input` and no other.
proof fn lemma_one_per_name(kept: Seq<ToolDefinition>, input: Seq<ToolDefinition>)
    requires
        distinct_names(kept),
        forall|name: Seq<char>| #[trigger] find_named(kept, name) == last_named(input, name),
    ensures
        forall|name: Seq<char>| has_name(kept, name) <==> #[trigger] has_name(input, name),
        kept.len() == names_of(input).len(),
        kept.len() == 0 <==> input.len() == 0,
{
    assert forall|name: Seq<char>| has_name(kept, name) <==> #[trigger] has_name(input, name) by {
        lemma_last_named(input, name);
        assert(find_named(kept, name) == last_named(input, name));
    }
    let names = kept.map_values(|t: ToolDefinition| t.name@);
    assert(names.no_duplicates()) by {
        assert forall|i: int, j: int| 0 <= i < names.len() && 0 <= j < names.len() && i != j implies names[i]
            != names[j] by {
            if i < j {
                assert(kept[i].name@ != kept[j].name@);
            } else {
                assert(kept[j].name@ != kept[i].name@);
            }
        }
    }
    names.unique_seq_to_set();
    assert(names.to_set() =~= names_of(input)) by {
        assert forall|name: Seq<char>| names.to_set().contains(name) implies #[trigger] names_of(input).contains(name) by {
            let i = choose|i: int| 0 <= i < names.len() && names[i] == name;
            assert(kept[i].name@ == name);
        }
        assert forall|name: Seq<char>| #[trigger] names_of(input).contains(name) implies names.to_set().contains(name) by {
            assert(has_name(kept, name));
            let i = choose|i: int| 0 <= i < kept.len() && #[trigger] kept[i].name@ == name;
            assert(names[i] == name);
        }
    }
    if input.len() > 0 {
        assert(has_name(input, input[0].name@));
        assert(has_name(kept, input[0].name@));
    }
    if kept.len() > 0 {
        assert(has_name(kept, kept[0].name@));
        assert(has_name(input, kept[0].name@));
    }
}

/// The tools that a server offers, each under its name.
#[derive(Debug)]
pub struct ToolRegistry {
    tools: Vec<ToolDefinition>,
}

impl View for ToolRegistry {
    type V = Seq<ToolDefinition>;

    closed spec fn view(&self) -> Seq<ToolDefinition> {
        self.tools@
    }
}

/// In a sequence where names do not repeat, the tool at a position is the one
/// found under its name.
pub proof fn lemma_find_at(tools: Seq<ToolDefinition>, i: int)
    requires
        distinct_names(tools),
        0 <= i < tools.len(),
    ensures
        find_named(tools, tools[i].name@) == Some(tools[i]),
{
    let name = tools[i].name@;
    assert(has_name(tools, name));
    let j = choose|j: int| 0 <= j < tools.len() && #[trigger] tools[j].name@ == name;
    if j < i {
        assert(tools[j].name@ != tools[i].name@);
    } else if i < j {
        assert(tools[i].name@ != tools[j].name@);
    }
}

/// A tool with a given name is among the tools exactly when the last of them
/// with that name exists, and that one then has the name.
pub proof fn lemma_last_named(tools: Seq<ToolDefinition>, name: Seq<char>)
    ensures
        last_named(tools, name) is Some <==> has_name(tools, name),
        last_named(tools, name) matches Some(t) ==> t.name@ == name && exists|i: int|
            0 <= i < tools.len() && #[trigger] tools[i] == t,
    decreases tools.len(),
{
    if tools.len() > 0 {
        let rest = tools.drop_last();
        lemma_last_named(rest, name);
        if tools.last().name@ == name {
            assert(tools[tools.len() - 1] == tools.last());
        } else {
            assert forall|i: int| 0 <= i < rest.len() implies #[trigger] rest[i] == tools[i] by {}
            if has_name(tools, name) {
                let i = choose|i: int| 0 <= i < tools.len() && #[trigger] tools[i].name@ == name;
                assert(i < tools.len() - 1);
                assert(rest[i] == tools[i]);
            }
            if let Some(t) = last_named(rest, name) {
                let i = choose|i: int| 0 <= i < rest.len() && #[trigger] rest[i] == t;
                assert(tools[i] == t);
            }
        }
    }
}

/// The position of the tool with the given name, if any.
fn position_of(tools: &Vec<ToolDefinition>, name: &str) -> (r: Option<usize>)
    ensures
        match r {
            Some(p) => p < tools@.len() && tools@[p as int].name@ == name@,
            None => !has_name(tools@, name@),
        },
{
    let mut j: usize = 0;
    while j < tools.len()
        invariant
            j <= tools@.len(),
            forall|m: int| 0 <= m < j ==> #[trigger] tools@[m].name@ != name@,
        decreases tools.len() - j,
    {
        if same_text(tools[j].name.as_str(), name) {
            return Some(j);
        }
        j = j + 1;
    }
    None
}

/// Taking in the last of `seen` keeps every name found as the last tool with it.
proof fn lemma_registry_step(
    before: Seq<ToolDefinition>,
    after: Seq<ToolDefinition>,
    seen: Seq<ToolDefinition>,
    p: int,
)
    requires
        seen.len() > 0,
        distinct_names(before),
        distinct_names(after),
        forall|name: Seq<char>| #[trigger] find_named(before, name) == last_named(seen.drop_last(), name),
        0 <= p <= before.len(),
        p < before.len() ==> after == before.update(p, seen.last()) && before[p].name@ == seen.last().name@,
        p == before.len() ==> after == before.push(seen.last()) && !has_name(before, seen.last().name@),
    ensures
        forall|name: Seq<char>| #[trigger] find_named(after, name) == last_named(seen, name),
{
    let tool = seen.last();
    assert forall|name: Seq<char>| #[trigger] find_named(after, name) == last_named(seen, name) by {
        assert(after[p] == tool);
        if name == tool.name@ {
            lemma_find_at(after, p);
            assert(last_named(seen, name) == Some(tool));
        } else {
            assert(last_named(seen, name) == last_named(seen.drop_last(), name));
            assert(find_named(before, name) == last_named(seen.drop_last(), name));
            assert forall|i: int| 0 <= i < after.len() && i != p implies #[trigger] after[i] == before[i] by {}
            if has_name(before, name) {
                let i = choose|i: int| 0 <= i < before.len() && #[trigger] before[i].name@ == name;
                lemma_find_at(before, i);
                assert(i != p);
                assert(after[i] == before[i]);
                lemma_find_at(after, i);
                assert(find_named(after, name) == find_named(before, name));
            } else {
                if has_name(after, name) {
                    let i = choose|i: int| 0 <= i < after.len() && #[trigger] after[i].name@ == name;
                    assert(i != p);
                    assert(before[i] == after[i]);
                }
                assert(find_named(after, name) == find_named(before, name));
            }
        }
    }
}

impl ToolRegistry {
    #[verifier::type_invariant]
    closed spec fn names_are_distinct(self) -> bool {
        distinct_names(self@)
    }

    /// A registry of the given tools. Where several tools have the same name,
    /// the last of them is the one kept.
    pub fn new(tools: Vec<ToolDefinition>) -> (r: Self)
        ensures
            distinct_names(r@),
            forall|name: Seq<char>| #[trigger] find_named(r@, name) == last_named(tools@, name),
            forall|j: int| 0 <= j < r@.len() ==> is_among(tools@, #[trigger] r@[j]),
            forall|name: Seq<char>| has_name(r@, name) <==> #[trigger] has_name(tools@, name),
            r@.len() == names_of(tools@).len(),
            r@.len() == 0 <==> tools@.len() == 0,
    {
        let ghost input = tools@;
        let total = tools.len();
        let mut kept: Vec<ToolDefinition> = Vec::new();
        let mut rest = tools;
        let mut k: usize = 0;
        // Tools are taken from the front of `rest`, which holds `input` from position `k` on.
        assert(rest@ =~= input.skip(0));
        while rest.len() > 0
            invariant
                k + rest@.len() == input.len(),
                input.len() == total,
                rest@ == input.skip(k as int),
                distinct_names(kept@),
                forall|name: Seq<char>| #[trigger] find_named(kept@, name) == last_named(input.take(k as int), name),
                forall|j: int| 0 <= j < kept@.len() ==> is_among(input, #[trigger] kept@[j]),
            decreases rest.len(),
        {
            let tool = rest.remove(0);
            assert(tool == input[k as int]);
            assert(rest@ =~= input.skip(k + 1));
            assert(input.take(k + 1).drop_last() =~= input.take(k as int));
            assert(input.take(k + 1).last() == tool);
            let ghost before = kept@;
            let ghost tool_name = tool.name@;
            match position_of(&kept, tool.name.as_str()) {
                Some(p) => {
                    kept.set(p, tool);
                    proof {
                        assert(kept@ =~= before.update(p as int, input[k as int]));
                        assert forall|a: int, b: int| 0 <= a < b < kept@.len() implies #[trigger] kept@[a].name@ != #[trigger] kept@[b].name@ by {
                            assert(kept@[a].name@ == before[a].name@);
                            assert(kept@[b].name@ == before[b].name@);
                        }
                        lemma_registry_step(before, kept@, input.take(k + 1), p as int);
                    }
                },
                None => {
                    kept.push(tool);
                    proof {
                        assert(kept@ =~= before.push(input[k as int]));
                        lemma_registry_step(before, kept@, input.take(k + 1), before.len() as int);
                    }
                },
            }
            assert forall|j: int| 0 <= j < kept@.len() implies is_among(input, #[trigger] kept@[j]) by {
                if kept@[j] != input[k as int] {
                    assert(kept@[j] == before[j]);
                    assert(is_among(input, before[j]));
                } else {
                    assert(input[k as int] == kept@[j]);
                }
            }
            k = k + 1;
        }
        assert(input.take(k as int) =~= input);
        proof {
            lemma_one_per_name(kept@, input);
        }
        ToolRegistry { tools: kept }
    }

    /// Every tool of the registry, each once.
    pub fn list_tools(&self) -> (r: Vec<&ToolDefinition>)
        ensures
            r@.len() == self@.len(),
            forall|i: int| 0 <= i < self@.len() ==> *#[trigger] r@[i] == self@[i],
    {
        let mut r: Vec<&ToolDefinition> = Vec::new();
        let mut i: usize = 0;
        while i < self.tools.len()
            invariant
                i <= self@.len(),
                r@.len() == i,
                forall|k: int| 0 <= k < i ==> *#[trigger] r@[k] == self@[k],
            decreases self.tools.len() - i,
        {
            r.push(&self.tools[i]);
            i = i + 1;
        }
        r
    }

    /// The tool with the given name, or a message that names the missing tool.
    pub fn find_tool(&self, name: &str) -> (r: Result<&ToolDefinition, String>)
        ensures
            match r {
                Ok(t) => find_named(self@, name@) == Some(*t),
                Err(m) => find_named(self@, name@) is None && m@ == "Tool '"@ + name@
                    + "' was not found"@,
            },
    {
        proof {
            use_type_invariant(self);
        }
        match position_of(&self.tools, name) {
            Some(p) => {
                proof {
                    lemma_find_at(self@, p as int);
                }
                Ok(&self.tools[p])
            },
            None => {
                let mut m = String::from_str("Tool '");
                m.append(name);
                m.append("' was not found");
                Err(m)
            },
        }
    }

    /// The number of tools.
    pub fn len(&self) -> (r: usize)
        ensures
            r == self@.len(),
    {
        self.tools.len()
    }

    /// Whether the registry holds no tool.
    pub fn is_empty(&self) -> (r: bool)
        ensures
            r == (self@.len() == 0),
    {
        self.tools.len() == 0
    }
}

/// Of the tools of a configuration, the one that the registry keeps under a
/// name is the last one with that name.
pub proof fn lemma_last_tool_wins(tools: Seq<ToolDefinition>, i: int)
    requires
        0 <= i < tools.len(),
        forall|j: int| i < j < tools.len() ==> #[trigger] tools[j].name@ != tools[i].name@,
    ensures
        last_named(tools, tools[i].name@) == Some(tools[i]),
    decreases tools.len(),
{
    if i < tools.len() - 1 {
        let rest = tools.drop_last();
        assert(tools[tools.len() - 1].name@ != tools[i].name@);
        assert(rest[i] == tools[i]);
        assert forall|j: int| i < j < rest.len() implies #[trigger] rest[j].name@ != rest[i].name@ by {
            assert(rest[j] == tools[j]);
        }
        lemma_last_tool_wins(rest, i);
    }
}

} // verus!

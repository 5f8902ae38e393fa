use vstd::prelude::*;

use crate::checks::{first_failure, lemma_first_failure_meaning, lemma_first_failure_skip, outcome};
use crate::model::validation::is_brace;
use crate::model::{ToolDefinition, ToolParameter};
use crate::parameters::{lookup, ParameterMap};
use crate::text::{
    chars_of, is_blank, is_blank_text, occurs_at, replace_all, replace_chars,
    string_from_chars,
};

verus! {

/// A command and its arguments, with every placeholder filled in.
#[derive(Debug, Clone, PartialEq, Eq)]
pub struct BuiltCommand {
    pub command: String,
    pub arguments: Vec<String>,
}

/// The placeholder that stands for a parameter in an argument: its name in braces.
pub open spec fn placeholder(name: Seq<char>) -> Seq<char> {
    seq!['{'] + name + seq!['}']
}

/// An argument with the placeholder of each given parameter replaced by its
/// value, one parameter after the other in the order of `entries`.
pub open spec fn substitute(argument: Seq<char>, entries: Seq<(Seq<char>, Seq<char>)>) -> Seq<
    char,
>
    decreases entries.len(),
{
    if entries.len() == 0 {
        argument
    } else {
        replace_all(
            substitute(argument, entries.drop_last()),
            placeholder(entries.last().0),
            entries.last().1,
        )
    }
}

pub open spec fn missing_message(parameter: Seq<char>, tool: Seq<char>) -> Seq<char> {
    "Missing required parameter '"@ + parameter + "' for tool '"@ + tool + "'"@
}

pub open spec fn blank_message(parameter: Seq<char>, tool: Seq<char>) -> Seq<char> {
    "Required parameter '"@ + parameter + "' for tool '"@ + tool + "' cannot be blank"@
}

/// What is wrong with the value given for the `i`-th parameter of `tool`: a
/// required parameter must have a value, and that value must not be blank.
pub open spec fn required_problem(
    tool: ToolDefinition,
    values: Seq<(Seq<char>, Seq<char>)>,
    i: int,
) -> Option<Seq<char>> {
    let p = tool.parameters@[i];
    if !p.required {
        None
    } else {
        match lookup(values, p.name@) {
            None => Some(missing_message(p.name@, tool.name@)),
            Some(v) => if is_blank(v) {
                Some(blank_message(p.name@, tool.name@))
            } else {
                None
            },
        }
    }
}

/// The check of the required parameters of `tool` against the given values.
pub open spec fn required_check(tool: ToolDefinition, values: Seq<(Seq<char>, Seq<char>)>) -> Result<
    (),
    Seq<char>,
> {
    first_failure(0, tool.parameters@.len() as int, |i: int| required_problem(tool, values, i))
}

/// Builds the command that runs `tool` with the given parameter values. Fails,
/// with the message about the first offending parameter, when a required
/// parameter has no value or a blank one; otherwise every argument of the tool
/// has each placeholder replaced by its value.
pub fn build_command(tool: &ToolDefinition, parameters: &ParameterMap) -> (r: Result<
    BuiltCommand,
    String,
>)
    ensures
        match r {
            Ok(c) => {
                &&& required_check(*tool, parameters@) == Ok::<(), Seq<char>>(())
                &&& c.command == tool.command
                &&& c.arguments@.len() == tool.arguments@.len()
                &&& forall|i: int|
                    0 <= i < tool.arguments@.len() ==> #[trigger] c.arguments@[i]@ == substitute(
                        tool.arguments@[i]@,
                        parameters@,
                    )
            },
            Err(m) => required_check(*tool, parameters@) == Err::<(), Seq<char>>(m@),
        },
{
    match validate_required_parameters(tool, parameters) {
        Ok(()) => {},
        Err(e) => {
            return Err(e);
        },
    }
    let mut arguments: Vec<String> = Vec::new();
    let mut i: usize = 0;
    while i < tool.arguments.len()
        invariant
            i <= tool.arguments@.len(),
            arguments@.len() == i,
            forall|k: int|
                0 <= k < i ==> #[trigger] arguments@[k]@ == substitute(
                    tool.arguments@[k]@,
                    parameters@,
                ),
        decreases tool.arguments.len() - i,
    {
        arguments.push(replace_placeholders(tool.arguments[i].as_str(), parameters));
        i = i + 1;
    }
    Ok(BuiltCommand { command: tool.command.clone(), arguments })
}

fn problem_message(prefix: &str, parameter: &ToolParameter, middle: &str, tool: &ToolDefinition, suffix: &str) -> (r: String)
    ensures
        r@ == prefix@ + parameter.name@ + middle@ + tool.name@ + suffix@,
{
    let mut m = String::from_str(prefix);
    m.append(parameter.name.as_str());
    m.append(middle);
    m.append(tool.name.as_str());
    m.append(suffix);
    m
}

fn validate_required_parameters(tool: &ToolDefinition, parameters: &ParameterMap) -> (r: Result<
    (),
    String,
>)
    ensures
        outcome(r) == required_check(*tool, parameters@),
{
    let ghost check = |i: int| required_problem(*tool, parameters@, i);
    let mut i: usize = 0;
    while i < tool.parameters.len()
        invariant
            i <= tool.parameters@.len(),
            check == (|i: int| required_problem(*tool, parameters@, i)),
            forall|j: int| 0 <= j < i ==> #[trigger] check(j) is None,
        decreases tool.parameters.len() - i,
    {
        let parameter = &tool.parameters[i];
        if parameter.required {
            match parameters.get(parameter.name.as_str()) {
                Some(value) => {
                    if is_blank_text(value.as_str()) {
                        let m = problem_message(
                            "Required parameter '",
                            parameter,
                            "' for tool '",
                            tool,
                            "' cannot be blank",
                        );
                        proof {
                            lemma_first_failure_skip(i as int, tool.parameters@.len() as int, check);
                        }
                        return Err(m);
                    }
                },
                None => {
                    let m = problem_message(
                        "Missing required parameter '",
                        parameter,
                        "' for tool '",
                        tool,
                        "'",
                    );
                    proof {
                        lemma_first_failure_skip(i as int, tool.parameters@.len() as int, check);
                    }
                    return Err(m);
                },
            }
        }
        assert(check(i as int) is None);
        i = i + 1;
    }
    proof {
        lemma_first_failure_skip(i as int, tool.parameters@.len() as int, check);
    }
    Ok(())
}

/// `argument` with the placeholder `{name}` of every given parameter replaced
/// by the parameter's value, parameter after parameter. Text in braces that
/// names no given parameter stays as it is.
pub fn replace_placeholders(argument: &str, parameters: &ParameterMap) -> (r: String)
    ensures
        r@ == substitute(argument@, parameters@),
{
    let mut current = chars_of(argument);
    let n = parameters.len();
    let mut i: usize = 0;
    assert(parameters@.take(0) =~= Seq::<(Seq<char>, Seq<char>)>::empty());
    while i < n
        invariant
            i <= n,
            n == parameters@.len(),
            current@ == substitute(argument@, parameters@.take(i as int)),
        decreases n - i,
    {
        let mut pattern: Vec<char> = Vec::new();
        pattern.push('{');
        let name = chars_of(parameters.key_at(i).as_str());
        let mut k: usize = 0;
        while k < name.len()
            invariant
                k <= name.len(),
                pattern@ == seq!['{'] + name@.take(k as int),
            decreases name.len() - k,
        {
            pattern.push(name[k]);
            k = k + 1;
            assert(pattern@ =~= seq!['{'] + name@.take(k as int));
        }
        pattern.push('}');
        assert(name@.take(name@.len() as int) =~= name@);
        assert(pattern@ =~= placeholder(parameters@[i as int].0));
        let value = chars_of(parameters.value_at(i).as_str());
        current = replace_chars(&current, &pattern, &value);
        assert(parameters@.take(i + 1).drop_last() =~= parameters@.take(i as int));
        i = i + 1;
    }
    assert(parameters@.take(n as int) =~= parameters@);
    string_from_chars(&current)
}


/// Replacing a pattern that does not occur in a text leaves the text as it is.
pub proof fn lemma_replace_absent(s: Seq<char>, pat: Seq<char>, rep: Seq<char>)
    requires
        pat.len() > 0,
        forall|k: int| !#[trigger] occurs_at(s, pat, k),
    ensures
        replace_all(s, pat, rep) == s,
    decreases s.len(),
{
    if s.len() > 0 {
        let rest = s.skip(1);
        assert forall|k: int| !#[trigger] occurs_at(rest, pat, k) by {
            if occurs_at(rest, pat, k) {
                assert(rest.subrange(k, k + pat.len()) =~= s.subrange(k + 1, k + 1 + pat.len()));
                assert(occurs_at(s, pat, k + 1));
            }
        }
        lemma_replace_absent(rest, pat, rep);
        assert(!occurs_at(s, pat, 0));
        assert(seq![s[0]] + rest =~= s);
    }
}

/// An argument in which the placeholder of no given parameter occurs comes
/// out of the substitution unchanged: text in braces that names no given
/// parameter stays as it is.
pub proof fn lemma_substitute_unchanged(argument: Seq<char>, entries: Seq<(Seq<char>, Seq<char>)>)
    requires
        forall|i: int, k: int|
            0 <= i < entries.len() ==> !#[trigger] occurs_at(argument, placeholder(entries[i].0), k),
    ensures
        substitute(argument, entries) == argument,
    decreases entries.len(),
{
    if entries.len() > 0 {
        let rest = entries.drop_last();
        assert forall|i: int, k: int|
            0 <= i < rest.len() implies !#[trigger] occurs_at(argument, placeholder(rest[i].0), k) by {
            assert(rest[i] == entries[i]);
        }
        lemma_substitute_unchanged(argument, rest);
        let last = entries.last();
        assert forall|k: int| !#[trigger] occurs_at(argument, placeholder(last.0), k) by {
            assert(entries[entries.len() - 1] == last);
        }
        lemma_replace_absent(argument, placeholder(last.0), last.1);
    }
}

/// An argument with no opening brace in it is passed on as it is, whatever the
/// parameter values.
pub proof fn lemma_literal_argument(argument: Seq<char>, entries: Seq<(Seq<char>, Seq<char>)>)
    requires
        forall|k: int| 0 <= k < argument.len() ==> #[trigger] argument[k] != '{',
    ensures
        substitute(argument, entries) == argument,
{
    assert forall|i: int, k: int| 0 <= i < entries.len() implies !#[trigger] occurs_at(
        argument,
        placeholder(entries[i].0),
        k,
    ) by {
        let pat = placeholder(entries[i].0);
        if occurs_at(argument, pat, k) {
            assert(argument.subrange(k, k + pat.len())[0] == pat[0]);
            assert(argument[k] == '{');
        }
    }
    lemma_substitute_unchanged(argument, entries);
}

/// An argument that is just the placeholder of a parameter becomes that
/// parameter's value.
pub proof fn lemma_lone_placeholder(name: Seq<char>, value: Seq<char>)
    ensures
        substitute(placeholder(name), seq![(name, value)]) == value,
{
    let pat = placeholder(name);
    let e = seq![(name, value)];
    assert(e.drop_last() =~= Seq::<(Seq<char>, Seq<char>)>::empty());
    assert(e.last() == (name, value));
    assert(pat.subrange(0, pat.len() as int) =~= pat);
    assert(occurs_at(pat, pat, 0));
    assert(pat.skip(pat.len() as int) =~= Seq::<char>::empty());
    assert(replace_all(pat, pat, value) == value + replace_all(Seq::<char>::empty(), pat, value));
    assert(value + Seq::<char>::empty() =~= value);
    assert(substitute(pat, e.drop_last()) == pat);
    assert(substitute(pat, e) == replace_all(pat, pat, value));
}


/// The required parameters of a tool are satisfied exactly when each of them
/// has a value, and that value is not blank.
pub proof fn lemma_required_check_meaning(tool: ToolDefinition, values: Seq<(Seq<char>, Seq<char>)>)
    ensures
        required_check(tool, values) is Ok <==> forall|i: int|
            0 <= i < tool.parameters@.len() && (#[trigger] tool.parameters@[i]).required ==> (
            lookup(values, tool.parameters@[i].name@) matches Some(v) && !is_blank(v)),
{
    let n = tool.parameters@.len() as int;
    let check = |i: int| required_problem(tool, values, i);
    lemma_first_failure_meaning(0, n, check);
    if required_check(tool, values) is Ok {
        assert forall|i: int|
            0 <= i < n && (#[trigger] tool.parameters@[i]).required implies (lookup(
            values,
            tool.parameters@[i].name@,
        ) matches Some(v) && !is_blank(v)) by {
            assert(check(i) is None);
        }
    }
    if forall|i: int|
        0 <= i < n && (#[trigger] tool.parameters@[i]).required ==> (lookup(
            values,
            tool.parameters@[i].name@,
        ) matches Some(v) && !is_blank(v)) {
        assert forall|j: int| 0 <= j < n implies #[trigger] check(j) is None by {
            if tool.parameters@[j].required {
                assert(lookup(values, tool.parameters@[j].name@) is Some);
            }
        }
    }
}

/// No brace occurs in the text.
pub open spec fn brace_free(s: Seq<char>) -> bool {
    forall|i: int| 0 <= i < s.len() ==> !is_brace(#[trigger] s[i])
}

/// The opening brace at `k` is closed at `j`: there stands a closing brace,
/// and no brace stands between the two.
pub open spec fn closes_at(s: Seq<char>, k: int, j: int) -> bool {
    &&& k < j < s.len()
    &&& s[j] == '}'
    &&& forall|m: int| k < m < j ==> !is_brace(#[trigger] s[m])
}

/// Every opening brace of the text starts a placeholder: a name without
/// braces, then a closing brace.
pub open spec fn well_braced(s: Seq<char>) -> bool {
    forall|k: int| 0 <= k < s.len() && #[trigger] s[k] == '{' ==> exists|j: int| #[trigger] closes_at(s, k, j)
}

/// Where no occurrence of the pattern spans the seam between two texts, the
/// replacement in the joined text is the join of the replacements.
proof fn lemma_replace_concat(a: Seq<char>, b: Seq<char>, pat: Seq<char>, rep: Seq<char>)
    requires
        pat.len() > 0,
        forall|k: int| 0 <= k < a.len() < k + pat.len() ==> !#[trigger] occurs_at(a + b, pat, k),
    ensures
        replace_all(a + b, pat, rep) == replace_all(a, pat, rep) + replace_all(b, pat, rep),
    decreases a.len(),
{
    let s = a + b;
    if a.len() == 0 {
        assert(s =~= b);
        assert(Seq::<char>::empty() + replace_all(b, pat, rep) =~= replace_all(b, pat, rep));
    } else {
        let step: int = if occurs_at(s, pat, 0) { pat.len() as int } else { 1 };
        if occurs_at(s, pat, 0) {
            if a.len() < pat.len() {
                assert(!occurs_at(s, pat, 0));
            }
            assert(a.subrange(0, pat.len() as int) =~= s.subrange(0, pat.len() as int));
        } else if occurs_at(a, pat, 0) {
            assert(a.subrange(0, pat.len() as int) =~= s.subrange(0, pat.len() as int));
        }
        let a2 = a.skip(step);
        assert(s.skip(step) =~= a2 + b);
        assert forall|k: int| 0 <= k < a2.len() < k + pat.len() implies !#[trigger] occurs_at(
            a2 + b,
            pat,
            k,
        ) by {
            if occurs_at(a2 + b, pat, k) {
                assert((a2 + b).subrange(k, k + pat.len()) =~= s.subrange(
                    k + step,
                    k + step + pat.len(),
                ));
                assert(occurs_at(s, pat, k + step));
            }
        }
        lemma_replace_concat(a2, b, pat, rep);
        if occurs_at(s, pat, 0) {
            assert((rep + replace_all(a2, pat, rep)) + replace_all(b, pat, rep) =~= rep + (
            replace_all(a2, pat, rep) + replace_all(b, pat, rep)));
        } else {
            assert(s[0] == a[0]);
            assert((seq![a[0]] + replace_all(a2, pat, rep)) + replace_all(b, pat, rep) =~= seq![
                a[0],
            ] + (replace_all(a2, pat, rep) + replace_all(b, pat, rep)));
        }
    }
}

/// A placeholder with a brace-free name cannot span the end of a well-braced
/// text.
proof fn lemma_no_span(a: Seq<char>, b: Seq<char>, name: Seq<char>)
    requires
        well_braced(a),
        brace_free(name),
    ensures
        forall|k: int|
            0 <= k < a.len() < k + placeholder(name).len() ==> !#[trigger] occurs_at(
                a + b,
                placeholder(name),
                k,
            ),
{
    let pat = placeholder(name);
    assert forall|k: int| 0 <= k < a.len() < k + pat.len() implies !#[trigger] occurs_at(a + b, pat, k) by {
        if occurs_at(a + b, pat, k) {
            let w = (a + b).subrange(k, k + pat.len());
            assert(w[0] == pat[0]);
            assert(a[k] == '{');
            let j = choose|j: int| #[trigger] closes_at(a, k, j);
            assert(w[j - k] == (a + b)[j]);
            assert(pat[j - k] == name[j - k - 1]);
            assert(!is_brace(name[j - k - 1]));
        }
    }
}

/// What follows a position of a well-braced text is well-braced.
proof fn lemma_suffix_well_braced(s: Seq<char>, i: int)
    requires
        well_braced(s),
        0 <= i <= s.len(),
    ensures
        well_braced(s.skip(i)),
{
    let t = s.skip(i);
    assert forall|k: int| 0 <= k < t.len() && #[trigger] t[k] == '{' implies exists|j: int|
        #[trigger] closes_at(t, k, j) by {
        assert(s[k + i] == '{');
        let j = choose|j: int| #[trigger] closes_at(s, k + i, j);
        assert forall|m: int| k < m < j - i implies !is_brace(#[trigger] t[m]) by {
            assert(t[m] == s[m + i]);
        }
        assert(closes_at(t, k, j - i));
    }
}

/// A text without opening braces put before a well-braced text keeps it
/// well-braced.
proof fn lemma_prefix_well_braced(x: Seq<char>, y: Seq<char>)
    requires
        forall|i: int| 0 <= i < x.len() ==> #[trigger] x[i] != '{',
        well_braced(y),
    ensures
        well_braced(x + y),
{
    let s = x + y;
    assert forall|k: int| 0 <= k < s.len() && #[trigger] s[k] == '{' implies exists|j: int|
        #[trigger] closes_at(s, k, j) by {
        if k >= x.len() {
            assert(y[k - x.len()] == '{');
            let j = choose|j: int| #[trigger] closes_at(y, k - x.len(), j);
            assert forall|m: int| k < m < j + x.len() implies !is_brace(#[trigger] s[m]) by {
                assert(s[m] == y[m - x.len()]);
            }
            assert(closes_at(s, k, j + x.len()));
        } else {
            assert(s[k] == x[k]);
        }
    }
}

/// Replacing a placeholder whose name has no brace by a text without braces
/// keeps a text well-braced.
proof fn lemma_replace_keeps_braces(s: Seq<char>, name: Seq<char>, rep: Seq<char>)
    requires
        well_braced(s),
        brace_free(name),
        brace_free(rep),
    ensures
        well_braced(replace_all(s, placeholder(name), rep)),
    decreases s.len(),
{
    let pat = placeholder(name);
    if s.len() > 0 {
        if occurs_at(s, pat, 0) {
            let t = s.skip(pat.len() as int);
            lemma_suffix_well_braced(s, pat.len() as int);
            lemma_replace_keeps_braces(t, name, rep);
            lemma_prefix_well_braced(rep, replace_all(t, pat, rep));
        } else {
            let t = s.skip(1);
            lemma_suffix_well_braced(s, 1);
            lemma_replace_keeps_braces(t, name, rep);
            let r = replace_all(t, pat, rep);
            if s[0] != '{' {
                lemma_prefix_well_braced(seq![s[0]], r);
            } else {
                let j0 = choose|j: int| #[trigger] closes_at(s, 0, j);
                let m = t.take(j0);
                let rest = t.skip(j0);
                assert(t =~= m + rest);
                assert forall|i: int| 0 <= i < m.len() implies #[trigger] m[i] != '{' by {
                    assert(m[i] == s[i + 1]);
                }
                assert forall|k: int| 0 <= k < m.len() < k + pat.len() implies !#[trigger] occurs_at(
                    m + rest,
                    pat,
                    k,
                ) by {
                    if occurs_at(m + rest, pat, k) {
                        assert((m + rest).subrange(k, k + pat.len())[0] == pat[0]);
                        assert(m[k] == '{');
                    }
                }
                lemma_replace_concat(m, rest, pat, rep);
                assert forall|k: int| !#[trigger] occurs_at(m, pat, k) by {
                    if occurs_at(m, pat, k) {
                        assert(m.subrange(k, k + pat.len())[0] == pat[0]);
                        assert(m[k] == '{');
                    }
                }
                lemma_replace_absent(m, pat, rep);
                assert(r == m + replace_all(rest, pat, rep));
                let u = seq!['{'] + r;
                assert forall|k: int| 0 <= k < u.len() && #[trigger] u[k] == '{' implies exists|j: int|
                    #[trigger] closes_at(u, k, j) by {
                    if k == 0 {
                        assert forall|x: int| 0 < x < j0 implies !is_brace(#[trigger] u[x]) by {
                            assert(u[x] == m[x - 1]);
                            assert(m[x - 1] == s[x]);
                        }
                        assert(u[j0] == m[j0 - 1]);
                        assert(closes_at(u, 0, j0));
                    } else {
                        assert(r[k - 1] == '{');
                        let j = choose|j: int| #[trigger] closes_at(r, k - 1, j);
                        assert forall|x: int| k < x < j + 1 implies !is_brace(#[trigger] u[x]) by {
                            assert(u[x] == r[x - 1]);
                        }
                        assert(closes_at(u, k, j + 1));
                    }
                }
            }
        }
    }
}

/// Filling in placeholders with brace-free names by brace-free values keeps a
/// text well-braced.
proof fn lemma_substitute_keeps_braces(s: Seq<char>, entries: Seq<(Seq<char>, Seq<char>)>)
    requires
        well_braced(s),
        forall|i: int|
            0 <= i < entries.len() ==> brace_free(#[trigger] entries[i].0) && brace_free(
                entries[i].1,
            ),
    ensures
        well_braced(substitute(s, entries)),
    decreases entries.len(),
{
    if entries.len() > 0 {
        let rest = entries.drop_last();
        assert forall|i: int| 0 <= i < rest.len() implies brace_free(#[trigger] rest[i].0)
            && brace_free(rest[i].1) by {
            assert(rest[i] == entries[i]);
        }
        lemma_substitute_keeps_braces(s, rest);
        let last = entries[entries.len() - 1];
        lemma_replace_keeps_braces(substitute(s, rest), last.0, last.1);
    }
}

/// Filling in placeholders distributes over joining texts: where every opening
/// brace of the first text starts a placeholder that it closes, and no name or
/// value holds a brace, filling in the joined text gives the join of the
/// filled-in texts.
pub proof fn lemma_substitute_concat(
    a: Seq<char>,
    b: Seq<char>,
    entries: Seq<(Seq<char>, Seq<char>)>,
)
    requires
        well_braced(a),
        forall|i: int|
            0 <= i < entries.len() ==> brace_free(#[trigger] entries[i].0) && brace_free(
                entries[i].1,
            ),
    ensures
        substitute(a + b, entries) == substitute(a, entries) + substitute(b, entries),
    decreases entries.len(),
{
    if entries.len() == 0 {
    } else {
        let rest = entries.drop_last();
        assert forall|i: int| 0 <= i < rest.len() implies brace_free(#[trigger] rest[i].0)
            && brace_free(rest[i].1) by {
            assert(rest[i] == entries[i]);
        }
        lemma_substitute_concat(a, b, rest);
        lemma_substitute_keeps_braces(a, rest);
        let last = entries[entries.len() - 1];
        let sa = substitute(a, rest);
        let sb = substitute(b, rest);
        lemma_no_span(sa, sb, last.0);
        lemma_replace_concat(sa, sb, placeholder(last.0), last.1);
    }
}

} // verus!

use vstd::prelude::*;

use crate::checks::{first_failure, lemma_first_failure_skip};
use crate::command_builder::substitute;
use crate::parameters::put;
use crate::json::{member, number_text, JsonData, JsonNumber, JsonValue, NumberData};
use crate::model::tool::{type_label, ParameterType, ToolDefinition, ToolParameter, ToolValidationError};
use crate::text::{
    bool_text, chars_of, occurs_at, occurs_at_exec, same_text, string_from_chars,
};

verus! {

/// Why a tool call is refused, as a mathematical value.
pub enum ValidationFailure {
    MissingParameter(Seq<char>),
    InvalidParameterType { parameter: Seq<char>, expected: ParameterType },
    InvalidEnumValue { parameter: Seq<char>, value: Seq<char>, allowed_values: Seq<Seq<char>> },
    PathNotAllowed(Seq<char>),
    UnknownPlaceholder(Seq<char>),
    UnknownParameter(Seq<char>),
}

/// The texts of a list of strings, in order.
pub open spec fn texts(v: Seq<String>) -> Seq<Seq<char>> {
    Seq::new(v.len(), |i: int| v[i]@)
}

impl View for ToolValidationError {
    type V = ValidationFailure;

    open spec fn view(&self) -> ValidationFailure {
        match self {
            ToolValidationError::MissingParameter(p) => ValidationFailure::MissingParameter(p@),
            ToolValidationError::InvalidParameterType { parameter, expected } =>
                ValidationFailure::InvalidParameterType { parameter: parameter@, expected: *expected },
            ToolValidationError::InvalidEnumValue { parameter, value, allowed_values } =>
                ValidationFailure::InvalidEnumValue {
                parameter: parameter@,
                value: value@,
                allowed_values: texts(allowed_values@),
            },
            ToolValidationError::PathNotAllowed(p) => ValidationFailure::PathNotAllowed(p@),
            ToolValidationError::UnknownPlaceholder(n) => ValidationFailure::UnknownPlaceholder(n@),
            ToolValidationError::UnknownParameter(n) => ValidationFailure::UnknownParameter(n@),
        }
    }
}

/// The path roots that are never allowed.
pub open spec fn default_blocked_roots() -> Seq<Seq<char>> {
    seq!["/etc"@, "/boot"@, "/usr"@, "/bin"@, "/sbin"@, "/root"@]
}

/// `path` is `root` or lies below it.
pub open spec fn under(path: Seq<char>, root: Seq<char>) -> bool {
    ||| path == root
    ||| root.len() < path.len() && occurs_at(path, root, 0) && (path[root.len() as int] == '/' || (
    root.len() > 0 && root.last() == '/'))
}

/// A path segment `.` starts at `k`.
pub open spec fn dot_at(s: Seq<char>, k: int) -> bool {
    k < s.len() && s[k] == '.' && (k + 1 == s.len() || s[k + 1] == '/')
}

/// A path segment `..` starts at `k`.
pub open spec fn dot_dot_at(s: Seq<char>, k: int) -> bool {
    k + 1 < s.len() && s[k] == '.' && s[k + 1] == '.' && (k + 2 == s.len() || s[k + 2] == '/')
}

/// At `i` a separator starts a `..` segment.
pub open spec fn parent_at(s: Seq<char>, i: int) -> bool {
    s[i] == '/' && dot_dot_at(s, i + 1)
}

/// The path from position `k` on, written plainly: empty and `.` segments
/// left out, each other segment after one `/`. `inside` says whether `k`
/// lies within a segment that has begun.
pub open spec fn plain_from(s: Seq<char>, k: int, inside: bool) -> Seq<char>
    decreases s.len() - k,
{
    if k < 0 || k >= s.len() {
        Seq::empty()
    } else if s[k] == '/' {
        plain_from(s, k + 1, false)
    } else if !inside && dot_at(s, k) {
        plain_from(s, k + 1, false)
    } else if inside {
        seq![s[k]] + plain_from(s, k + 1, true)
    } else {
        seq!['/', s[k]] + plain_from(s, k + 1, true)
    }
}

/// The path written plainly: `/home//user/./x` is `/home/user/x`, and a path
/// of no segments is `/`.
pub open spec fn normal_form(s: Seq<char>) -> Seq<char> {
    if plain_from(s, 0, false).len() == 0 {
        seq!['/']
    } else {
        plain_from(s, 0, false)
    }
}

/// A path may be used: it is absolute, has no `..` segment, and, written
/// plainly, lies under no default blocked root nor any blocked root of the
/// policy, and, where the policy allows some roots, under one of them.
pub open spec fn path_allowed(s: Seq<char>, allowed: Seq<Seq<char>>, blocked: Seq<Seq<char>>) -> bool {
    let p = normal_form(s);
    &&& s.len() > 0 && s[0] == '/'
    &&& forall|i: int| 0 <= i < s.len() ==> !#[trigger] parent_at(s, i)
    &&& forall|k: int| 0 <= k < default_blocked_roots().len() ==> !under(p, #[trigger] default_blocked_roots()[k])
    &&& forall|k: int| 0 <= k < blocked.len() ==> !under(p, #[trigger] blocked[k])
    &&& (allowed.len() == 0 || exists|k: int| 0 <= k < allowed.len() && under(p, #[trigger] allowed[k]))
}

pub open spec fn is_digit(c: char) -> bool {
    '0' <= c && c <= '9'
}

/// What follows an optional leading `-`.
pub open spec fn unsigned_part(s: Seq<char>) -> Seq<char> {
    if s.len() > 0 && s[0] == '-' {
        s.skip(1)
    } else {
        s
    }
}

/// The text of an integer: an optional `-` and then one or more digits.
pub open spec fn is_integer_text(s: Seq<char>) -> bool {
    unsigned_part(s).len() > 0 && forall|i: int|
        0 <= i < unsigned_part(s).len() ==> is_digit(#[trigger] unsigned_part(s)[i])
}

/// The values an enum parameter accepts.
pub open spec fn allowed_list(p: ToolParameter) -> Seq<Seq<char>> {
    match p.allowed_values {
        Some(v) => texts(v@),
        None => Seq::empty(),
    }
}

/// The text that a value gives a parameter, or why the value does not fit it.
/// A string parameter takes a string; an integer parameter an integer, or a
/// string that is one; a boolean parameter a boolean, or `"true"` or
/// `"false"`; a path parameter a path that may be used; an enum parameter one
/// of its allowed values.
pub open spec fn parameter_text(
    p: ToolParameter,
    d: JsonData,
    allowed: Seq<Seq<char>>,
    blocked: Seq<Seq<char>>,
) -> Result<Seq<char>, ValidationFailure> {
    let wrong = ValidationFailure::InvalidParameterType {
        parameter: p.name@,
        expected: p.parameter_type,
    };
    match p.parameter_type {
        ParameterType::String => match d {
            JsonData::Text(s) => Ok(s),
            _ => Err(wrong),
        },
        ParameterType::Integer => match d {
            JsonData::Number(NumberData::PosInt(n)) => Ok(number_text(NumberData::PosInt(n))),
            JsonData::Number(NumberData::NegInt(n)) => Ok(number_text(NumberData::NegInt(n))),
            JsonData::Text(s) => if is_integer_text(s) {
                Ok(s)
            } else {
                Err(wrong)
            },
            _ => Err(wrong),
        },
        ParameterType::Boolean => match d {
            JsonData::Bool(b) => Ok(bool_text(b)),
            JsonData::Text(s) => if s == "true"@ || s == "false"@ {
                Ok(s)
            } else {
                Err(wrong)
            },
            _ => Err(wrong),
        },
        ParameterType::Path => match d {
            JsonData::Text(s) => if path_allowed(s, allowed, blocked) {
                Ok(s)
            } else {
                Err(ValidationFailure::PathNotAllowed(s))
            },
            _ => Err(wrong),
        },
        ParameterType::Enum => match d {
            JsonData::Text(s) => if allowed_list(p).contains(s) {
                Ok(s)
            } else {
                Err(
                    ValidationFailure::InvalidEnumValue {
                        parameter: p.name@,
                        value: s,
                        allowed_values: allowed_list(p),
                    },
                )
            },
            _ => Err(wrong),
        },
    }
}

/// The value that a call gives a parameter: the input's, or else the
/// parameter's default.
pub open spec fn supplied(p: ToolParameter, input: JsonData) -> Option<JsonData> {
    match member(input, p.name@) {
        Some(d) => Some(d),
        None => match p.default {
            Some(v) => Some(v.data()),
            None => None,
        },
    }
}

/// The entries of the input of a call: those of an object, none otherwise.
pub open spec fn input_entries(input: JsonData) -> Seq<(Seq<char>, JsonData)> {
    match input {
        JsonData::Object(e) => e,
        _ => Seq::empty(),
    }
}

/// Some parameter of the tool has the name.
pub open spec fn declares(tool: ToolDefinition, name: Seq<char>) -> bool {
    exists|i: int| 0 <= i < tool.parameters@.len() && #[trigger] tool.parameters@[i].name@ == name
}

/// The `i`-th input entry names no parameter of the tool.
pub open spec fn unknown_input(tool: ToolDefinition, input: JsonData, i: int) -> Option<ValidationFailure> {
    let name = input_entries(input)[i].0;
    if declares(tool, name) {
        None
    } else {
        Some(ValidationFailure::UnknownParameter(name))
    }
}

/// What is wrong with the value of the `i`-th parameter: a required one has
/// none, or the value does not fit.
pub open spec fn parameter_failure(
    tool: ToolDefinition,
    input: JsonData,
    allowed: Seq<Seq<char>>,
    blocked: Seq<Seq<char>>,
    i: int,
) -> Option<ValidationFailure> {
    let p = tool.parameters@[i];
    match supplied(p, input) {
        None => if p.required {
            Some(ValidationFailure::MissingParameter(p.name@))
        } else {
            None
        },
        Some(d) => match parameter_text(p, d, allowed, blocked) {
            Err(f) => Some(f),
            Ok(_) => None,
        },
    }
}

/// The parameters among `params` that have a value, each with its text, in
/// order; a later parameter of the same name takes the earlier one's place.
pub open spec fn bound_values(
    params: Seq<ToolParameter>,
    input: JsonData,
    allowed: Seq<Seq<char>>,
    blocked: Seq<Seq<char>>,
) -> Seq<(Seq<char>, Seq<char>)>
    decreases params.len(),
{
    if params.len() == 0 {
        Seq::empty()
    } else {
        let rest = bound_values(params.drop_last(), input, allowed, blocked);
        let p = params.last();
        match supplied(p, input) {
            Some(d) => match parameter_text(p, d, allowed, blocked) {
                Ok(t) => put(rest, p.name@, t),
                Err(_) => rest,
            },
            None => rest,
        }
    }
}

pub open spec fn is_brace(c: char) -> bool {
    c == '{' || c == '}'
}

/// The position of the first brace at or after `k`, or the length.
pub open spec fn next_brace(s: Seq<char>, k: int) -> int
    decreases s.len() - k,
{
    if k >= s.len() {
        s.len() as int
    } else if is_brace(s[k]) {
        k
    } else {
        next_brace(s, k + 1)
    }
}

/// The placeholder that starts at `i` names no parameter of the tool: at `i`
/// an opening brace, then a name with no brace in it, then a closing brace.
pub open spec fn unknown_token(tool: ToolDefinition, s: Seq<char>, i: int) -> Option<Seq<char>> {
    let j = next_brace(s, i + 1);
    if s[i] == '{' && j < s.len() && s[j] == '}' && !declares(tool, s.subrange(i + 1, j)) {
        Some(s.subrange(i + 1, j))
    } else {
        None
    }
}

/// The first placeholder in `s` that names no parameter of the tool.
pub open spec fn placeholder_check(tool: ToolDefinition, s: Seq<char>) -> Result<(), Seq<char>> {
    first_failure(0, s.len() as int, |i: int| unknown_token(tool, s, i))
}

/// The `i`-th argument holds a placeholder that names no parameter.
pub open spec fn argument_failure(tool: ToolDefinition, i: int) -> Option<ValidationFailure> {
    match placeholder_check(tool, tool.arguments@[i]@) {
        Err(n) => Some(ValidationFailure::UnknownPlaceholder(n)),
        Ok(()) => None,
    }
}

/// The check of a call of `tool` with `input` under a policy whose allowed and
/// blocked roots are given: in order, the input must name only parameters of
/// the tool; every parameter must have a value that fits it, unless it is
/// optional and has none; every placeholder of the arguments and of the
/// working directory must name a parameter; and the working directory, with
/// its placeholders filled in, must be a path that may be used.
pub open spec fn call_check(
    tool: ToolDefinition,
    input: JsonData,
    allowed: Seq<Seq<char>>,
    blocked: Seq<Seq<char>>,
) -> Result<(), ValidationFailure> {
    match first_failure(0, input_entries(input).len() as int, |i: int| unknown_input(tool, input, i)) {
        Err(f) => Err(f),
        Ok(()) => match first_failure(
            0,
            tool.parameters@.len() as int,
            |i: int| parameter_failure(tool, input, allowed, blocked, i),
        ) {
            Err(f) => Err(f),
            Ok(()) => match first_failure(
                0,
                tool.arguments@.len() as int,
                |i: int| argument_failure(tool, i),
            ) {
                Err(f) => Err(f),
                Ok(()) => match tool.working_directory {
                    None => Ok(()),
                    Some(w) => match placeholder_check(tool, w@) {
                        Err(n) => Err(ValidationFailure::UnknownPlaceholder(n)),
                        Ok(()) => {
                            let dir = substitute(
                                w@,
                                bound_values(tool.parameters@, input, allowed, blocked),
                            );
                            if path_allowed(dir, allowed, blocked) {
                                Ok(())
                            } else {
                                Err(ValidationFailure::PathNotAllowed(dir))
                            }
                        },
                    },
                },
            },
        },
    }
}


/// Whether `path` is `root` or lies below it.
fn under_exec(path: &Vec<char>, root: &Vec<char>) -> (r: bool)
    ensures
        r == under(path@, root@),
{
    if root.len() > path.len() {
        return false;
    }
    if !occurs_at_exec(path, root, 0) {
        proof {
            if path@ == root@ {
                assert(path@.subrange(0, root@.len() as int) =~= path@);
            }
        }
        return false;
    }
    if root.len() == path.len() {
        assert(path@.subrange(0, root@.len() as int) =~= path@);
        return true;
    }
    path[root.len()] == '/' || (root.len() > 0 && root[root.len() - 1] == '/')
}

/// Whether `s` has a `..` segment.
fn has_parent_segment(s: &Vec<char>) -> (r: bool)
    ensures
        r == exists|i: int| 0 <= i < s@.len() && #[trigger] parent_at(s@, i),
{
    let mut i: usize = 0;
    while i < s.len()
        invariant
            i <= s@.len(),
            forall|k: int| 0 <= k < i ==> !#[trigger] parent_at(s@, k),
        decreases s.len() - i,
    {
        let left = s.len() - i;
        if s[i] == '/' && left > 2 && s[i + 1] == '.' && s[i + 2] == '.' && (left == 3 || s[i + 3]
            == '/') {
            assert(parent_at(s@, i as int));
            return true;
        }
        assert(!parent_at(s@, i as int));
        i = i + 1;
    }
    false
}

/// The path `s` written plainly.
fn normal_form_exec(s: &Vec<char>) -> (r: Vec<char>)
    ensures
        r@ == normal_form(s@),
{
    let mut out: Vec<char> = Vec::new();
    let mut inside = false;
    let mut i: usize = 0;
    while i < s.len()
        invariant
            i <= s@.len(),
            out@ + plain_from(s@, i as int, inside) == plain_from(s@, 0, false),
        decreases s.len() - i,
    {
        let ghost before = out@;
        let ghost rest = plain_from(s@, i + 1, if s[i as int] == '/' { false } else if !inside
            && dot_at(s@, i as int) { false } else { true });
        if s[i] == '/' {
            inside = false;
        } else if !inside && s[i] == '.' && (i + 1 == s.len() || s[i + 1] == '/') {
            assert(dot_at(s@, i as int));
        } else if inside {
            out.push(s[i]);
            assert(before + (seq![s[i as int]] + rest) =~= out@ + rest);
        } else {
            assert(!dot_at(s@, i as int));
            out.push('/');
            out.push(s[i]);
            assert(before + (seq!['/', s[i as int]] + rest) =~= out@ + rest);
            inside = true;
        }
        i = i + 1;
    }
    assert(out@ + plain_from(s@, i as int, inside) =~= out@);
    if out.len() == 0 {
        out.push('/');
        assert(out@ =~= seq!['/']);
    }
    out
}

/// Whether `path` lies under one of `roots`.
fn under_any(path: &Vec<char>, roots: &Vec<String>) -> (r: bool)
    ensures
        r == exists|k: int| 0 <= k < roots@.len() && under(path@, #[trigger] texts(roots@)[k]),
{
    let mut k: usize = 0;
    while k < roots.len()
        invariant
            k <= roots@.len(),
            forall|j: int| 0 <= j < k ==> !under(path@, #[trigger] texts(roots@)[j]),
        decreases roots.len() - k,
    {
        let root = chars_of(roots[k].as_str());
        if under_exec(path, &root) {
            assert(texts(roots@)[k as int] == roots@[k as int]@);
            return true;
        }
        assert(texts(roots@)[k as int] == roots@[k as int]@);
        k = k + 1;
    }
    false
}

/// Whether a path may be used under a policy with the given roots.
pub fn path_allowed_exec(s: &str, allowed: &Vec<String>, blocked: &Vec<String>) -> (r: bool)
    ensures
        r == path_allowed(s@, texts(allowed@), texts(blocked@)),
{
    let text = chars_of(s);
    if text.len() == 0 || text[0] != '/' {
        return false;
    }
    if has_parent_segment(&text) {
        return false;
    }
    let path = normal_form_exec(&text);
    let mut defaults: Vec<String> = Vec::new();
    defaults.push(String::from_str("/etc"));
    defaults.push(String::from_str("/boot"));
    defaults.push(String::from_str("/usr"));
    defaults.push(String::from_str("/bin"));
    defaults.push(String::from_str("/sbin"));
    defaults.push(String::from_str("/root"));
    assert(texts(defaults@) =~= default_blocked_roots());
    if under_any(&path, &defaults) {
        return false;
    }
    if under_any(&path, blocked) {
        return false;
    }
    if allowed.len() == 0 {
        return true;
    }
    under_any(&path, allowed)
}

/// Whether `s` is the text of an integer.
fn is_integer_text_exec(s: &Vec<char>) -> (r: bool)
    ensures
        r == is_integer_text(s@),
{
    let start: usize = if s.len() > 0 && s[0] == '-' {
        1
    } else {
        0
    };
    let ghost digits = unsigned_part(s@);
    assert(digits =~= s@.skip(start as int));
    if start >= s.len() {
        return false;
    }
    let mut i: usize = start;
    while i < s.len()
        invariant
            start <= i <= s@.len(),
            digits == s@.skip(start as int),
            digits == unsigned_part(s@),
            forall|k: int| 0 <= k < i - start ==> is_digit(#[trigger] digits[k]),
        decreases s.len() - i,
    {
        if !('0' <= s[i] && s[i] <= '9') {
            assert(digits[i - start] == s@[i as int]);
            assert(!is_digit(digits[i - start]));
            assert(0 <= i - start < digits.len());
            return false;
        }
        assert(digits[i - start] == s@[i as int]);
        i = i + 1;
    }
    true
}

/// Whether `value` is one of `list`.
fn contains_text(list: &Vec<String>, value: &str) -> (r: bool)
    ensures
        r == texts(list@).contains(value@),
{
    let mut k: usize = 0;
    while k < list.len()
        invariant
            k <= list@.len(),
            forall|j: int| 0 <= j < k ==> #[trigger] texts(list@)[j] != value@,
        decreases list.len() - k,
    {
        if same_text(list[k].as_str(), value) {
            assert(texts(list@)[k as int] == value@);
            return true;
        }
        k = k + 1;
    }
    false
}

fn wrong_type(p: &ToolParameter) -> (r: ToolValidationError)
    ensures
        r@ == (ValidationFailure::InvalidParameterType { parameter: p.name@, expected: p.parameter_type }),
{
    ToolValidationError::InvalidParameterType {
        parameter: p.name.clone(),
        expected: match p.parameter_type {
            ParameterType::String => ParameterType::String,
            ParameterType::Integer => ParameterType::Integer,
            ParameterType::Boolean => ParameterType::Boolean,
            ParameterType::Path => ParameterType::Path,
            ParameterType::Enum => ParameterType::Enum,
        },
    }
}

/// The text that `value` gives the parameter `p`, or why it does not fit.
pub fn parameter_text_exec(
    p: &ToolParameter,
    value: &JsonValue,
    allowed: &Vec<String>,
    blocked: &Vec<String>,
) -> (r: Result<String, ToolValidationError>)
    ensures
        match r {
            Ok(t) => parameter_text(*p, value.data(), texts(allowed@), texts(blocked@)) == Ok::<
                Seq<char>,
                ValidationFailure,
            >(t@),
            Err(e) => parameter_text(*p, value.data(), texts(allowed@), texts(blocked@)) == Err::<
                Seq<char>,
                ValidationFailure,
            >(e@),
        },
{
    match p.parameter_type {
        ParameterType::String => match value {
            JsonValue::String(s) => Ok(s.clone()),
            _ => Err(wrong_type(p)),
        },
        ParameterType::Integer => match value {
            JsonValue::Number(JsonNumber::PosInt(n)) => Ok(JsonNumber::PosInt(*n).to_text()),
            JsonValue::Number(JsonNumber::NegInt(n)) => Ok(JsonNumber::NegInt(*n).to_text()),
            JsonValue::String(s) => {
                if is_integer_text_exec(&chars_of(s.as_str())) {
                    Ok(s.clone())
                } else {
                    Err(wrong_type(p))
                }
            },
            _ => Err(wrong_type(p)),
        },
        ParameterType::Boolean => match value {
            JsonValue::Bool(b) => {
                if *b {
                    Ok(String::from_str("true"))
                } else {
                    Ok(String::from_str("false"))
                }
            },
            JsonValue::String(s) => {
                if same_text(s.as_str(), "true") || same_text(s.as_str(), "false") {
                    Ok(s.clone())
                } else {
                    Err(wrong_type(p))
                }
            },
            _ => Err(wrong_type(p)),
        },
        ParameterType::Path => match value {
            JsonValue::String(s) => {
                if path_allowed_exec(s.as_str(), allowed, blocked) {
                    Ok(s.clone())
                } else {
                    Err(ToolValidationError::PathNotAllowed(s.clone()))
                }
            },
            _ => Err(wrong_type(p)),
        },
        ParameterType::Enum => match value {
            JsonValue::String(s) => {
                let list: Vec<String> = match &p.allowed_values {
                    Some(v) => v.clone(),
                    None => Vec::new(),
                };
                assert(texts(list@) =~= allowed_list(*p));
                if contains_text(&list, s.as_str()) {
                    Ok(s.clone())
                } else {
                    Err(
                        ToolValidationError::InvalidEnumValue {
                            parameter: p.name.clone(),
                            value: s.clone(),
                            allowed_values: list,
                        },
                    )
                }
            },
            _ => Err(wrong_type(p)),
        },
    }
}


/// Whether some parameter of `tool` has the name.
pub fn declares_exec(tool: &ToolDefinition, name: &str) -> (r: bool)
    ensures
        r == declares(*tool, name@),
{
    let mut i: usize = 0;
    while i < tool.parameters.len()
        invariant
            i <= tool.parameters@.len(),
            forall|j: int| 0 <= j < i ==> #[trigger] tool.parameters@[j].name@ != name@,
        decreases tool.parameters.len() - i,
    {
        if same_text(tool.parameters[i].name.as_str(), name) {
            return true;
        }
        i = i + 1;
    }
    false
}

/// The first placeholder in `s` that names no parameter of `tool`, if any.
pub fn unknown_placeholder(tool: &ToolDefinition, s: &str) -> (r: Option<String>)
    ensures
        match r {
            Some(n) => placeholder_check(*tool, s@) == Err::<(), Seq<char>>(n@),
            None => placeholder_check(*tool, s@) == Ok::<(), Seq<char>>(()),
        },
{
    let v = chars_of(s);
    let ghost check = |i: int| unknown_token(*tool, s@, i);
    let mut i: usize = 0;
    while i < v.len()
        invariant
            i <= v@.len(),
            v@ == s@,
            check == (|i: int| unknown_token(*tool, s@, i)),
            forall|j: int| 0 <= j < i ==> #[trigger] check(j) is None,
        decreases v.len() - i,
    {
        if v[i] == '{' {
            let mut j: usize = i + 1;
            while j < v.len() && v[j] != '{' && v[j] != '}'
                invariant
                    i < j <= v@.len(),
                    next_brace(v@, i + 1) == next_brace(v@, j as int),
                decreases v.len() - j,
            {
                j = j + 1;
            }
            assert(next_brace(v@, i + 1) == j);
            if j < v.len() && v[j] == '}' {
                let mut name: Vec<char> = Vec::new();
                let mut k: usize = i + 1;
                while k < j
                    invariant
                        i + 1 <= k <= j,
                        j < v@.len(),
                        name@ == v@.subrange(i + 1, k as int),
                    decreases j - k,
                {
                    name.push(v[k]);
                    k = k + 1;
                    assert(name@ =~= v@.subrange(i + 1, k as int));
                }
                let name_text = string_from_chars(&name);
                if !declares_exec(tool, name_text.as_str()) {
                    proof {
                        lemma_first_failure_skip(i as int, s@.len() as int, check);
                    }
                    return Some(name_text);
                }
            }
        }
        assert(check(i as int) is None);
        i = i + 1;
    }
    proof {
        lemma_first_failure_skip(i as int, s@.len() as int, check);
    }
    None
}

/// The sentence that says why a call was refused.
pub open spec fn failure_message(f: ValidationFailure) -> Seq<char> {
    match f {
        ValidationFailure::MissingParameter(p) => "Missing required parameter: "@ + p,
        ValidationFailure::InvalidParameterType { parameter, expected } => "Parameter '"@
            + parameter + "' must be of type "@ + type_label(expected),
        ValidationFailure::InvalidEnumValue { parameter, value, allowed_values } => "Parameter '"@
            + parameter + "' does not allow the value '"@ + value + "'"@,
        ValidationFailure::PathNotAllowed(p) => "Path is not allowed: "@ + p,
        ValidationFailure::UnknownPlaceholder(n) => "Unknown placeholder: "@ + n,
        ValidationFailure::UnknownParameter(n) => "Unknown parameter: "@ + n,
    }
}

impl ToolValidationError {
    /// The sentence that says why the call was refused.
    pub fn message(&self) -> (r: String)
        ensures
            r@ == failure_message(self@),
    {
        match self {
            ToolValidationError::MissingParameter(p) => {
                let mut m = String::from_str("Missing required parameter: ");
                m.append(p.as_str());
                m
            },
            ToolValidationError::InvalidParameterType { parameter, expected } => {
                let mut m = String::from_str("Parameter '");
                m.append(parameter.as_str());
                m.append("' must be of type ");
                m.append(expected.as_str());
                m
            },
            ToolValidationError::InvalidEnumValue { parameter, value, .. } => {
                let mut m = String::from_str("Parameter '");
                m.append(parameter.as_str());
                m.append("' does not allow the value '");
                m.append(value.as_str());
                m.append("'");
                m
            },
            ToolValidationError::PathNotAllowed(p) => {
                let mut m = String::from_str("Path is not allowed: ");
                m.append(p.as_str());
                m
            },
            ToolValidationError::UnknownPlaceholder(n) => {
                let mut m = String::from_str("Unknown placeholder: ");
                m.append(n.as_str());
                m
            },
            ToolValidationError::UnknownParameter(n) => {
                let mut m = String::from_str("Unknown parameter: ");
                m.append(n.as_str());
                m
            },
        }
    }
}

/// A boolean parameter takes exactly the JSON booleans and the texts `"true"`
/// and `"false"`, and gives the text of the truth value: `true` and `"true"`
/// both give `"true"`, `false` and `"false"` both give `"false"`. Any other
/// value is refused as a value of the wrong type.
pub proof fn lemma_boolean_parameter_values(
    p: ToolParameter,
    allowed: Seq<Seq<char>>,
    blocked: Seq<Seq<char>>,
)
    requires
        p.parameter_type == ParameterType::Boolean,
    ensures
        parameter_text(p, JsonData::Bool(true), allowed, blocked) == Ok::<Seq<char>, ValidationFailure>("true"@),
        parameter_text(p, JsonData::Bool(false), allowed, blocked) == Ok::<Seq<char>, ValidationFailure>("false"@),
        parameter_text(p, JsonData::Text("true"@), allowed, blocked) == Ok::<Seq<char>, ValidationFailure>("true"@),
        parameter_text(p, JsonData::Text("false"@), allowed, blocked) == Ok::<Seq<char>, ValidationFailure>("false"@),
        forall|d: JsonData|
            #[trigger] parameter_text(p, d, allowed, blocked) is Ok <==> (d == JsonData::Bool(true) || d
                == JsonData::Bool(false) || d == JsonData::Text("true"@) || d == JsonData::Text("false"@)),
        forall|d: JsonData|
            !(#[trigger] parameter_text(p, d, allowed, blocked) is Ok) ==> parameter_text(p, d, allowed, blocked)
                == Err::<Seq<char>, ValidationFailure>(
                ValidationFailure::InvalidParameterType { parameter: p.name@, expected: ParameterType::Boolean },
            ),
{
}
} // verus!

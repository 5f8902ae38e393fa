use vstd::prelude::*;

use crate::checks::{first_failure, lemma_first_failure_skip};
use crate::json::{
    array_value, entries_data, entry, field_of, items_data, member, number_text, object_value, text_value,
    JsonData, JsonValue,
};
use crate::model::tool::type_label;
use crate::command_builder::required_check;
use crate::mcp::json_rpc::{is_failure, is_success, JsonRpcResponse};
use crate::mcp::JsonRpcRequest;
use crate::model::{ExecutionResult, ResolvedToolCall, ToolDefinition, ToolParameter};
use crate::registry::find_named;
use crate::service::{runs_tool, text_bindings, text_call_check, ToolExecutionService};
use crate::parameters::{distinct_keys, put, ParameterMap};
use crate::registry::ToolRegistry;
use crate::text::same_text;
use crate::text::{
    bool_text, decimal, decimal_text, is_blank, is_blank_text, signed_decimal, signed_decimal_text,
};

verus! {

/// The version of the protocol that the server speaks.
pub open spec fn protocol_version() -> Seq<char> {
    "2025-06-18"@
}

/// The name under which the server introduces itself.
pub open spec fn server_name() -> Seq<char> {
    "mercurius-p"@
}

/// The version of the server.
pub open spec fn server_version() -> Seq<char> {
    "0.1.0"@
}

/// The address of the resource that holds the tool configuration.
pub open spec fn config_uri() -> Seq<char> {
    "mercurius-p://tools/config"@
}

pub open spec fn empty_object() -> JsonData {
    JsonData::Object(Seq::empty())
}

/// What the server answers to `initialize`.
pub open spec fn initialize_data() -> JsonData {
    JsonData::Object(
        seq![
            ("protocolVersion"@, JsonData::Text(protocol_version())),
            (
                "capabilities"@,
                JsonData::Object(
                    seq![("tools"@, empty_object()), ("resources"@, empty_object())],
                ),
            ),
            (
                "serverInfo"@,
                JsonData::Object(
                    seq![
                        ("name"@, JsonData::Text(server_name())),
                        ("version"@, JsonData::Text(server_version())),
                    ],
                ),
            ),
        ],
    )
}

/// What the server answers to `resources/list`.
pub open spec fn resources_list_data() -> JsonData {
    JsonData::Object(
        seq![
            (
                "resources"@,
                JsonData::Array(
                    seq![
                        JsonData::Object(
                            seq![
                                ("uri"@, JsonData::Text(config_uri())),
                                ("name"@, JsonData::Text("Tool configuration"@)),
                                (
                                    "description"@,
                                    JsonData::Text(
                                        "The active mercurius-p tool configuration file"@,
                                    ),
                                ),
                                ("mimeType"@, JsonData::Text("application/json"@)),
                            ],
                        ),
                    ],
                ),
            ),
        ],
    )
}

/// What the server answers to `resources/read` of the configuration, whose text is `text`.
pub open spec fn config_contents_data(text: Seq<char>) -> JsonData {
    JsonData::Object(
        seq![
            (
                "contents"@,
                JsonData::Array(
                    seq![
                        JsonData::Object(
                            seq![
                                ("uri"@, JsonData::Text(config_uri())),
                                ("mimeType"@, JsonData::Text("application/json"@)),
                                ("text"@, JsonData::Text(text)),
                            ],
                        ),
                    ],
                ),
            ),
        ],
    )
}

/// An exit code as `{:?}` writes it: `Some(..)` or `None`.
pub open spec fn exit_code_text(code: Option<i32>) -> Seq<char> {
    match code {
        Some(c) => "Some("@ + signed_decimal(c as int) + ")"@,
        None => "None"@,
    }
}

/// A captured stream, under its heading, when it holds more than white space.
pub open spec fn stream_section(heading: Seq<char>, text: Seq<char>) -> Seq<char> {
    if is_blank(text) {
        Seq::empty()
    } else {
        heading + text
    }
}

/// The report of a finished process: its exit code, whether it timed out,
/// how long it ran, and what it wrote to stdout and stderr.
pub open spec fn result_text(r: ExecutionResult) -> Seq<char> {
    "exit_code: "@ + exit_code_text(r.exit_code) + "\n"@ + "timed_out: "@ + bool_text(r.timed_out)
        + "\n"@ + "duration_ms: "@ + decimal(r.duration_ms as nat) + "\n"@ + stream_section(
        "\nstdout:\n"@,
        r.stdout@,
    ) + stream_section("\nstderr:\n"@, r.stderr@)
}

/// A process run failed when it timed out or did not exit with code 0.
pub open spec fn run_failed(r: ExecutionResult) -> bool {
    r.timed_out || r.exit_code != Some(0i32)
}

/// What the server answers to `tools/call` once the tool's process has finished.
pub open spec fn tool_result_data(r: ExecutionResult) -> JsonData {
    JsonData::Object(
        seq![
            (
                "content"@,
                JsonData::Array(
                    seq![
                        JsonData::Object(
                            seq![
                                ("type"@, JsonData::Text("text"@)),
                                ("text"@, JsonData::Text(result_text(r))),
                            ],
                        ),
                    ],
                ),
            ),
            ("isError"@, JsonData::Bool(run_failed(r))),
        ],
    )
}

fn empty_object_value() -> (r: JsonValue)
    ensures
        r.data() == empty_object(),
{
    let r = object_value(Vec::new());
    assert(entries_data(Seq::<(String, JsonValue)>::empty()) =~= Seq::empty());
    r
}

/// The result of `initialize`.
pub fn initialize_result() -> (r: JsonValue)
    ensures
        r.data() == initialize_data(),
{
    let mut capabilities: Vec<(String, JsonValue)> = Vec::new();
    capabilities.push(entry("tools", empty_object_value()));
    capabilities.push(entry("resources", empty_object_value()));
    assert(entries_data(capabilities@) =~= seq![
        ("tools"@, empty_object()),
        ("resources"@, empty_object()),
    ]);
    let mut info: Vec<(String, JsonValue)> = Vec::new();
    info.push(entry("name", text_value("mercurius-p")));
    info.push(entry("version", text_value("0.1.0")));
    assert(entries_data(info@) =~= seq![
        ("name"@, JsonData::Text(server_name())),
        ("version"@, JsonData::Text(server_version())),
    ]);
    let mut fields: Vec<(String, JsonValue)> = Vec::new();
    fields.push(entry("protocolVersion", text_value("2025-06-18")));
    fields.push(entry("capabilities", object_value(capabilities)));
    fields.push(entry("serverInfo", object_value(info)));
    let ghost expected = initialize_data();
    assert(entries_data(fields@) =~= expected->Object_0);
    object_value(fields)
}

/// The result of `resources/list`.
pub fn resources_list_result() -> (r: JsonValue)
    ensures
        r.data() == resources_list_data(),
{
    let mut resource: Vec<(String, JsonValue)> = Vec::new();
    resource.push(entry("uri", text_value("mercurius-p://tools/config")));
    resource.push(entry("name", text_value("Tool configuration")));
    resource.push(
        entry("description", text_value("The active mercurius-p tool configuration file")),
    );
    resource.push(entry("mimeType", text_value("application/json")));
    let ghost expected = resources_list_data();
    let ghost listed = expected->Object_0[0].1->Array_0;
    assert(entries_data(resource@) =~= listed[0]->Object_0);
    let mut resources: Vec<JsonValue> = Vec::new();
    resources.push(object_value(resource));
    assert(items_data(resources@) =~= listed);
    let mut fields: Vec<(String, JsonValue)> = Vec::new();
    fields.push(entry("resources", array_value(resources)));
    assert(entries_data(fields@) =~= expected->Object_0);
    object_value(fields)
}

/// The result of `resources/read` of the configuration, whose text is `text`.
pub fn config_contents_result(text: String) -> (r: JsonValue)
    ensures
        r.data() == config_contents_data(text@),
{
    let ghost text_view = text@;
    let mut content: Vec<(String, JsonValue)> = Vec::new();
    content.push(entry("uri", text_value("mercurius-p://tools/config")));
    content.push(entry("mimeType", text_value("application/json")));
    content.push((String::from_str("text"), JsonValue::String(text)));
    let ghost expected = config_contents_data(text_view);
    let ghost listed = expected->Object_0[0].1->Array_0;
    assert(entries_data(content@) =~= listed[0]->Object_0);
    let mut contents: Vec<JsonValue> = Vec::new();
    contents.push(object_value(content));
    assert(items_data(contents@) =~= listed);
    let mut fields: Vec<(String, JsonValue)> = Vec::new();
    fields.push(entry("contents", array_value(contents)));
    assert(entries_data(fields@) =~= expected->Object_0);
    object_value(fields)
}


/// The report of a finished process, as `tools/call` shows it.
pub fn execution_result_text(result: &ExecutionResult) -> (r: String)
    ensures
        r@ == result_text(*result),
{
    let mut text = String::from_str("exit_code: ");
    match result.exit_code {
        Some(code) => {
            text.append("Some(");
            let digits = signed_decimal_text(code as i128);
            text.append(digits.as_str());
            text.append(")");
        },
        None => {
            text.append("None");
        },
    }
    text.append("\n");
    text.append("timed_out: ");
    if result.timed_out {
        text.append("true");
    } else {
        text.append("false");
    }
    text.append("\n");
    text.append("duration_ms: ");
    let duration = decimal_text(result.duration_ms);
    text.append(duration.as_str());
    text.append("\n");
    let ghost head = text@;
    assert(head == "exit_code: "@ + exit_code_text(result.exit_code) + "\n"@ + "timed_out: "@
        + bool_text(result.timed_out) + "\n"@ + "duration_ms: "@ + decimal(
        result.duration_ms as nat,
    ) + "\n"@);
    if !is_blank_text(result.stdout.as_str()) {
        text.append("\nstdout:\n");
        text.append(result.stdout.as_str());
    }
    assert(text@ == head + stream_section("\nstdout:\n"@, result.stdout@));
    let ghost middle = text@;
    if !is_blank_text(result.stderr.as_str()) {
        text.append("\nstderr:\n");
        text.append(result.stderr.as_str());
    }
    assert(text@ == middle + stream_section("\nstderr:\n"@, result.stderr@));
    text
}

/// The result of `tools/call` once the tool's process has finished.
pub fn execution_result_to_mcp_json(result: &ExecutionResult) -> (r: JsonValue)
    ensures
        r.data() == tool_result_data(*result),
{
    let failed = result.timed_out || match result.exit_code {
        Some(code) => code != 0,
        None => true,
    };
    let mut content: Vec<(String, JsonValue)> = Vec::new();
    content.push(entry("type", text_value("text")));
    content.push((String::from_str("text"), JsonValue::String(execution_result_text(result))));
    let ghost expected = tool_result_data(*result);
    let ghost listed = expected->Object_0[0].1->Array_0;
    assert(entries_data(content@) =~= listed[0]->Object_0);
    let mut items: Vec<JsonValue> = Vec::new();
    items.push(object_value(content));
    assert(items_data(items@) =~= listed);
    let mut fields: Vec<(String, JsonValue)> = Vec::new();
    fields.push(entry("content", array_value(items)));
    fields.push(entry("isError", JsonValue::Bool(failed)));
    assert(entries_data(fields@) =~= expected->Object_0);
    object_value(fields)
}


/// How a parameter appears in a tool's input schema.
pub open spec fn parameter_schema(p: ToolParameter) -> JsonData {
    JsonData::Object(
        seq![
            ("type"@, JsonData::Text(type_label(p.parameter_type))),
            ("description"@, JsonData::Text(p.name@)),
        ],
    )
}

/// The properties of a tool's input schema: the schema of each parameter under
/// its name, a later parameter replacing an earlier one of the same name.
pub open spec fn properties_of(params: Seq<ToolParameter>) -> Seq<(Seq<char>, JsonData)>
    decreases params.len(),
{
    if params.len() == 0 {
        Seq::empty()
    } else {
        put(properties_of(params.drop_last()), params.last().name@, parameter_schema(params.last()))
    }
}

/// The names of the required parameters, in order.
pub open spec fn required_of(params: Seq<ToolParameter>) -> Seq<JsonData>
    decreases params.len(),
{
    if params.len() == 0 {
        Seq::empty()
    } else if params.last().required {
        required_of(params.drop_last()).push(JsonData::Text(params.last().name@))
    } else {
        required_of(params.drop_last())
    }
}

/// How `tools/list` describes a tool.
pub open spec fn tool_data(tool: ToolDefinition) -> JsonData {
    JsonData::Object(
        seq![
            ("name"@, JsonData::Text(tool.name@)),
            ("description"@, JsonData::Text(tool.description@)),
            (
                "inputSchema"@,
                JsonData::Object(
                    seq![
                        ("type"@, JsonData::Text("object"@)),
                        ("properties"@, JsonData::Object(properties_of(tool.parameters@))),
                        ("required"@, JsonData::Array(required_of(tool.parameters@))),
                    ],
                ),
            ),
        ],
    )
}

/// What the server answers to `tools/list`: every tool, in the registry's order.
pub open spec fn tools_list_data(tools: Seq<ToolDefinition>) -> JsonData {
    JsonData::Object(
        seq![("tools"@, JsonData::Array(Seq::new(tools.len(), |i: int| tool_data(tools[i]))))],
    )
}

/// Stores `value` under `key` in an object's entries, as `serde_json::Map::insert` does.
fn object_insert(entries: &mut Vec<(String, JsonValue)>, key: String, value: JsonValue)
    requires
        distinct_keys(entries_data(old(entries)@)),
    ensures
        entries_data(final(entries)@) == put(entries_data(old(entries)@), key@, value.data()),
        distinct_keys(entries_data(final(entries)@)),
{
    let ghost before = entries_data(entries@);
    let ghost key_view = key@;
    let ghost value_data = value.data();
    let mut i: usize = 0;
    while i < entries.len()
        invariant
            i <= entries@.len(),
            before == entries_data(entries@),
            before == entries_data(old(entries)@),
            distinct_keys(before),
            key_view == key@,
            value_data == value.data(),
            forall|j: int| 0 <= j < i ==> #[trigger] before[j].0 != key_view,
        decreases entries.len() - i,
    {
        assert(before[i as int] == (entries@[i as int].0@, entries@[i as int].1.data()));
        if same_text(entries[i].0.as_str(), key.as_str()) {
            assert(before[i as int].0 == key_view);
            entries.set(i, (key, value));
            proof {
                let c = choose|c: int| 0 <= c < before.len() && #[trigger] before[c].0 == key_view;
                if c < i {
                    assert(before[c].0 != before[i as int].0);
                } else if i < c {
                    assert(before[i as int].0 != before[c].0);
                }
                assert(entries_data(entries@) =~= put(before, key_view, value_data));
            }
            return;
        }
        i = i + 1;
    }
    entries.push((key, value));
    assert(entries_data(entries@) =~= put(before, key_view, value_data));
}

/// The entry of a tool's input schema that describes a parameter.
fn parameter_schema_value(p: &ToolParameter) -> (r: JsonValue)
    ensures
        r.data() == parameter_schema(*p),
{
    let mut fields: Vec<(String, JsonValue)> = Vec::new();
    fields.push(entry("type", text_value(p.parameter_type.as_str())));
    fields.push(entry("description", text_value(p.name.as_str())));
    assert(entries_data(fields@) =~= parameter_schema(*p)->Object_0);
    object_value(fields)
}

/// How `tools/list` describes `tool`.
pub fn tool_to_mcp_json(tool: &ToolDefinition) -> (r: JsonValue)
    ensures
        r.data() == tool_data(*tool),
{
    let mut properties: Vec<(String, JsonValue)> = Vec::new();
    let mut required: Vec<JsonValue> = Vec::new();
    let mut i: usize = 0;
    assert(entries_data(properties@) =~= Seq::empty());
    assert(items_data(required@) =~= Seq::empty());
    assert(tool.parameters@.take(0) =~= Seq::<ToolParameter>::empty());
    while i < tool.parameters.len()
        invariant
            i <= tool.parameters@.len(),
            entries_data(properties@) == properties_of(tool.parameters@.take(i as int)),
            distinct_keys(entries_data(properties@)),
            items_data(required@) == required_of(tool.parameters@.take(i as int)),
        decreases tool.parameters.len() - i,
    {
        let p = &tool.parameters[i];
        let ghost seen = tool.parameters@.take(i + 1);
        assert(seen.drop_last() =~= tool.parameters@.take(i as int));
        assert(seen.last() == *p);
        object_insert(&mut properties, p.name.clone(), parameter_schema_value(p));
        if p.required {
            let ghost before = items_data(required@);
            required.push(text_value(p.name.as_str()));
            assert(items_data(required@) =~= before.push(JsonData::Text(p.name@)));
        }
        i = i + 1;
    }
    assert(tool.parameters@.take(i as int) =~= tool.parameters@);
    let mut schema: Vec<(String, JsonValue)> = Vec::new();
    schema.push(entry("type", text_value("object")));
    schema.push(entry("properties", object_value(properties)));
    schema.push(entry("required", array_value(required)));
    let ghost expected = tool_data(*tool);
    assert(entries_data(schema@) =~= expected->Object_0[2].1->Object_0);
    let mut fields: Vec<(String, JsonValue)> = Vec::new();
    fields.push(entry("name", text_value(tool.name.as_str())));
    fields.push(entry("description", text_value(tool.description.as_str())));
    fields.push(entry("inputSchema", object_value(schema)));
    assert(entries_data(fields@) =~= expected->Object_0);
    object_value(fields)
}

/// The result of `tools/list`: every tool of the registry, in its order.
pub fn tools_list_result(registry: &ToolRegistry) -> (r: JsonValue)
    ensures
        r.data() == tools_list_data(registry@),
{
    let tools = registry.list_tools();
    let mut items: Vec<JsonValue> = Vec::new();
    let mut i: usize = 0;
    while i < tools.len()
        invariant
            i <= tools@.len(),
            tools@.len() == registry@.len(),
            forall|k: int| 0 <= k < registry@.len() ==> *#[trigger] tools@[k] == registry@[k],
            items@.len() == i,
            forall|k: int| 0 <= k < i ==> #[trigger] items@[k].data() == tool_data(registry@[k]),
        decreases tools.len() - i,
    {
        items.push(tool_to_mcp_json(tools[i]));
        i = i + 1;
    }
    let ghost expected = tools_list_data(registry@);
    assert(items_data(items@) =~= expected->Object_0[0].1->Array_0);
    let mut fields: Vec<(String, JsonValue)> = Vec::new();
    fields.push(entry("tools", array_value(items)));
    assert(entries_data(fields@) =~= expected->Object_0);
    object_value(fields)
}


/// The model of an optional value.
pub open spec fn opt_data(o: Option<JsonValue>) -> Option<JsonData> {
    match o {
        Some(v) => Some(v.data()),
        None => None,
    }
}

/// The resource address that the params of `resources/read` ask for: the text
/// of their member `uri`, which must not be blank.
pub open spec fn resource_uri_check(params: Option<JsonData>) -> Result<Seq<char>, Seq<char>> {
    match params {
        None => Err("resources/read requires params"@),
        Some(p) => match member(p, "uri"@) {
            Some(JsonData::Text(uri)) => if is_blank(uri) {
                Err("resources/read param 'uri' must be a non-empty string"@)
            } else {
                Ok(uri)
            },
            Some(_) => Err("resources/read param 'uri' must be a non-empty string"@),
            None => Err("resources/read missing required param 'uri'"@),
        },
    }
}

/// The text that an argument value gives a parameter: a string as it is, a
/// number and a boolean as `to_string` writes them.
pub open spec fn scalar_text(d: JsonData) -> Seq<char> {
    match d {
        JsonData::Text(s) => s,
        JsonData::Number(n) => number_text(n),
        JsonData::Bool(b) => bool_text(b),
        _ => Seq::empty(),
    }
}

/// What is wrong with the `i`-th argument of a call: only strings, numbers and
/// booleans can be given to a parameter.
pub open spec fn argument_problem(e: Seq<(Seq<char>, JsonData)>, i: int) -> Option<Seq<char>> {
    match e[i].1 {
        JsonData::Null => Some("Argument '"@ + e[i].0 + "' cannot be null"@),
        JsonData::Array(_) => Some("Argument '"@ + e[i].0 + "' must be a string, number, or boolean"@),
        JsonData::Object(_) => Some(
            "Argument '"@ + e[i].0 + "' must be a string, number, or boolean"@,
        ),
        _ => None,
    }
}

/// The entries stored one after the other, each in place of an earlier entry
/// with the same key.
pub open spec fn put_all(s: Seq<(Seq<char>, Seq<char>)>) -> Seq<(Seq<char>, Seq<char>)>
    decreases s.len(),
{
    if s.len() == 0 {
        Seq::empty()
    } else {
        put(put_all(s.drop_last()), s.last().0, s.last().1)
    }
}

/// The parameter values that the arguments of a call give, or the message
/// about the first argument that cannot be one.
pub open spec fn arguments_check(e: Seq<(Seq<char>, JsonData)>) -> Result<
    Seq<(Seq<char>, Seq<char>)>,
    Seq<char>,
> {
    match first_failure(0, e.len() as int, |i: int| argument_problem(e, i)) {
        Err(m) => Err(m),
        Ok(()) => Ok(put_all(Seq::new(e.len(), |i: int| (e[i].0, scalar_text(e[i].1))))),
    }
}

/// The tool name and parameter values that the params of `tools/call` ask
/// for: a non-blank text under `name`, and the values of the object under
/// `arguments`, none when it is absent.
pub open spec fn tools_call_check(params: Option<JsonData>) -> Result<
    (Seq<char>, Seq<(Seq<char>, Seq<char>)>),
    Seq<char>,
> {
    match params {
        None => Err("tools/call requires params"@),
        Some(p) => match member(p, "name"@) {
            Some(JsonData::Text(name)) => if is_blank(name) {
                Err("tools/call param 'name' must be a non-empty string"@)
            } else {
                match member(p, "arguments"@) {
                    Some(JsonData::Object(e)) => match arguments_check(e) {
                        Ok(values) => Ok((name, values)),
                        Err(m) => Err(m),
                    },
                    Some(_) => Err("tools/call param 'arguments' must be an object"@),
                    None => Ok((name, Seq::empty())),
                }
            },
            Some(_) => Err("tools/call param 'name' must be a non-empty string"@),
            None => Err("tools/call missing required param 'name'"@),
        },
    }
}

fn parse_resource_uri(params: Option<JsonValue>) -> (r: Result<String, String>)
    ensures
        match r {
            Ok(uri) => resource_uri_check(opt_data(params)) == Ok::<Seq<char>, Seq<char>>(uri@),
            Err(m) => resource_uri_check(opt_data(params)) == Err::<Seq<char>, Seq<char>>(m@),
        },
{
    let params = match params {
        Some(params) => params,
        None => {
            return Err(String::from_str("resources/read requires params"));
        },
    };
    match params.get("uri") {
        Some(JsonValue::String(uri)) => {
            if !is_blank_text(uri.as_str()) {
                Ok(uri.clone())
            } else {
                Err(String::from_str("resources/read param 'uri' must be a non-empty string"))
            }
        },
        Some(_) => Err(String::from_str("resources/read param 'uri' must be a non-empty string")),
        None => Err(String::from_str("resources/read missing required param 'uri'")),
    }
}

/// The values that the entries of an `arguments` object give the parameters.
fn value_object_to_string_map(object: &Vec<(String, JsonValue)>) -> (r: Result<ParameterMap, String>)
    ensures
        match r {
            Ok(values) => arguments_check(entries_data(object@)) == Ok::<
                Seq<(Seq<char>, Seq<char>)>,
                Seq<char>,
            >(values@),
            Err(m) => arguments_check(entries_data(object@)) == Err::<
                Seq<(Seq<char>, Seq<char>)>,
                Seq<char>,
            >(m@),
        },
{
    let ghost e = entries_data(object@);
    let ghost check = |i: int| argument_problem(e, i);
    let ghost texts = Seq::new(e.len(), |i: int| (e[i].0, scalar_text(e[i].1)));
    let mut arguments = ParameterMap::new();
    let mut i: usize = 0;
    assert(texts.take(0) =~= Seq::<(Seq<char>, Seq<char>)>::empty());
    while i < object.len()
        invariant
            i <= object@.len(),
            e == entries_data(object@),
            check == (|i: int| argument_problem(e, i)),
            texts == Seq::new(e.len(), |i: int| (e[i].0, scalar_text(e[i].1))),
            forall|j: int| 0 <= j < i ==> #[trigger] check(j) is None,
            arguments@ == put_all(texts.take(i as int)),
        decreases object.len() - i,
    {
        let key = &object[i].0;
        assert(e[i as int] == (key@, object@[i as int].1.data()));
        let text = match &object[i].1 {
            JsonValue::String(s) => s.clone(),
            JsonValue::Number(n) => n.to_text(),
            JsonValue::Bool(b) => if *b {
                String::from_str("true")
            } else {
                String::from_str("false")
            },
            JsonValue::Null => {
                let mut m = String::from_str("Argument '");
                m.append(key.as_str());
                m.append("' cannot be null");
                proof {
                    lemma_first_failure_skip(i as int, e.len() as int, check);
                }
                return Err(m);
            },
            _ => {
                let mut m = String::from_str("Argument '");
                m.append(key.as_str());
                m.append("' must be a string, number, or boolean");
                proof {
                    lemma_first_failure_skip(i as int, e.len() as int, check);
                }
                return Err(m);
            },
        };
        assert(text@ == scalar_text(e[i as int].1));
        assert(texts.take(i + 1).drop_last() =~= texts.take(i as int));
        arguments.insert(key.clone(), text);
        assert(check(i as int) is None);
        i = i + 1;
    }
    proof {
        lemma_first_failure_skip(i as int, e.len() as int, check);
    }
    assert(texts.take(i as int) =~= texts);
    Ok(arguments)
}

/// The tool name and parameter values of a `tools/call` request.
#[derive(Debug)]
pub struct ToolsCallParams {
    pub name: String,
    pub arguments: ParameterMap,
}

/// Reads the tool name and the parameter values of a `tools/call` request:
/// `params` must be an object whose `name` is a non-blank string and whose
/// `arguments`, where present, is an object of scalar values, each taken as
/// text. Fails with the message of the first requirement not met.
pub fn parse_tools_call_params(params: Option<JsonValue>) -> (r: Result<ToolsCallParams, String>)
    ensures
        match r {
            Ok(p) => tools_call_check(opt_data(params)) == Ok::<
                (Seq<char>, Seq<(Seq<char>, Seq<char>)>),
                Seq<char>,
            >((p.name@, p.arguments@)),
            Err(m) => tools_call_check(opt_data(params)) == Err::<
                (Seq<char>, Seq<(Seq<char>, Seq<char>)>),
                Seq<char>,
            >(m@),
        },
{
    let params = match params {
        Some(params) => params,
        None => {
            return Err(String::from_str("tools/call requires params"));
        },
    };
    let name = match params.get("name") {
        Some(JsonValue::String(name)) => {
            if !is_blank_text(name.as_str()) {
                name.clone()
            } else {
                return Err(String::from_str("tools/call param 'name' must be a non-empty string"));
            }
        },
        Some(_) => {
            return Err(String::from_str("tools/call param 'name' must be a non-empty string"));
        },
        None => {
            return Err(String::from_str("tools/call missing required param 'name'"));
        },
    };
    let arguments = match params.get("arguments") {
        Some(JsonValue::Object(entries)) => {
            proof {
                crate::json::lemma_object_data(*entries);
            }
            match value_object_to_string_map(entries) {
                Ok(arguments) => arguments,
                Err(e) => {
                    return Err(e);
                },
            }
        },
        Some(_) => {
            return Err(String::from_str("tools/call param 'arguments' must be an object"));
        },
        None => {
            let arguments = ParameterMap::new();
            arguments
        },
    };
    Ok(ToolsCallParams { name, arguments })
}


/// What the handler does with a request: answer it at once, run a tool's
/// process and answer with what it did, or read the configuration file and
/// answer with its text.
#[derive(Debug)]
pub enum HandlerAction {
    Respond(JsonRpcResponse),
    RunTool { id: JsonValue, call: ResolvedToolCall },
    ReadConfig { id: JsonValue },
}

/// `a` answers a `tools/call` request with `id` and `params` as the server
/// does, given its tools.
pub open spec fn tools_call_answer(
    tools: Seq<ToolDefinition>,
    params: Option<JsonData>,
    id: JsonValue,
    a: HandlerAction,
) -> bool {
    match tools_call_check(params) {
        Err(m) => a matches HandlerAction::Respond(r) && is_failure(r, Some(id), -32602, m),
        Ok((name, values)) => match find_named(tools, name) {
            None => a matches HandlerAction::Respond(r) && is_failure(
                r,
                Some(id),
                -32603,
                "Tool '"@ + name + "' was not found"@,
            ),
            Some(tool) => match required_check(tool, values) {
                Err(m) => a matches HandlerAction::Respond(r) && is_failure(
                    r,
                    Some(id),
                    -32603,
                    m,
                ),
                Ok(()) => match text_call_check(tool, values) {
                    Err(m) => a matches HandlerAction::Respond(r) && is_failure(
                        r,
                        Some(id),
                        -32603,
                        m,
                    ),
                    Ok(()) => a matches HandlerAction::RunTool { id: i, call } && i == id
                        && runs_tool(call, tool, text_bindings(tool, values)),
                },
            },
        },
    }
}

/// `a` answers a `resources/read` request with `id` and `params` as the
/// server does: only the configuration can be read.
pub open spec fn resources_read_answer(params: Option<JsonData>, id: JsonValue, a: HandlerAction) -> bool {
    match resource_uri_check(params) {
        Err(m) => a matches HandlerAction::Respond(r) && is_failure(r, Some(id), -32602, m),
        Ok(uri) => if uri == config_uri() {
            a matches HandlerAction::ReadConfig { id: i } && i == id
        } else {
            a matches HandlerAction::Respond(r) && is_failure(
                r,
                Some(id),
                -32602,
                "Unknown resource URI: "@ + uri,
            )
        },
    }
}

/// `a` answers the request with `id`, `method` and `params` as the server
/// does, given its tools.
pub open spec fn answers(
    tools: Seq<ToolDefinition>,
    method: Seq<char>,
    params: Option<JsonData>,
    id: JsonValue,
    a: HandlerAction,
) -> bool {
    if method == "initialize"@ {
        a matches HandlerAction::Respond(r) && is_success(r, Some(id), initialize_data())
    } else if method == "tools/list"@ {
        a matches HandlerAction::Respond(r) && is_success(r, Some(id), tools_list_data(tools))
    } else if method == "tools/call"@ {
        tools_call_answer(tools, params, id, a)
    } else if method == "resources/list"@ {
        a matches HandlerAction::Respond(r) && is_success(r, Some(id), resources_list_data())
    } else if method == "resources/read"@ {
        resources_read_answer(params, id, a)
    } else {
        a matches HandlerAction::Respond(r) && is_failure(
            r,
            Some(id),
            -32601,
            "Method not found: "@ + method,
        )
    }
}

/// Every answer that the handler gives at once carries the id of the request,
/// speaks JSON-RPC 2.0, and holds either a result or an error, never both.
pub proof fn lemma_answer_well_formed(
    tools: Seq<ToolDefinition>,
    method: Seq<char>,
    params: Option<JsonData>,
    id: JsonValue,
    a: HandlerAction,
)
    requires
        answers(tools, method, params, id, a),
    ensures
        a matches HandlerAction::Respond(r) ==> {
            &&& r.jsonrpc@ == "2.0"@
            &&& r.id == Some(id)
            &&& (r.result is Some <==> r.error is None)
        },
{
}

/// Answers the requests of an MCP client.
#[derive(Debug)]
pub struct McpHandler {
    service: ToolExecutionService,
    config_path: String,
}

impl View for McpHandler {
    type V = Seq<ToolDefinition>;

    closed spec fn view(&self) -> Seq<ToolDefinition> {
        self.service@
    }
}

impl McpHandler {
    /// The path of the configuration file that the handler publishes.
    pub closed spec fn config(self) -> Seq<char> {
        self.config_path@
    }

    /// A handler that runs the tools of `service` and publishes the
    /// configuration file at `config_path`.
    pub fn new(service: ToolExecutionService, config_path: String) -> (r: Self)
        ensures
            r@ == service@,
            r.config() == config_path@,
    {
        McpHandler { service, config_path }
    }

    /// The path of the configuration file that the handler publishes.
    pub fn config_path(&self) -> (r: &String)
        ensures
            r@ == self.config(),
    {
        &self.config_path
    }

    /// What to do with `request`. A notification, which has no id, gets no
    /// answer; every other request gets one, for its id.
    pub fn handle_request(&self, request: JsonRpcRequest) -> (r: Option<HandlerAction>)
        ensures
            match request.id {
                None => r is None,
                Some(id) => r matches Some(a) && answers(
                    self@,
                    request.method@,
                    opt_data(request.params),
                    id,
                    a,
                ),
            },
    {
        match request.id {
            Some(id) => Some(self.handle_method(id, request.method.as_str(), request.params)),
            None => None,
        }
    }

    fn handle_method(&self, id: JsonValue, method: &str, params: Option<JsonValue>) -> (r:
        HandlerAction)
        ensures
            answers(self@, method@, opt_data(params), id, r),
    {
        if same_text(method, "initialize") {
            HandlerAction::Respond(JsonRpcResponse::success(Some(id), initialize_result()))
        } else if same_text(method, "tools/list") {
            HandlerAction::Respond(
                JsonRpcResponse::success(Some(id), tools_list_result(self.service.registry())),
            )
        } else if same_text(method, "tools/call") {
            self.handle_tools_call(id, params)
        } else if same_text(method, "resources/list") {
            HandlerAction::Respond(JsonRpcResponse::success(Some(id), resources_list_result()))
        } else if same_text(method, "resources/read") {
            self.handle_resources_read(id, params)
        } else {
            let mut m = String::from_str("Method not found: ");
            m.append(method);
            HandlerAction::Respond(JsonRpcResponse::error(Some(id), -32601, m))
        }
    }

    fn handle_tools_call(&self, id: JsonValue, params: Option<JsonValue>) -> (r: HandlerAction)
        ensures
            tools_call_answer(self@, opt_data(params), id, r),
    {
        let call_params = match parse_tools_call_params(params) {
            Ok(call_params) => call_params,
            Err(error) => {
                return HandlerAction::Respond(JsonRpcResponse::error(Some(id), -32602, error));
            },
        };
        match self.service.prepare_call(call_params.name.as_str(), &call_params.arguments) {
            Ok(call) => HandlerAction::RunTool { id, call },
            Err(error) => HandlerAction::Respond(JsonRpcResponse::error(Some(id), -32603, error)),
        }
    }

    fn handle_resources_read(&self, id: JsonValue, params: Option<JsonValue>) -> (r:
        HandlerAction)
        ensures
            resources_read_answer(opt_data(params), id, r),
    {
        let uri = match parse_resource_uri(params) {
            Ok(uri) => uri,
            Err(error) => {
                return HandlerAction::Respond(JsonRpcResponse::error(Some(id), -32602, error));
            },
        };
        if same_text(uri.as_str(), "mercurius-p://tools/config") {
            HandlerAction::ReadConfig { id }
        } else {
            let mut m = String::from_str("Unknown resource URI: ");
            m.append(uri.as_str());
            HandlerAction::Respond(JsonRpcResponse::error(Some(id), -32602, m))
        }
    }

    /// The answer to `tools/call` once the tool's process has run: what it did,
    /// or the message of the failure to run it.
    pub fn complete_tool_call(id: JsonValue, outcome: Result<ExecutionResult, String>) -> (r:
        JsonRpcResponse)
        ensures
            match outcome {
                Ok(result) => is_success(r, Some(id), tool_result_data(result)),
                Err(m) => is_failure(r, Some(id), -32603, m@),
            },
    {
        match outcome {
            Ok(result) => JsonRpcResponse::success(Some(id), execution_result_to_mcp_json(&result)),
            Err(error) => JsonRpcResponse::error(Some(id), -32603, error),
        }
    }

    /// The answer to `resources/read` of the configuration once its file has
    /// been read: its text, or the message of the failure to read it.
    pub fn complete_config_read(id: JsonValue, outcome: Result<String, String>) -> (r:
        JsonRpcResponse)
        ensures
            match outcome {
                Ok(text) => is_success(r, Some(id), config_contents_data(text@)),
                Err(m) => is_failure(
                    r,
                    Some(id),
                    -32603,
                    "Failed to read tool configuration resource: "@ + m@,
                ),
            },
    {
        match outcome {
            Ok(text) => JsonRpcResponse::success(Some(id), config_contents_result(text)),
            Err(error) => {
                let mut m = String::from_str("Failed to read tool configuration resource: ");
                m.append(error.as_str());
                JsonRpcResponse::error(Some(id), -32603, m)
            },
        }
    }
}

/// The `required` list of a tool's input schema names the required parameters
/// and only them, in their order: it is the names of the parameters whose
/// `required` is true, each as a JSON string.
pub proof fn lemma_required_names(params: Seq<ToolParameter>)
    ensures
        required_of(params) == params.filter(|p: ToolParameter| p.required).map_values(
            |p: ToolParameter| JsonData::Text(p.name@),
        ),
        forall|k: int|
            0 <= k < required_of(params).len() ==> exists|i: int|
                0 <= i < params.len() && (#[trigger] params[i]).required && #[trigger] required_of(params)[k]
                    == JsonData::Text(params[i].name@),
        forall|i: int|
            0 <= i < params.len() && (#[trigger] params[i]).required ==> exists|k: int|
                0 <= k < required_of(params).len() && #[trigger] required_of(params)[k] == JsonData::Text(
                    params[i].name@,
                ),
    decreases params.len(),
{
    let keep = |p: ToolParameter| p.required;
    let name = |p: ToolParameter| JsonData::Text(p.name@);
    reveal(Seq::filter);
    if params.len() == 0 {
        assert(params.filter(keep).map_values(name) =~= Seq::<JsonData>::empty());
    } else {
        let rest = params.drop_last();
        let last = params.last();
        lemma_required_names(rest);
        assert(params.filter(keep) == if keep(last) {
            rest.filter(keep).push(last)
        } else {
            rest.filter(keep)
        });
        if last.required {
            assert(rest.filter(keep).push(last).map_values(name) =~= rest.filter(keep).map_values(
                name,
            ).push(name(last)));
        }
        let r = required_of(params);
        let rr = required_of(rest);
        assert forall|k: int| 0 <= k < r.len() implies exists|i: int|
            0 <= i < params.len() && (#[trigger] params[i]).required && #[trigger] r[k] == JsonData::Text(
                params[i].name@,
            ) by {
            if k < rr.len() {
                let i = choose|i: int|
                    0 <= i < rest.len() && (#[trigger] rest[i]).required && #[trigger] rr[k] == JsonData::Text(
                        rest[i].name@,
                    );
                assert(params[i] == rest[i]);
            } else {
                assert(params[params.len() - 1] == last);
            }
        }
        assert forall|i: int| 0 <= i < params.len() && (#[trigger] params[i]).required implies exists|k: int|
            0 <= k < r.len() && #[trigger] r[k] == JsonData::Text(params[i].name@) by {
            if i < rest.len() {
                assert(rest[i] == params[i]);
                let k = choose|k: int| 0 <= k < rr.len() && #[trigger] rr[k] == JsonData::Text(rest[i].name@);
                assert(r[k] == rr[k]);
            } else {
                assert(r[r.len() - 1] == JsonData::Text(last.name@));
            }
        }
    }
}

/// A finished run is reported as an error exactly when it did not end well:
/// it timed out, it ended without an exit code, or its exit code is anything
/// but 0. A run that exits with 0 in time is reported as a success.
pub proof fn lemma_error_flag(r: ExecutionResult)
    ensures
        r.timed_out ==> member(tool_result_data(r), "isError"@) == Some(JsonData::Bool(true)),
        r.exit_code is None ==> member(tool_result_data(r), "isError"@) == Some(JsonData::Bool(true)),
        (r.exit_code matches Some(c) && c != 0) ==> member(tool_result_data(r), "isError"@) == Some(
            JsonData::Bool(true),
        ),
        !r.timed_out && r.exit_code == Some(0i32) ==> member(tool_result_data(r), "isError"@) == Some(
            JsonData::Bool(false),
        ),
{
    reveal_strlit("content");
    reveal_strlit("isError");
    let e = tool_result_data(r)->Object_0;
    assert(e[0].0 == "content"@);
    assert("content"@[0] != "isError"@[0]);
    assert(e[0].0 != "isError"@);
    assert(e.drop_first()[0].0 == "isError"@);
    assert(field_of(e.drop_first(), "isError"@) == Some(JsonData::Bool(run_failed(r))));
    assert(field_of(e, "isError"@) == Some(JsonData::Bool(run_failed(r))));
}

/// The answer to `initialize` names the protocol version and the server, and
/// advertises both capabilities that the server serves: tools and resources.
pub proof fn lemma_initialize_capabilities()
    ensures
        member(initialize_data(), "protocolVersion"@) == Some(JsonData::Text("2025-06-18"@)),
        member(initialize_data(), "capabilities"@) matches Some(c) && member(c, "tools"@) matches Some(
            JsonData::Object(_),
        ) && member(c, "resources"@) matches Some(JsonData::Object(_)),
        member(initialize_data(), "serverInfo"@) matches Some(info) && member(info, "name"@) == Some(
            JsonData::Text("mercurius-p"@),
        ),
{
    reveal_strlit("protocolVersion");
    reveal_strlit("capabilities");
    reveal_strlit("serverInfo");
    reveal_strlit("tools");
    reveal_strlit("resources");
    reveal_strlit("name");
    let e = initialize_data()->Object_0;
    assert(e[0].0 == "protocolVersion"@);
    assert("protocolVersion"@.len() == 15);
    assert("capabilities"@.len() == 12);
    assert("serverInfo"@.len() == 10);
    assert(e[0].0 != "capabilities"@);
    assert(e[0].0 != "serverInfo"@);
    assert(e.drop_first()[0].0 != "serverInfo"@);
    let c = e[1].1->Object_0;
    assert("tools"@.len() == 5);
    assert("resources"@.len() == 9);
    assert(c[0].0 != "resources"@);
    assert(field_of(c, "tools"@) == Some(empty_object()));
    assert(field_of(c.drop_first(), "resources"@) == Some(empty_object()));
    assert(field_of(c, "resources"@) == Some(empty_object()));
    assert(field_of(e, "capabilities"@) == field_of(e.drop_first(), "capabilities"@));
    assert(field_of(e.drop_first(), "capabilities"@) == Some(e[1].1));
    assert(field_of(e.drop_first().drop_first(), "serverInfo"@) == Some(e[2].1));
    assert(field_of(e.drop_first(), "serverInfo"@) == Some(e[2].1));
    assert(field_of(e, "serverInfo"@) == Some(e[2].1));
    let info = e[2].1->Object_0;
    assert(field_of(info, "name"@) == Some(JsonData::Text(server_name())));
}
} // verus!

use mercurius_p::json::{JsonNumber, JsonValue};
use mercurius_p::mcp::{HandlerAction, JsonRpcRequest, JsonRpcResponse, McpHandler};
use mercurius_p::model::{ExecutionResult, ParameterType, ToolDefinition, ToolParameter};
use mercurius_p::registry::ToolRegistry;
use mercurius_p::service::ToolExecutionService;

fn number(n: u64) -> JsonValue {
    JsonValue::Number(JsonNumber::PosInt(n))
}

fn text(s: &str) -> JsonValue {
    JsonValue::String(s.to_string())
}

fn object(entries: Vec<(&str, JsonValue)>) -> JsonValue {
    JsonValue::Object(entries.into_iter().map(|(k, v)| (k.to_string(), v)).collect())
}

fn at<'a>(value: &'a JsonValue, path: &[&str]) -> &'a JsonValue {
    let mut current = value;
    for key in path {
        current = current.get(key).unwrap_or_else(|| panic!("missing member {key}"));
    }
    current
}

fn item(value: &JsonValue, index: usize) -> &JsonValue {
    match value {
        JsonValue::Array(items) => &items[index],
        other => panic!("Expected an array, but got: {other:?}"),
    }
}

fn echo_tool() -> ToolDefinition {
    ToolDefinition {
        name: "echo".to_string(),
        description: "Echo a message".to_string(),
        command: "echo".to_string(),
        arguments: vec!["{message}".to_string()],
        parameters: vec![ToolParameter {
            name: "message".to_string(),
            parameter_type: ParameterType::String,
            required: true,
            default: None,
            allowed_values: None,
        }],
        timeout_ms: Some(5000),
        read_only: false,
        category: None,
        working_directory: None,
    }
}

fn no_parameter_tool() -> ToolDefinition {
    ToolDefinition {
        name: "rustc-version".to_string(),
        description: "Print rustc version".to_string(),
        command: "rustc".to_string(),
        arguments: vec!["--version".to_string()],
        parameters: vec![],
        timeout_ms: Some(5000),
        read_only: false,
        category: None,
        working_directory: None,
    }
}

fn echo_like_required_parameter_tool() -> ToolDefinition {
    ToolDefinition {
        name: "echo-like".to_string(),
        description: "Requires a message parameter".to_string(),
        command: "rustc".to_string(),
        arguments: vec!["--version".to_string()],
        parameters: vec![ToolParameter {
            name: "message".to_string(),
            parameter_type: ParameterType::String,
            required: true,
            default: None,
            allowed_values: None,
        }],
        timeout_ms: Some(5000),
        read_only: false,
        category: None,
        working_directory: None,
    }
}

fn handler_with_tools(tools: Vec<ToolDefinition>) -> McpHandler {
    let registry = ToolRegistry::new(tools);
    let service = ToolExecutionService::new(registry);

    McpHandler::new(service, "tools.json".to_string())
}

fn request(id: Option<JsonValue>, method: &str, params: Option<JsonValue>) -> JsonRpcRequest {
    JsonRpcRequest { jsonrpc: "2.0".to_string(), id, method: method.to_string(), params }
}

fn respond(action: Option<HandlerAction>) -> JsonRpcResponse {
    match action {
        Some(HandlerAction::Respond(response)) => response,
        other => panic!("Expected an immediate response, but got: {other:?}"),
    }
}

#[test]
fn handles_initialize_request() {
    let handler = handler_with_tools(vec![]);
    let params = object(vec![("protocolVersion", text("2025-06-18"))]);
    let response = respond(handler.handle_request(request(Some(number(1)), "initialize", Some(params))));

    assert_eq!(response.jsonrpc, "2.0");
    assert_eq!(response.id, Some(number(1)));
    assert!(response.error.is_none());
    let result = response.result.expect("Expected initialize response to contain result");
    assert_eq!(at(&result, &["protocolVersion"]), &text("2025-06-18"));
    assert_eq!(at(&result, &["serverInfo", "name"]), &text("mercurius-p"));
    assert_eq!(at(&result, &["serverInfo", "version"]), &text("0.1.0"));
    assert!(matches!(at(&result, &["capabilities", "tools"]), JsonValue::Object(_)));
}

#[test]
fn handles_tools_list_with_required_parameter() {
    let handler = handler_with_tools(vec![echo_tool()]);
    let response = respond(handler.handle_request(request(Some(number(2)), "tools/list", None)));

    assert_eq!(response.jsonrpc, "2.0");
    assert_eq!(response.id, Some(number(2)));
    assert!(response.error.is_none());
    let result = response.result.expect("Expected tools/list response to contain result");
    let tools = at(&result, &["tools"]);
    assert!(matches!(tools, JsonValue::Array(_)));
    let tool = item(tools, 0);
    assert_eq!(at(tool, &["name"]), &text("echo"));
    assert_eq!(at(tool, &["description"]), &text("Echo a message"));
    assert_eq!(at(tool, &["inputSchema", "type"]), &text("object"));
    assert_eq!(at(tool, &["inputSchema", "properties", "message", "type"]), &text("string"));
    assert_eq!(at(tool, &["inputSchema", "properties", "message", "description"]), &text("message"));
    assert_eq!(item(at(tool, &["inputSchema", "required"]), 0), &text("message"));
}

#[test]
fn handles_tools_list_with_no_parameter_tool() {
    let handler = handler_with_tools(vec![no_parameter_tool()]);
    let response = respond(handler.handle_request(request(Some(number(3)), "tools/list", None)));

    assert_eq!(response.jsonrpc, "2.0");
    assert_eq!(response.id, Some(number(3)));
    assert!(response.error.is_none());
    let result = response.result.unwrap();
    let tool = item(at(&result, &["tools"]), 0);
    assert_eq!(at(tool, &["name"]), &text("rustc-version"));
    assert_eq!(at(tool, &["inputSchema", "properties"]), &JsonValue::Object(vec![]));
    assert_eq!(at(tool, &["inputSchema", "required"]), &JsonValue::Array(vec![]));
}

#[test]
fn tools_call_for_no_parameter_tool_runs_it_and_reports_the_result() {
    let handler = handler_with_tools(vec![no_parameter_tool()]);
    let params = object(vec![("name", text("rustc-version")), ("arguments", object(vec![]))]);
    match handler.handle_request(request(Some(number(4)), "tools/call", Some(params))) {
        Some(HandlerAction::RunTool { id, call }) => {
            assert_eq!(id, number(4));
            assert_eq!(call.command, "rustc");
            assert_eq!(call.arguments, vec!["--version"]);
            assert_eq!(call.timeout_ms, 5000);
            assert_eq!(call.working_directory, None);
            let result = ExecutionResult {
                stdout: "rustc 1.80.0\n".to_string(),
                stderr: String::new(),
                exit_code: Some(0),
                duration_ms: 12,
                timed_out: false,
            };
            let response = McpHandler::complete_tool_call(id, Ok(result));
            assert_eq!(response.jsonrpc, "2.0");
            assert_eq!(response.id, Some(number(4)));
            assert!(response.error.is_none());
            let result = response.result.unwrap();
            assert_eq!(at(&result, &["isError"]), &JsonValue::Bool(false));
            let content = item(at(&result, &["content"]), 0);
            assert_eq!(at(content, &["type"]), &text("text"));
            assert_eq!(
                at(content, &["text"]),
                &text("exit_code: Some(0)\ntimed_out: false\nduration_ms: 12\n\nstdout:\nrustc 1.80.0\n")
            );
        }
        other => panic!("Expected the tool to be run, but got: {other:?}"),
    }
}

#[test]
fn tools_call_returns_invalid_params_when_params_missing() {
    let handler = handler_with_tools(vec![no_parameter_tool()]);
    let response = respond(handler.handle_request(request(Some(number(5)), "tools/call", None)));

    assert!(response.result.is_none());
    let error = response.error.expect("Expected tools/call without params to return error");
    assert_eq!(error.code, -32602);
    assert!(error.message.contains("requires params"));
}

#[test]
fn tools_call_returns_invalid_params_when_name_missing() {
    let handler = handler_with_tools(vec![no_parameter_tool()]);
    let params = object(vec![("arguments", object(vec![]))]);
    let response = respond(handler.handle_request(request(Some(number(6)), "tools/call", Some(params))));

    assert!(response.result.is_none());
    let error = response.error.expect("Expected tools/call without name to return error");
    assert_eq!(error.code, -32602);
    assert!(error.message.contains("name"));
}

#[test]
fn tools_call_returns_execution_error_for_unknown_tool() {
    let handler = handler_with_tools(vec![no_parameter_tool()]);
    let params = object(vec![("name", text("missing-tool")), ("arguments", object(vec![]))]);
    let response = respond(handler.handle_request(request(Some(number(7)), "tools/call", Some(params))));

    assert!(response.result.is_none());
    let error = response.error.expect("Expected unknown tool call to return error");
    assert_eq!(error.code, -32603);
    assert!(error.message.contains("missing-tool"));
}

#[test]
fn tools_call_returns_execution_error_for_missing_required_parameter() {
    let handler = handler_with_tools(vec![echo_like_required_parameter_tool()]);
    let params = object(vec![("name", text("echo-like")), ("arguments", object(vec![]))]);
    let response = respond(handler.handle_request(request(Some(number(8)), "tools/call", Some(params))));

    assert!(response.result.is_none());
    let error = response.error.expect("Expected missing required parameter to return error");
    assert_eq!(error.code, -32603);
    assert!(error.message.contains("Missing required parameter"));
}

#[test]
fn returns_method_not_found_for_unknown_method() {
    let handler = handler_with_tools(vec![]);
    let response = respond(handler.handle_request(request(Some(number(99)), "unknown/method", None)));

    assert_eq!(response.jsonrpc, "2.0");
    assert_eq!(response.id, Some(number(99)));
    assert!(response.result.is_none());
    let error = response.error.expect("Expected unknown method response to contain error");
    assert_eq!(error.code, -32601);
    assert!(error.message.contains("unknown/method"));
}

#[test]
fn ignores_notification_without_id() {
    let handler = handler_with_tools(vec![]);
    if let Some(action) = handler.handle_request(request(None, "notifications/initialized", None)) {
        panic!("Expected notification to be ignored, but got: {action:?}");
    }
    assert!(handler.handle_request(request(None, "initialize", None)).is_none());
}

#[test]
fn handles_resources_list() {
    let handler = handler_with_tools(vec![]);
    let response = respond(handler.handle_request(request(Some(number(9)), "resources/list", None)));

    assert_eq!(response.id, Some(number(9)));
    assert!(response.error.is_none());
    let result = response.result.unwrap();
    let resource = item(at(&result, &["resources"]), 0);
    assert_eq!(at(resource, &["uri"]), &text("mercurius-p://tools/config"));
    assert_eq!(at(resource, &["mimeType"]), &text("application/json"));
}

#[test]
fn handles_resources_read_for_tools_config() {
    let handler = handler_with_tools(vec![]);
    assert_eq!(handler.config_path(), "tools.json");
    let params = object(vec![("uri", text("mercurius-p://tools/config"))]);
    match handler.handle_request(request(Some(number(10)), "resources/read", Some(params))) {
        Some(HandlerAction::ReadConfig { id }) => {
            let contents = "[{\"name\": \"echo\"}]".to_string();
            let response = McpHandler::complete_config_read(id, Ok(contents));
            assert_eq!(response.id, Some(number(10)));
            assert!(response.error.is_none());
            let result = response.result.unwrap();
            let content = item(at(&result, &["contents"]), 0);
            assert_eq!(at(content, &["uri"]), &text("mercurius-p://tools/config"));
            assert_eq!(at(content, &["mimeType"]), &text("application/json"));
            match at(content, &["text"]) {
                JsonValue::String(t) => assert!(t.contains("echo")),
                other => panic!("Expected resource text to be a string, but got: {other:?}"),
            }
        }
        other => panic!("Expected the configuration to be read, but got: {other:?}"),
    }
}

#[test]
fn resources_read_reports_a_failed_read() {
    let response = McpHandler::complete_config_read(number(13), Err("No such file".to_string()));
    assert!(response.result.is_none());
    let error = response.error.unwrap();
    assert_eq!(error.code, -32603);
    assert_eq!(error.message, "Failed to read tool configuration resource: No such file");
}

#[test]
fn resources_read_returns_invalid_params_when_uri_missing() {
    let handler = handler_with_tools(vec![]);
    let response = respond(handler.handle_request(request(Some(number(11)), "resources/read", Some(object(vec![])))));

    let error = response.error.expect("Expected missing resource URI to return error");
    assert_eq!(error.code, -32602);
    assert!(error.message.contains("uri"));
}

#[test]
fn resources_read_returns_invalid_params_for_unknown_uri() {
    let handler = handler_with_tools(vec![]);
    let params = object(vec![("uri", text("mercurius-p://unknown"))]);
    let response = respond(handler.handle_request(request(Some(number(12)), "resources/read", Some(params))));

    let error = response.error.expect("Expected unknown resource URI to return error");
    assert_eq!(error.code, -32602);
    assert!(error.message.contains("Unknown resource URI"));
}

#[test]
fn tools_call_converts_arguments_to_text() {
    let handler = handler_with_tools(vec![echo_tool()]);
    let params = object(vec![
        ("name", text("echo")),
        ("arguments", object(vec![("message", JsonValue::Number(JsonNumber::NegInt(-3)))])),
    ]);
    match handler.handle_request(request(Some(number(14)), "tools/call", Some(params))) {
        Some(HandlerAction::RunTool { call, .. }) => assert_eq!(call.arguments, vec!["-3"]),
        other => panic!("Expected the tool to be run, but got: {other:?}"),
    }

    let params = object(vec![
        ("name", text("echo")),
        ("arguments", object(vec![("message", JsonValue::Bool(true))])),
    ]);
    match handler.handle_request(request(Some(number(15)), "tools/call", Some(params))) {
        Some(HandlerAction::RunTool { call, .. }) => assert_eq!(call.arguments, vec!["true"]),
        other => panic!("Expected the tool to be run, but got: {other:?}"),
    }
}

#[test]
fn tools_call_rejects_arguments_that_are_not_scalars() {
    let handler = handler_with_tools(vec![echo_tool()]);
    let params = object(vec![
        ("name", text("echo")),
        ("arguments", object(vec![("message", JsonValue::Null)])),
    ]);
    let error = respond(handler.handle_request(request(Some(number(16)), "tools/call", Some(params))))
        .error
        .unwrap();
    assert_eq!(error.code, -32602);
    assert_eq!(error.message, "Argument 'message' cannot be null");

    let params = object(vec![
        ("name", text("echo")),
        ("arguments", object(vec![("message", JsonValue::Array(vec![]))])),
    ]);
    let error = respond(handler.handle_request(request(Some(number(17)), "tools/call", Some(params))))
        .error
        .unwrap();
    assert_eq!(error.message, "Argument 'message' must be a string, number, or boolean");

    let params = object(vec![("name", text("echo")), ("arguments", text("x"))]);
    let error = respond(handler.handle_request(request(Some(number(18)), "tools/call", Some(params))))
        .error
        .unwrap();
    assert_eq!(error.message, "tools/call param 'arguments' must be an object");

    let params = object(vec![("name", text("  "))]);
    let error = respond(handler.handle_request(request(Some(number(19)), "tools/call", Some(params))))
        .error
        .unwrap();
    assert_eq!(error.message, "tools/call param 'name' must be a non-empty string");
}

#[test]
fn failed_or_timed_out_runs_are_errors() {
    let failed = ExecutionResult {
        stdout: "  \n".to_string(),
        stderr: "boom".to_string(),
        exit_code: Some(-2),
        duration_ms: 7,
        timed_out: false,
    };
    let response = McpHandler::complete_tool_call(number(20), Ok(failed));
    let result = response.result.unwrap();
    assert_eq!(at(&result, &["isError"]), &JsonValue::Bool(true));
    let content = item(at(&result, &["content"]), 0);
    assert_eq!(
        at(content, &["text"]),
        &text("exit_code: Some(-2)\ntimed_out: false\nduration_ms: 7\n\nstderr:\nboom")
    );

    let timed_out = ExecutionResult {
        stdout: String::new(),
        stderr: String::new(),
        exit_code: None,
        duration_ms: 100,
        timed_out: true,
    };
    let result = McpHandler::complete_tool_call(number(21), Ok(timed_out)).result.unwrap();
    assert_eq!(at(&result, &["isError"]), &JsonValue::Bool(true));
    let content = item(at(&result, &["content"]), 0);
    assert_eq!(at(content, &["text"]), &text("exit_code: None\ntimed_out: true\nduration_ms: 100\n"));

    let response = McpHandler::complete_tool_call(number(22), Err("Failed to start process 'x'".to_string()));
    let error = response.error.unwrap();
    assert_eq!(error.code, -32603);
    assert_eq!(error.message, "Failed to start process 'x'");
}

#[test]
fn tools_call_refuses_arguments_the_tool_does_not_declare() {
    let handler = handler_with_tools(vec![echo_tool()]);
    let params = object(vec![
        ("name", text("echo")),
        ("arguments", object(vec![("message", text("hi")), ("loud", text("yes"))])),
    ]);
    let response = respond(handler.handle_request(request(Some(number(16)), "tools/call", Some(params))));
    let error = response.error.expect("Expected an undeclared argument to be refused");
    assert_eq!(error.code, -32603);
    assert_eq!(error.message, "Unknown parameter: loud");
}

#[test]
fn parse_tools_call_params_reads_name_and_arguments() {
    let parsed = mercurius_p::mcp::handler::parse_tools_call_params(Some(object(vec![
        ("name", text(" echo ")),
        ("arguments", object(vec![("count", number(3)), ("flag", JsonValue::Bool(false))])),
    ])))
    .unwrap();
    assert_eq!(parsed.name, " echo ");
    assert_eq!(parsed.arguments.get("count").map(|s| s.as_str()), Some("3"));
    assert_eq!(parsed.arguments.get("flag").map(|s| s.as_str()), Some("false"));
    let parsed =
        mercurius_p::mcp::handler::parse_tools_call_params(Some(object(vec![("name", text("echo"))])))
            .unwrap();
    assert!(parsed.arguments.is_empty());
    assert_eq!(
        mercurius_p::mcp::handler::parse_tools_call_params(None).unwrap_err(),
        "tools/call requires params"
    );
    assert_eq!(
        mercurius_p::mcp::handler::parse_tools_call_params(Some(object(vec![("name", text("  "))])))
            .unwrap_err(),
        "tools/call param 'name' must be a non-empty string"
    );
}

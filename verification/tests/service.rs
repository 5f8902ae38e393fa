use mercurius_p::json::{JsonNumber, JsonValue};
use mercurius_p::model::{ParameterType, ToolDefinition, ToolParameter};
use mercurius_p::parameters::ParameterMap;
use mercurius_p::registry::ToolRegistry;
use mercurius_p::service::ToolExecutionService;

fn tool_with_required_parameter() -> ToolDefinition {
    ToolDefinition {
        name: "rustc-version-with-param".to_string(),
        description: "Print rustc version with an unused parameter".to_string(),
        command: "rustc".to_string(),
        arguments: vec!["--version".to_string()],
        parameters: vec![ToolParameter {
            name: "message".to_string(),
            parameter_type: ParameterType::String,
            required: true,
            default: None,
            allowed_values: None,
        }],
        timeout_ms: Some(5000),
        read_only: false,
        category: None,
        working_directory: None,
    }
}

fn rustc_version_tool() -> ToolDefinition {
    ToolDefinition {
        name: "rustc-version".to_string(),
        description: "Print rustc version".to_string(),
        command: "rustc".to_string(),
        arguments: vec!["--version".to_string()],
        parameters: vec![],
        timeout_ms: None,
        read_only: false,
        category: None,
        working_directory: None,
    }
}

#[test]
fn prepares_known_tool() {
    let service = ToolExecutionService::new(ToolRegistry::new(vec![rustc_version_tool()]));
    let call = service.prepare_call("rustc-version", &ParameterMap::new()).unwrap();
    assert_eq!(call.command, "rustc");
    assert_eq!(call.arguments, vec!["--version"]);
    assert_eq!(call.timeout_ms, 5000);
    assert_eq!(call.working_directory, None);
    assert_eq!(service.registry().len(), 1);
}

#[test]
fn returns_error_for_unknown_tool() {
    let service = ToolExecutionService::new(ToolRegistry::new(vec![rustc_version_tool()]));
    let error = service.prepare_call("missing-tool", &ParameterMap::new()).unwrap_err();
    assert!(error.contains("missing-tool"));
}

#[test]
fn service_returns_error_for_missing_required_parameter() {
    let service = ToolExecutionService::new(ToolRegistry::new(vec![tool_with_required_parameter()]));
    let error = service
        .prepare_call("rustc-version-with-param", &ParameterMap::new())
        .unwrap_err();
    assert!(error.contains("Missing required parameter"));
    assert!(error.contains("message"));
    assert_eq!(
        error,
        "Missing required parameter 'message' for tool 'rustc-version-with-param'"
    );
}

#[test]
fn prepares_tool_when_required_parameter_is_present() {
    let service = ToolExecutionService::new(ToolRegistry::new(vec![tool_with_required_parameter()]));
    let mut parameters = ParameterMap::new();
    parameters.insert("message".to_string(), "hello".to_string());
    let call = service.prepare_call("rustc-version-with-param", &parameters).unwrap();
    assert_eq!(call.command, "rustc");
    assert_eq!(call.timeout_ms, 5000);
}

#[test]
fn working_directory_gets_its_placeholders_filled() {
    let tool = ToolDefinition {
        name: "git-status".to_string(),
        description: "Show git status".to_string(),
        command: "git".to_string(),
        arguments: vec!["status".to_string(), "--short".to_string()],
        parameters: vec![ToolParameter {
            name: "path".to_string(),
            parameter_type: ParameterType::Path,
            required: true,
            default: None,
            allowed_values: None,
        }],
        timeout_ms: Some(2500),
        read_only: true,
        category: Some("git".to_string()),
        working_directory: Some("{path}".to_string()),
    };
    let service = ToolExecutionService::new(ToolRegistry::new(vec![tool]));
    let mut parameters = ParameterMap::new();
    parameters.insert("path".to_string(), "/home/user/repo".to_string());
    let call = service.prepare_call("git-status", &parameters).unwrap();
    assert_eq!(call.working_directory, Some("/home/user/repo".to_string()));
    assert_eq!(call.timeout_ms, 2500);

    let mut blank = ParameterMap::new();
    blank.insert("path".to_string(), " ".to_string());
    assert_eq!(
        service.prepare_call("git-status", &blank).unwrap_err(),
        "Required parameter 'path' for tool 'git-status' cannot be blank"
    );
}

#[test]
fn prepare_call_applies_the_tool_checks() {
    let tool = ToolDefinition {
        name: "head".to_string(),
        description: "Show the first lines of a file".to_string(),
        command: "head".to_string(),
        arguments: vec!["-n".to_string(), "{lines}".to_string(), "{file}".to_string()],
        parameters: vec![
            ToolParameter {
                name: "file".to_string(),
                parameter_type: ParameterType::Path,
                required: true,
                default: None,
                allowed_values: None,
            },
            ToolParameter {
                name: "lines".to_string(),
                parameter_type: ParameterType::Integer,
                required: false,
                default: Some(JsonValue::Number(JsonNumber::PosInt(10))),
                allowed_values: None,
            },
        ],
        timeout_ms: None,
        read_only: true,
        category: None,
        working_directory: None,
    };
    let service = ToolExecutionService::new(ToolRegistry::new(vec![tool]));

    let mut parameters = ParameterMap::new();
    parameters.insert("file".to_string(), "/home/user/notes.txt".to_string());
    let call = service.prepare_call("head", &parameters).unwrap();
    assert_eq!(call.arguments, vec!["-n", "10", "/home/user/notes.txt"]);

    parameters.insert("lines".to_string(), "3".to_string());
    let call = service.prepare_call("head", &parameters).unwrap();
    assert_eq!(call.arguments, vec!["-n", "3", "/home/user/notes.txt"]);

    parameters.insert("lines".to_string(), "many".to_string());
    assert_eq!(
        service.prepare_call("head", &parameters).unwrap_err(),
        "Parameter 'lines' must be of type integer"
    );

    let mut blocked = ParameterMap::new();
    blocked.insert("file".to_string(), "/etc/shadow".to_string());
    assert_eq!(
        service.prepare_call("head", &blocked).unwrap_err(),
        "Path is not allowed: /etc/shadow"
    );

    let mut extra = ParameterMap::new();
    extra.insert("file".to_string(), "/home/user/notes.txt".to_string());
    extra.insert("verbose".to_string(), "true".to_string());
    assert_eq!(
        service.prepare_call("head", &extra).unwrap_err(),
        "Unknown parameter: verbose"
    );
}

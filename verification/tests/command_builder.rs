use mercurius_p::command_builder::{build_command, replace_placeholders};
use mercurius_p::model::{ParameterType, ToolDefinition, ToolParameter};
use mercurius_p::parameters::ParameterMap;

fn valid_tool() -> ToolDefinition {
    ToolDefinition {
        name: "echo".to_string(),
        description: "Echo a message".to_string(),
        command: "echo".to_string(),
        arguments: vec!["{message}".to_string()],
        parameters: vec![ToolParameter {
            name: "message".to_string(),
            parameter_type: ParameterType::String,
            required: true,
            default: None,
            allowed_values: None,
        }],
        timeout_ms: Some(5000),
        read_only: false,
        category: None,
        working_directory: None,
    }
}

#[test]
fn builds_command_with_replaced_placeholder() {
    let tool = valid_tool();
    let mut parameters = ParameterMap::new();
    parameters.insert("message".to_string(), "hello".to_string());

    match build_command(&tool, &parameters) {
        Ok(command) => {
            assert_eq!(command.command, "echo");
            assert_eq!(command.arguments, vec!["hello"]);
        }
        Err(error) => {
            panic!("Expected command to build successfully, but got: {error}");
        }
    }
}

#[test]
fn preserves_literal_arguments() {
    let mut tool = valid_tool();
    tool.arguments = vec!["status".to_string(), "--short".to_string()];
    tool.parameters = vec![];

    let parameters = ParameterMap::new();

    match build_command(&tool, &parameters) {
        Ok(command) => {
            assert_eq!(command.command, "echo");
            assert_eq!(command.arguments, vec!["status", "--short"]);
        }
        Err(error) => {
            panic!("Expected literal arguments to be preserved, but got: {error}");
        }
    }
}

#[test]
fn replaces_multiple_placeholders_in_one_argument() {
    let mut tool = valid_tool();
    tool.arguments = vec!["Hello, {name}! Message: {message}".to_string()];
    tool.parameters = vec![
        ToolParameter {
            name: "name".to_string(),
            parameter_type: ParameterType::String,
            required: true,
            default: None,
            allowed_values: None,
        },
        ToolParameter {
            name: "message".to_string(),
            parameter_type: ParameterType::String,
            required: true,
            default: None,
            allowed_values: None,
        },
    ];

    let mut parameters = ParameterMap::new();
    parameters.insert("name".to_string(), "Jasper".to_string());
    parameters.insert("message".to_string(), "welcome".to_string());

    match build_command(&tool, &parameters) {
        Ok(command) => {
            assert_eq!(command.arguments, vec!["Hello, Jasper! Message: welcome"]);
        }
        Err(error) => {
            panic!("Expected multiple placeholders to be replaced, but got: {error}");
        }
    }
}

#[test]
fn command_builder_returns_error_for_missing_required_parameter() {
    let tool = valid_tool();
    let parameters = ParameterMap::new();

    match build_command(&tool, &parameters) {
        Ok(command) => {
            panic!("Expected missing required parameter to fail, but got: {command:?}");
        }
        Err(error) => {
            assert!(error.contains("Missing required parameter"));
            assert!(error.contains("message"));
        }
    }
}

#[test]
fn returns_error_for_blank_required_parameter() {
    let tool = valid_tool();
    let mut parameters = ParameterMap::new();
    parameters.insert("message".to_string(), "   ".to_string());

    match build_command(&tool, &parameters) {
        Ok(command) => {
            panic!("Expected blank required parameter to fail, but got: {command:?}");
        }
        Err(error) => {
            assert!(error.contains("cannot be blank"));
            assert!(error.contains("message"));
        }
    }
}

#[test]
fn allows_missing_optional_parameter() {
    let mut tool = valid_tool();
    tool.arguments = vec!["hello".to_string()];
    tool.parameters = vec![ToolParameter {
        name: "message".to_string(),
        parameter_type: ParameterType::String,
        required: false,
        default: None,
        allowed_values: None,
    }];

    let parameters = ParameterMap::new();

    match build_command(&tool, &parameters) {
        Ok(command) => {
            assert_eq!(command.arguments, vec!["hello"]);
        }
        Err(error) => {
            panic!("Expected missing optional parameter to be allowed, but got: {error}");
        }
    }
}

#[test]
fn leaves_unknown_placeholder_unchanged() {
    let mut tool = valid_tool();
    tool.arguments = vec!["{unknown}".to_string()];
    tool.parameters = vec![];

    let parameters = ParameterMap::new();

    match build_command(&tool, &parameters) {
        Ok(command) => {
            assert_eq!(command.arguments, vec!["{unknown}"]);
        }
        Err(error) => {
            panic!("Expected unknown placeholder to remain unchanged, but got: {error}");
        }
    }
}

#[test]
fn filling_placeholders_distributes_over_joined_texts() {
    let mut parameters = ParameterMap::new();
    parameters.insert("a".to_string(), "x".to_string());
    parameters.insert("b".to_string(), "y".to_string());
    let left = "{a}-{zz}-";
    let right = "{b}}{";
    let joined = format!("{left}{right}");
    assert_eq!(
        replace_placeholders(&joined, &parameters),
        format!(
            "{}{}",
            replace_placeholders(left, &parameters),
            replace_placeholders(right, &parameters)
        )
    );
    assert_eq!(replace_placeholders(&joined, &parameters), "x-{zz}-y}{");
}

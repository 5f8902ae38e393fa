use mercurius_p::config::validate_tools;
use mercurius_p::model::{ParameterType, ToolDefinition, ToolParameter};

fn valid_tool(name: &str) -> ToolDefinition {
    ToolDefinition {
        name: name.to_string(),
        description: "A valid tool".to_string(),
        command: "echo".to_string(),
        arguments: vec!["{message}".to_string()],
        parameters: vec![ToolParameter {
            name: "message".to_string(),
            parameter_type: ParameterType::String,
            required: true,
            default: None,
            allowed_values: None,
        }],
        timeout_ms: Some(5000),
        read_only: false,
        category: None,
        working_directory: None,
    }
}

#[test]
fn accepts_valid_tools() {
    let tools = vec![valid_tool("echo")];

    match validate_tools(&tools) {
        Ok(()) => {}
        Err(error) => panic!("Expected valid tools to pass validation, but got: {error}"),
    }
}

#[test]
fn rejects_empty_tool_name() {
    let tools = vec![valid_tool("")];

    match validate_tools(&tools) {
        Ok(()) => panic!("Expected empty tool name to fail validation"),
        Err(error) => assert!(error.contains("name")),
    }
}

#[test]
fn rejects_duplicate_tool_names() {
    let tools = vec![valid_tool("echo"), valid_tool("ECHO")];

    match validate_tools(&tools) {
        Ok(()) => panic!("Expected duplicate tool names to fail validation"),
        Err(error) => assert!(error.contains("Duplicate tool name")),
    }
}

#[test]
fn rejects_empty_description() {
    let mut tool = valid_tool("echo");
    tool.description = " ".to_string();

    match validate_tools(&[tool]) {
        Ok(()) => panic!("Expected empty description to fail validation"),
        Err(error) => assert!(error.contains("description")),
    }
}

#[test]
fn rejects_empty_command() {
    let mut tool = valid_tool("echo");
    tool.command = " ".to_string();

    match validate_tools(&[tool]) {
        Ok(()) => panic!("Expected empty command to fail validation"),
        Err(error) => assert!(error.contains("command")),
    }
}

#[test]
fn rejects_zero_timeout() {
    let mut tool = valid_tool("echo");
    tool.timeout_ms = Some(0);

    match validate_tools(&[tool]) {
        Ok(()) => panic!("Expected zero timeout to fail validation"),
        Err(error) => assert!(error.contains("timeout")),
    }
}

#[test]
fn allows_empty_arguments() {
    let mut tool = valid_tool("echo");
    tool.arguments = vec![];

    match validate_tools(&[tool]) {
        Ok(()) => {}
        Err(error) => panic!("Expected empty arguments to be allowed, but got: {error}"),
    }
}

#[test]
fn allows_empty_parameters() {
    let mut tool = valid_tool("git-status");
    tool.parameters = vec![];

    match validate_tools(&[tool]) {
        Ok(()) => {}
        Err(error) => panic!("Expected empty parameters to be allowed, but got: {error}"),
    }
}

#[test]
fn rejects_empty_parameter_name() {
    let mut tool = valid_tool("echo");
    tool.parameters[0].name = " ".to_string();

    match validate_tools(&[tool]) {
        Ok(()) => panic!("Expected empty parameter name to fail validation"),
        Err(error) => assert!(error.contains("parameter")),
    }
}

#[test]
fn rejects_duplicate_parameter_names() {
    let mut tool = valid_tool("echo");
    tool.parameters.push(ToolParameter {
        name: "MESSAGE".to_string(),
        parameter_type: ParameterType::String,
        required: false,
        default: None,
        allowed_values: None,
    });

    match validate_tools(&[tool]) {
        Ok(()) => panic!("Expected duplicate parameter names to fail validation"),
        Err(error) => assert!(error.contains("duplicate parameter")),
    }
}

#[test]
fn validation_messages_are_exact() {
    let mut nameless = valid_tool("  ");
    nameless.description = " ".to_string();
    assert_eq!(validate_tools(&[nameless]), Err("Tool name cannot be empty".to_string()));

    let mut tool = valid_tool("echo");
    tool.description = "\t".to_string();
    assert_eq!(
        validate_tools(&[tool]),
        Err("Tool 'echo' must have a description".to_string())
    );

    let mut tool = valid_tool("echo");
    tool.command = "\n".to_string();
    assert_eq!(validate_tools(&[tool]), Err("Tool 'echo' must have a command".to_string()));

    let mut tool = valid_tool("echo");
    tool.timeout_ms = Some(0);
    assert_eq!(
        validate_tools(&[tool]),
        Err("Tool 'echo' must have a timeout greater than 0".to_string())
    );

    let mut tool = valid_tool("echo");
    tool.parameters[0].name = "\u{3000}".to_string();
    assert_eq!(
        validate_tools(&[tool]),
        Err("Tool 'echo' has a parameter with an empty name".to_string())
    );

    let mut tool = valid_tool("echo");
    tool.parameters.push(ToolParameter {
        name: "Message".to_string(),
        parameter_type: ParameterType::Enum,
        required: false,
        default: None,
        allowed_values: None,
    });
    assert_eq!(
        validate_tools(&[tool]),
        Err("Tool 'echo' has duplicate parameter name: Message".to_string())
    );

    assert_eq!(
        validate_tools(&[valid_tool("Echo"), valid_tool("other"), valid_tool("ECHO")]),
        Err("Duplicate tool name: ECHO".to_string())
    );
}

#[test]
fn missing_timeout_is_accepted() {
    let mut tool = valid_tool("echo");
    tool.timeout_ms = None;
    assert_eq!(validate_tools(&[tool]), Ok(()));
}

#[test]
fn first_failing_tool_decides_the_message() {
    let mut broken = valid_tool("second");
    broken.command = String::new();
    let mut also_broken = valid_tool("third");
    also_broken.description = String::new();
    assert_eq!(
        validate_tools(&[valid_tool("first"), broken, also_broken]),
        Err("Tool 'second' must have a command".to_string())
    );
}

#[test]
fn empty_configuration_is_valid() {
    assert_eq!(validate_tools(&[]), Ok(()));
}

#[test]
fn valid_configuration_stays_valid_when_tools_are_removed_or_reordered() {
    let tools = vec![valid_tool("a"), valid_tool("b"), valid_tool("c")];
    assert!(validate_tools(&tools).is_ok());
    let reordered = vec![valid_tool("c"), valid_tool("a"), valid_tool("b")];
    assert!(validate_tools(&reordered).is_ok());
    let kept = vec![valid_tool("b")];
    assert!(validate_tools(&kept).is_ok());
}

#[test]
fn tool_arguments_do_not_affect_validation() {
    let mut tool = valid_tool("a");
    tool.arguments = vec!["{unknown}".to_string(), "".to_string(), "{".to_string()];
    assert!(validate_tools(&[tool]).is_ok());
}

#[test]
fn validate_tool_checks_in_order() {
    let mut tool = valid_tool("a");
    assert!(mercurius_p::config::validator::validate_tool(&tool).is_ok());
    tool.name = " ".to_string();
    tool.description = "".to_string();
    assert_eq!(
        mercurius_p::config::validator::validate_tool(&tool).unwrap_err(),
        "Tool name cannot be empty"
    );
}

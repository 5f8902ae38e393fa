use mercurius_p::model::ToolDefinition;
use mercurius_p::registry::ToolRegistry;

fn tool(name: &str, description: &str) -> ToolDefinition {
    ToolDefinition {
        name: name.to_string(),
        description: description.to_string(),
        command: "echo".to_string(),
        arguments: vec![],
        parameters: vec![],
        timeout_ms: None,
        read_only: false,
        category: None,
        working_directory: None,
    }
}

#[test]
fn finds_each_configured_tool_by_name() {
    let registry = ToolRegistry::new(vec![tool("a", "first"), tool("b", "second")]);
    assert_eq!(registry.len(), 2);
    assert!(!registry.is_empty());
    assert_eq!(registry.find_tool("a").unwrap().description, "first");
    assert_eq!(registry.find_tool("b").unwrap().description, "second");
}

#[test]
fn last_definition_of_a_name_wins() {
    let registry = ToolRegistry::new(vec![tool("a", "first"), tool("b", "x"), tool("a", "again")]);
    assert_eq!(registry.len(), 2);
    assert_eq!(registry.find_tool("a").unwrap().description, "again");
    let listed: Vec<&str> = registry.list_tools().iter().map(|t| t.name.as_str()).collect();
    assert_eq!(listed, vec!["a", "b"]);
}

#[test]
fn unknown_tool_is_reported_by_name() {
    let registry = ToolRegistry::new(vec![tool("a", "first")]);
    assert_eq!(
        registry.find_tool("missing-tool").unwrap_err(),
        "Tool 'missing-tool' was not found"
    );
    assert!(registry.find_tool("A").is_err());
}

#[test]
fn empty_registry() {
    let registry = ToolRegistry::new(vec![]);
    assert_eq!(registry.len(), 0);
    assert!(registry.is_empty());
    assert!(registry.list_tools().is_empty());
}

#[test]
fn registry_holds_one_tool_per_distinct_name() {
    let registry = ToolRegistry::new(vec![
        tool("a", "1"),
        tool("b", "2"),
        tool("a", "3"),
        tool("c", "4"),
        tool("b", "5"),
    ]);
    assert_eq!(registry.len(), 3);
    assert_eq!(registry.list_tools().len(), 3);
    assert!(!registry.is_empty());
    assert!(ToolRegistry::new(vec![]).is_empty());
    assert!(!ToolRegistry::new(vec![tool("a", "1"), tool("a", "2")]).is_empty());
}

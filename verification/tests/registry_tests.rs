use masday_mcp::registry::{ToolDefinition, ToolRegistry};
use serde_json::Value;

fn schema() -> Value {
    serde_json::from_str(r#"{"type": "object", "properties": {}}"#).unwrap()
}

fn definition(name: &str, description: &str) -> ToolDefinition {
    ToolDefinition { name: name.to_string(), description: description.to_string(), input_schema: schema() }
}

fn dummy_handler(args: Value) -> Value {
    args
}

#[test]
fn test_registry_new() {
    let registry: ToolRegistry<fn(Value) -> Value> = ToolRegistry::new();
    assert_eq!(registry.count(), 0);
}

#[test]
fn test_registry_register() {
    let mut registry: ToolRegistry<fn(Value) -> Value> = ToolRegistry::new();
    registry.register(definition("test_tool", "A test tool"), dummy_handler);
    assert_eq!(registry.count(), 1);
    assert!(registry.has_tool("test_tool"));
}

#[test]
fn test_registry_list_tools() {
    let mut registry: ToolRegistry<fn(Value) -> Value> = ToolRegistry::new();
    registry.register(definition("test_tool", "A test tool"), dummy_handler);
    let tools = registry.list_tools();
    assert_eq!(tools.len(), 1);
    assert_eq!(tools[0].name, "test_tool");
}

#[test]
fn test_registry_call_tool() {
    let mut registry: ToolRegistry<fn(Value) -> Value> = ToolRegistry::new();
    registry.register(definition("test_tool", "A test tool"), dummy_handler);
    let args: Value = serde_json::from_str(r#"{"test": "value"}"#).unwrap();
    let handler = registry.handler_for("test_tool").unwrap();
    let result = (*handler)(args.clone());
    assert_eq!(result, args);
}

#[test]
fn test_registry_call_tool_not_found() {
    let registry: ToolRegistry<fn(Value) -> Value> = ToolRegistry::new();
    let result = registry.handler_for("nonexistent");
    assert!(result.is_err());
    assert_eq!(result.err().unwrap(), "Tool not found: nonexistent");
}

#[test]
fn tools_are_listed_by_name_and_replaced_by_name() {
    let mut registry: ToolRegistry<u32> = ToolRegistry::new();
    registry.register(definition("zeta", "z"), 1);
    registry.register(definition("alpha", "a"), 2);
    registry.register(definition("Mid", "m"), 3);
    registry.register(definition("alpha", "a2"), 4);
    assert_eq!(registry.count(), 3);
    let names: Vec<String> = registry.list_tools().into_iter().map(|d| d.name).collect();
    assert_eq!(names, vec!["Mid", "alpha", "zeta"]);
    let descriptions: Vec<String> = registry.list_tools().into_iter().map(|d| d.description).collect();
    assert_eq!(descriptions, vec!["m", "a2", "z"]);
    assert_eq!(*registry.handler_for("alpha").unwrap(), 4);
    assert_eq!(*registry.handler_for("zeta").unwrap(), 1);
    assert!(!registry.has_tool("beta"));
}

#[test]
fn listed_schema_is_carried_along() {
    let mut registry: ToolRegistry<()> = ToolRegistry::new();
    registry.register(definition("t", "d"), ());
    assert_eq!(registry.list_tools()[0].input_schema, schema());
}

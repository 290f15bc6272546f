use masday_mcp::handler::{
    method_not_found, parse_failure, server_info, tool_answer, tool_call_target, tool_failure,
    tool_success, McpHandler, Reply, ERROR_INVALID_PARAMS, ERROR_INVALID_REQUEST,
    ERROR_METHOD_NOT_FOUND,
};
use masday_mcp::registry::{ToolDefinition, ToolRegistry};

fn handler() -> McpHandler<()> {
    McpHandler::new(ToolRegistry::new())
}

#[test]
fn test_handle_initialize() {
    let mut h = handler();
    assert!(matches!(h.handle_method("initialize"), Reply::Initialize));
    let info = server_info();
    assert_eq!(info.protocol_version, "2024-11-05");
    assert_eq!(info.name, "masday-mcp");
    assert_eq!(info.version, "0.1.0");
    assert!(!info.tools_list_changed);
}

#[test]
fn test_handle_notification_returns_none() {
    let mut h = handler();
    assert!(!h.is_initialized());
    assert!(matches!(h.handle_method("notifications/initialized"), Reply::NoReply));
    assert!(h.is_initialized());
    assert!(matches!(h.handle_method("ping"), Reply::Pong));
    assert!(h.is_initialized());
}

#[test]
fn tool_methods_are_routed() {
    let mut h = handler();
    assert!(matches!(h.handle_method("tools/list"), Reply::ToolList));
    assert!(matches!(h.handle_method("tools/call"), Reply::CallTool));
    assert_eq!(h.registry().count(), 0);
}

#[test]
fn test_unknown_method() {
    let mut h = handler();
    match h.handle_method("nonexistent") {
        Reply::MethodNotFound(e) => {
            assert_eq!(e.code, ERROR_METHOD_NOT_FOUND);
            assert_eq!(e.code, -32601);
            assert_eq!(e.message, "Method not found: nonexistent");
        }
        _ => panic!("expected an error"),
    }
    assert!(!h.is_initialized());
    assert_eq!(method_not_found("x").message, "Method not found: x");
}

#[test]
fn tool_call_needs_params_and_a_name() {
    assert_eq!(tool_call_target(true, Some("echo")).unwrap(), "echo");
    let e = tool_call_target(false, None).unwrap_err();
    assert_eq!(e.code, ERROR_INVALID_PARAMS);
    assert_eq!(e.message, "Missing params");
    let e = tool_call_target(true, None).unwrap_err();
    assert_eq!(e.code, -32602);
    assert_eq!(e.message, "Missing tool name");
}

#[test]
fn tool_answers() {
    let ok = tool_success("{\"echo\":\"hello\"}".to_string());
    assert_eq!(ok.content.len(), 1);
    assert_eq!(ok.content[0].content_type, "text");
    assert_eq!(ok.content[0].text, "{\"echo\":\"hello\"}");
    assert_eq!(ok.is_error, None);
    let bad = tool_failure("Tool not found: x");
    assert_eq!(bad.content[0].text, "Error: Tool not found: x");
    assert_eq!(bad.is_error, Some(true));
    let a = tool_answer(Err("boom".to_string()));
    assert_eq!(a.content[0].text, "Error: boom");
    let a = tool_answer(Ok("1".to_string()));
    assert_eq!(a.content[0].text, "1");
}

#[test]
fn unparsable_request_is_invalid_request() {
    let e = parse_failure("expected value at line 1 column 1");
    assert_eq!(e.code, ERROR_INVALID_REQUEST);
    assert_eq!(e.message, "Failed to parse JSON-RPC request: expected value at line 1 column 1");
}

fn test_registry() -> ToolRegistry<&'static str> {
    let mut r = ToolRegistry::new();
    let schema: serde_json::Value =
        serde_json::from_str(r#"{"type":"object","properties":{"msg":{"type":"string"}},"required":["msg"]}"#).unwrap();
    r.register(
        ToolDefinition { name: "test_tool".to_string(), description: "A test tool".to_string(), input_schema: schema },
        "echo",
    );
    r
}

#[test]
fn test_handle_ping() {
    let mut h = McpHandler::new(test_registry());
    assert!(matches!(h.handle_method("ping"), Reply::Pong));
}

#[test]
fn test_handle_tools_list() {
    let mut h = McpHandler::new(test_registry());
    assert!(matches!(h.handle_method("tools/list"), Reply::ToolList));
    let tools = h.registry().list_tools();
    assert_eq!(tools.len(), 1);
    assert_eq!(tools[0].name, "test_tool");
    assert_eq!(tools[0].input_schema["required"][0], "msg");
}

#[test]
fn test_handle_tools_call() {
    let mut h = McpHandler::new(test_registry());
    assert!(matches!(h.handle_method("tools/call"), Reply::CallTool));
    let name = tool_call_target(true, Some("test_tool")).unwrap();
    assert_eq!(h.registry().handler_for(name).copied(), Ok("echo"));
    let answer = tool_answer(Ok("{\"echo\":\"hello\"}".to_string()));
    assert!(answer.content[0].text.contains("hello"));
}

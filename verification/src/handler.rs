//! The MCP JSON-RPC protocol decisions: which reply a method gets, what a
//! tool call is answered, and the errors of the protocol.
use vstd::prelude::*;
use crate::registry::ToolRegistry;
use crate::text::{concat_str, str_eq};

verus! {

/// JSON-RPC error code: the request could not be parsed.
pub const ERROR_INVALID_REQUEST: i64 = -32600;

/// JSON-RPC error code: no such method.
pub const ERROR_METHOD_NOT_FOUND: i64 = -32601;

/// JSON-RPC error code: the parameters are missing or wrong.
pub const ERROR_INVALID_PARAMS: i64 = -32602;

/// JSON-RPC error code: the server failed.
pub const ERROR_INTERNAL_ERROR: i64 = -32603;

/// A JSON-RPC error: its code and message.
#[derive(Debug)]
pub struct JsonError {
    pub code: i64,
    pub message: String,
}

/// One piece of content in a tool call's answer.
#[derive(Debug)]
pub struct ToolContent {
    pub content_type: String,
    pub text: String,
}

/// A tool call's answer: its content, and `Some(true)` when the tool failed.
#[derive(Debug)]
pub struct ToolResult {
    pub content: Vec<ToolContent>,
    pub is_error: Option<bool>,
}

/// What a request is answered, by method.
#[derive(Debug)]
pub enum Reply {
    /// `initialize`: the server's protocol version and identity.
    Initialize,
    /// `notifications/initialized`: a notification, which gets no answer.
    NoReply,
    /// `ping`: an empty result.
    Pong,
    /// `tools/list`: the registered tools.
    ToolList,
    /// `tools/call`: the answer of the named tool.
    CallTool,
    /// Any other method: a method-not-found error.
    MethodNotFound(JsonError),
}

/// The protocol version this server speaks.
pub open spec fn protocol_version() -> Seq<char> {
    "2024-11-05"@
}

/// The server's name and version in its `initialize` answer.
#[derive(Debug)]
pub struct ServerInfo {
    pub protocol_version: String,
    pub name: String,
    pub version: String,
    pub tools_list_changed: bool,
}

/// The `initialize` answer: protocol `2024-11-05`, server `masday-mcp`
/// version `0.1.0`, and a tool list that does not change.
pub fn server_info() -> (r: ServerInfo)
    ensures
        r.protocol_version@ == protocol_version(),
        r.name@ == "masday-mcp"@,
        r.version@ == "0.1.0"@,
        !r.tools_list_changed,
{
    ServerInfo {
        protocol_version: "2024-11-05".to_string(),
        name: "masday-mcp".to_string(),
        version: "0.1.0".to_string(),
        tools_list_changed: false,
    }
}

/// The error an unknown method gets: `Method not found: <method>`.
pub fn method_not_found(method: &str) -> (r: JsonError)
    ensures
        r.code == ERROR_METHOD_NOT_FOUND,
        r.message@ == "Method not found: "@ + method@,
{
    JsonError { code: ERROR_METHOD_NOT_FOUND, message: concat_str("Method not found: ", method) }
}

/// The error a request gets that is not valid JSON-RPC.
pub fn parse_failure(detail: &str) -> (r: JsonError)
    ensures
        r.code == ERROR_INVALID_REQUEST,
        r.message@ == "Failed to parse JSON-RPC request: "@ + detail@,
{
    JsonError {
        code: ERROR_INVALID_REQUEST,
        message: concat_str("Failed to parse JSON-RPC request: ", detail),
    }
}

/// The reply a method gets, as a spec: the five methods of the protocol, and
/// an error for any other.
pub open spec fn reply_kind(method: Seq<char>) -> int {
    if method == "initialize"@ {
        0
    } else if method == "notifications/initialized"@ {
        1
    } else if method == "ping"@ {
        2
    } else if method == "tools/list"@ {
        3
    } else if method == "tools/call"@ {
        4
    } else {
        5
    }
}

/// The five methods of the protocol each get their own reply, and every
/// other method gets the method-not-found error.
pub proof fn lemma_reply_kind_table(method: Seq<char>)
    ensures
        reply_kind("initialize"@) == 0,
        reply_kind("notifications/initialized"@) == 1,
        reply_kind("ping"@) == 2,
        reply_kind("tools/list"@) == 3,
        reply_kind("tools/call"@) == 4,
        reply_kind(method) == 5 <==> (method != "initialize"@ && method
            != "notifications/initialized"@ && method != "ping"@ && method != "tools/list"@
            && method != "tools/call"@),
{
    reveal_strlit("initialize");
    reveal_strlit("notifications/initialized");
    reveal_strlit("ping");
    reveal_strlit("tools/list");
    reveal_strlit("tools/call");
    assert("initialize"@.len() != "notifications/initialized"@.len());
    assert("ping"@.len() != "initialize"@.len());
    assert("ping"@.len() != "notifications/initialized"@.len());
    assert("tools/list"@[0] == 't' && "initialize"@[0] == 'i');
    assert("tools/list"@.len() != "notifications/initialized"@.len());
    assert("tools/list"@.len() != "ping"@.len());
    assert("tools/call"@[0] == 't');
    assert("tools/call"@.len() != "notifications/initialized"@.len());
    assert("tools/call"@.len() != "ping"@.len());
    assert("tools/call"@[6] == 'c');
    assert("tools/list"@[6] == 'l');
}

/// The transport-independent MCP handler: the tool registry, and whether the
/// client has announced that it is initialised.
pub struct McpHandler<H> {
    registry: ToolRegistry<H>,
    initialized: bool,
}

impl<H> McpHandler<H> {
    /// The registry this handler serves.
    pub closed spec fn tools(&self) -> ToolRegistry<H> {
        self.registry
    }

    /// Whether `notifications/initialized` has been received.
    pub closed spec fn spec_initialized(&self) -> bool {
        self.initialized
    }

    /// A handler over `registry`, not yet initialised.
    pub fn new(registry: ToolRegistry<H>) -> (r: McpHandler<H>)
        ensures
            r.tools() == registry,
            !r.spec_initialized(),
    {
        McpHandler { registry, initialized: false }
    }

    /// The registry this handler serves.
    pub fn registry(&self) -> (r: &ToolRegistry<H>)
        ensures
            *r == self.tools(),
    {
        &self.registry
    }

    /// Whether the client has announced that it is initialised.
    pub fn is_initialized(&self) -> (r: bool)
        ensures
            r == self.spec_initialized(),
    {
        self.initialized
    }

    /// Decides how a request of this method is answered. The notification
    /// `notifications/initialized` marks the session initialised and gets no
    /// answer; nothing else changes the handler.
    pub fn handle_method(&mut self, method: &str) -> (r: Reply)
        ensures
            final(self).tools() == old(self).tools(),
            final(self).spec_initialized() == (old(self).spec_initialized() || reply_kind(method@)
                == 1),
            reply_kind(method@) == 0 ==> r is Initialize,
            reply_kind(method@) == 1 ==> r is NoReply,
            reply_kind(method@) == 2 ==> r is Pong,
            reply_kind(method@) == 3 ==> r is ToolList,
            reply_kind(method@) == 4 ==> r is CallTool,
            reply_kind(method@) == 5 ==> (match r {
                Reply::MethodNotFound(e) => e.code == ERROR_METHOD_NOT_FOUND && e.message@
                    == "Method not found: "@ + method@,
                _ => false,
            }),
            method@ == "initialize"@ ==> r is Initialize,
            method@ == "notifications/initialized"@ ==> (r is NoReply)
                && final(self).spec_initialized(),
            method@ == "ping"@ ==> r is Pong,
            method@ == "tools/list"@ ==> r is ToolList,
            method@ == "tools/call"@ ==> r is CallTool,
            (r is MethodNotFound) <==> (method@ != "initialize"@ && method@
                != "notifications/initialized"@ && method@ != "ping"@ && method@ != "tools/list"@
                && method@ != "tools/call"@),
    {
        proof {
            lemma_reply_kind_table(method@);
            reveal_strlit("initialize");
            reveal_strlit("notifications/initialized");
            reveal_strlit("ping");
            reveal_strlit("tools/list");
            reveal_strlit("tools/call");
        }
        if str_eq(method, "initialize") {
            Reply::Initialize
        } else if str_eq(method, "notifications/initialized") {
            self.initialized = true;
            Reply::NoReply
        } else if str_eq(method, "ping") {
            Reply::Pong
        } else if str_eq(method, "tools/list") {
            Reply::ToolList
        } else if str_eq(method, "tools/call") {
            Reply::CallTool
        } else {
            Reply::MethodNotFound(method_not_found(method))
        }
    }
}

/// The tool a `tools/call` request names. Without parameters the request
/// gets `Missing params`; without a string `name` among them,
/// `Missing tool name`; both with the invalid-params code.
pub fn tool_call_target(has_params: bool, name: Option<&str>) -> (r: Result<&str, JsonError>)
    ensures
        match r {
            Ok(n) => has_params && name == Some(n),
            Err(e) => e.code == ERROR_INVALID_PARAMS && if !has_params {
                e.message@ == "Missing params"@
            } else {
                name is None && e.message@ == "Missing tool name"@
            },
        },
{
    if !has_params {
        return Err(JsonError { code: ERROR_INVALID_PARAMS, message: "Missing params".to_string() });
    }
    match name {
        Some(n) => Ok(n),
        None => Err(
            JsonError { code: ERROR_INVALID_PARAMS, message: "Missing tool name".to_string() },
        ),
    }
}

/// The answer of a tool that succeeded: its result as JSON text, in one
/// piece of text content.
pub fn tool_success(result_json: String) -> (r: ToolResult)
    ensures
        r.content@.len() == 1,
        r.content@[0].content_type@ == "text"@,
        r.content@[0].text@ == result_json@,
        r.is_error is None,
{
    let mut content: Vec<ToolContent> = Vec::new();
    content.push(ToolContent { content_type: "text".to_string(), text: result_json });
    ToolResult { content, is_error: None }
}

/// The answer of a tool that failed: `Error: <message>` as text content,
/// marked as an error.
pub fn tool_failure(message: &str) -> (r: ToolResult)
    ensures
        r.content@.len() == 1,
        r.content@[0].content_type@ == "text"@,
        r.content@[0].text@ == "Error: "@ + message@,
        r.is_error == Some(true),
{
    let mut content: Vec<ToolContent> = Vec::new();
    content.push(ToolContent { content_type: "text".to_string(), text: concat_str("Error: ", message) });
    ToolResult { content, is_error: Some(true) }
}

/// The answer of a tool call, success or failure.
pub fn tool_answer(outcome: Result<String, String>) -> (r: ToolResult)
    ensures
        r.content@.len() == 1,
        r.content@[0].content_type@ == "text"@,
        match outcome {
            Ok(text) => r.content@[0].text@ == text@ && r.is_error is None,
            Err(e) => r.content@[0].text@ == "Error: "@ + e@ && r.is_error == Some(true),
        },
{
    match outcome {
        Ok(text) => tool_success(text),
        Err(e) => tool_failure(e.as_str()),
    }
}

} // verus!

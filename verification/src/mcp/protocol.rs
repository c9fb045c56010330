//! JSON-RPC errors and the dispatch of requests to handlers.

use vstd::prelude::*;
use crate::text::{concat, same_chars};

verus! {

/// A JSON-RPC error.
pub struct McpError {
    pub code: i32,
    pub message: String,
}

impl McpError {
    /// The request was not valid JSON (code -32700).
    pub fn parse_error(msg: &str) -> (e: Self)
        ensures
            e.code == -32700,
            e.message@ == msg@,
    {
        McpError { code: -32700, message: msg.to_owned() }
    }

    /// No such method (code -32601).
    pub fn method_not_found(method: &str) -> (e: Self)
        ensures
            e.code == -32601,
            e.message@ == "Método não encontrado: "@ + method@,
    {
        McpError { code: -32601, message: concat("Método não encontrado: ", method) }
    }

    /// Invalid parameters (code -32602).
    pub fn invalid_params(msg: &str) -> (e: Self)
        ensures
            e.code == -32602,
            e.message@ == msg@,
    {
        McpError { code: -32602, message: msg.to_owned() }
    }
}

/// The handler a JSON-RPC method goes to.
#[derive(Debug, Clone, Copy, PartialEq, Eq, Structural)]
pub enum McpMethod {
    /// `initialize`: answer with the server's capabilities.
    Initialize,
    /// `notifications/initialized`: answer with an empty object.
    Initialized,
    /// `tools/list`: answer with the tools.
    ListTools,
    /// `tools/call`: run a tool.
    CallTool,
    /// Anything else: method not found.
    Unknown,
}

/// The handler for a method name.
pub open spec fn method_for(method: Seq<char>) -> McpMethod {
    if method == "initialize"@ {
        McpMethod::Initialize
    } else if method == "notifications/initialized"@ {
        McpMethod::Initialized
    } else if method == "tools/list"@ {
        McpMethod::ListTools
    } else if method == "tools/call"@ {
        McpMethod::CallTool
    } else {
        McpMethod::Unknown
    }
}

/// Chooses the handler for a JSON-RPC method.
pub fn route_method(method: &str) -> (r: McpMethod)
    ensures
        r == method_for(method@),
{
    if same_chars(method, "initialize") {
        McpMethod::Initialize
    } else if same_chars(method, "notifications/initialized") {
        McpMethod::Initialized
    } else if same_chars(method, "tools/list") {
        McpMethod::ListTools
    } else if same_chars(method, "tools/call") {
        McpMethod::CallTool
    } else {
        McpMethod::Unknown
    }
}

/// The protocol version the server speaks.
pub fn protocol_version() -> (r: &'static str)
    ensures
        r@ == "2024-11-05"@,
{
    "2024-11-05"
}

/// The name the server gives itself.
pub fn server_name() -> (r: &'static str)
    ensures
        r@ == "f1rma-mcp"@,
{
    "f1rma-mcp"
}

} // verus!

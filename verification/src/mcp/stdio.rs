use vstd::prelude::*;

use crate::mcp::handler::{answers, opt_data, HandlerAction, McpHandler};
use crate::mcp::json_rpc::{is_failure, JsonRpcRequest, JsonRpcResponse};
use crate::model::ToolDefinition;
use crate::text::{is_blank, is_blank_text};

verus! {

/// Serves MCP over lines of text: one JSON-RPC message per line.
#[derive(Debug)]
pub struct McpStdioServer {
    handler: McpHandler,
}

impl View for McpStdioServer {
    type V = Seq<ToolDefinition>;

    closed spec fn view(&self) -> Seq<ToolDefinition> {
        self.handler@
    }
}

impl McpStdioServer {
    /// A server whose requests `handler` answers.
    pub fn new(handler: McpHandler) -> (r: Self)
        ensures
            r@ == handler@,
            r.handler() == handler,
    {
        McpStdioServer { handler }
    }

    /// The handler that answers the server's requests.
    pub closed spec fn handler(self) -> McpHandler {
        self.handler
    }

    /// The handler that answers the server's requests.
    pub fn handler_ref(&self) -> (r: &McpHandler)
        ensures
            *r == self.handler(),
    {
        &self.handler
    }

    /// What to do with a line read from the client, given what parsing it as a
    /// JSON-RPC request gave: a blank line is skipped, a line that does not
    /// parse gets a parse error with no id, and a request is handled.
    pub fn handle_line(&self, line: &str, parsed: Result<JsonRpcRequest, String>) -> (r: Option<
        HandlerAction,
    >)
        ensures
            is_blank(line@) ==> r is None,
            !is_blank(line@) ==> match parsed {
                Err(m) => r matches Some(HandlerAction::Respond(resp)) && is_failure(
                    resp,
                    None,
                    -32700,
                    "Parse error: "@ + m@,
                ),
                Ok(request) => match request.id {
                    None => r is None,
                    Some(id) => r matches Some(a) && answers(
                        self@,
                        request.method@,
                        opt_data(request.params),
                        id,
                        a,
                    ),
                },
            },
    {
        if is_blank_text(line) {
            return None;
        }
        match parsed {
            Ok(request) => self.handler.handle_request(request),
            Err(error) => {
                let mut m = String::from_str("Parse error: ");
                m.append(error.as_str());
                Some(HandlerAction::Respond(JsonRpcResponse::error(None, -32700, m)))
            },
        }
    }
}

} // verus!

pub mod handler;
pub mod json_rpc;
pub mod stdio;

pub use handler::{HandlerAction, McpHandler};
pub use json_rpc::{JsonRpcError, JsonRpcRequest, JsonRpcResponse};
pub use stdio::McpStdioServer;

pub mod execution;
pub mod tool;
pub mod validation;

pub use execution::ExecutionResult;
pub use tool::{
    validate_tool_call, ParameterType, ResolvedToolCall, SecurityPolicy, ToolDefinition,
    ToolParameter, ToolValidationError,
};

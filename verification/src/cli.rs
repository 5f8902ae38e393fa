use vstd::prelude::*;

verus! {

/// The command line of the server.
#[derive(Debug, Clone, PartialEq, Eq)]
pub struct Cli {
    pub command: Commands,
}

/// What the server is asked to do, each with the path of its tool configuration.
#[derive(Debug, Clone, PartialEq, Eq)]
pub enum Commands {
    /// Start the MCP stdio server.
    Mcp { config: String },
    /// Validate a tool configuration file.
    Validate { config: String },
    /// List configured tools.
    ListTools { config: String },
}

} // verus!

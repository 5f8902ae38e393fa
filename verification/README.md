# mercurius_p

A configurable Model Context Protocol (MCP) stdio server that exposes local
commands as tools, with its decision logic written and proved in Verus.

## Layout

- `src/` — the verified library.
  - `text.rs` — white space and blank texts, placeholder replacement on
    characters, decimal notation, and the lowercase form of a text.
  - `checks.rs` — "first failing check" outcomes shared by the validators.
  - `model/` — tool definitions, parameters, execution results, resolved calls,
    and the checks of a tool call: parameter types, unknown inputs and
    placeholders, and path rules with default blocked roots.
  - `parameters.rs` — `ParameterMap`, the values given to a tool call, each name once.
  - `command_builder.rs` — required-parameter checks and placeholder substitution.
  - `config/validator.rs` — validation of a whole tool configuration.
  - `registry.rs` — tools looked up by name, the last definition of a name winning.
  - `service.rs` — resolving a tool call into the process to run, after the
    checks of the call.
  - `json.rs` — the library's JSON values and their mathematical model.
  - `mcp/` — JSON-RPC messages, the MCP request handler and the line-based server.
  - `cli.rs` — the commands of the program.
- `app/` — the program: command-line parsing (clap), reading the configuration
  (serde_json), running processes with timeouts (tokio), and the stdio loop.
- `tests/` — tests of the library.

The handler decides what to do with each request; where the answer needs a
process run or the configuration file read, it says so, `app/` does that work,
and the handler turns the outcome into the response.

//! The MCP server that exposes file-management tools to language models
//! (JSON-RPC 2.0 over standard input and output).

pub mod protocol;

pub mod tools;

//! contextX: an MCP server that answers web-search questions through Grok.
//!
//! The verified library holds the request/response logic of the server:
//! configuration parsing, bearer-token checking, query validation, upstream
//! request payloads and the interpretation of upstream (streaming) replies.
pub mod text;
pub mod config;
pub mod server;
pub mod json;
pub mod grok;
pub mod mcp;

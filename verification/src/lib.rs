//! Verified core of an MCP server that gives access to logs stored in
//! Kibana or Elasticsearch.
pub mod json;
pub mod text;
pub mod render;
pub mod format;
pub mod headers;
pub mod kibana;
pub mod tools;
pub mod mcp;
pub mod http;
pub mod cli;
pub mod config;

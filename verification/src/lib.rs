//! Core of a gateway between language models and MCP tool servers.

pub mod approval;
pub mod assoc;
pub mod calling;
pub mod clients;
pub mod config;
pub mod context;
pub mod error;
pub mod events;
pub mod execution;
pub mod http;
pub mod inventory;
pub mod json;
pub mod laws;
pub mod mcp_utils;
pub mod orchestrator;
pub mod order;
pub mod patch;
pub mod pool;
pub mod request;
pub mod session;
pub mod sse;
pub mod stream_loop;
pub mod streaming;
pub mod text;
pub mod tool_loop;
pub mod wire;

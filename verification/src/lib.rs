//! Integration layer between a graphical editor and a long-running UCM
//! process: port negotiation, the interactive terminal session, the
//! language-server relay framing and the JSON-RPC tool client.
//!
//! Everything in this crate is pure: it decides, parses and formats, and
//! leaves sockets, processes and terminals to its caller.

pub mod commands;
pub mod decimal;
pub mod file_watcher;
pub mod json;
pub mod lsp_proxy;
pub mod mcp_client;
pub mod port_utils;
pub mod text;
pub mod tool_output;
pub mod typecheck_output;
pub mod ucm_api;
pub mod ucm_pty;

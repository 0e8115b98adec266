//! Zed support for SurrealQL: the settings, merges and decisions behind
//! starting the SurrealQL language server.
pub mod config;
pub mod extension;
pub mod json;
pub mod lsp;
pub mod text;

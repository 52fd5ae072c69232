//! Verified core of the agent sidecar: secret egress filtering, prompt
//! assembly, configuration decoding and the request flow decisions.

pub mod text;
pub mod lexical;
pub mod matcher;
pub mod encoding;
pub mod secret_filter;
pub mod config;
pub mod models;
pub mod prompt;
pub mod codex;
pub mod executor;
pub mod security;
pub mod service;
pub mod api;
pub mod ai;

//! Prompt providers.

pub mod codex;

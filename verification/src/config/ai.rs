//! Which AI provider answers prompts.

use vstd::prelude::*;

verus! {

#[derive(Debug, Clone, Copy, PartialEq, Eq, Structural)]
pub enum AiProviderKind {
    Codex,
    Claude,
}

impl Default for AiProviderKind {
    fn default() -> (res: Self)
        ensures
            res == AiProviderKind::Codex,
    {
        AiProviderKind::Codex
    }
}

#[derive(Debug, Clone)]
pub struct AiConfig {
    pub ai_provider: AiProviderKind,
}

impl Default for AiConfig {
    fn default() -> (res: Self)
        ensures
            res.ai_provider == AiProviderKind::Codex,
    {
        AiConfig { ai_provider: AiProviderKind::Codex }
    }
}

} // verus!

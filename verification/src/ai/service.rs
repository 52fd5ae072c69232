//! The prompt service and the entry point that picks the configured provider.

use vstd::prelude::*;

use crate::ai::error::AiError;
use crate::ai::providers::codex::CodexAiProvider;
use crate::ai::types::{AiProvider, PromptRequest, PromptResponse};
use crate::config::ai::{AiConfig, AiProviderKind};

verus! {

/// Answers prompts through one provider.
pub struct AiService<P: AiProvider> {
    provider: P,
}

impl<P: AiProvider> AiService<P> {
    pub closed spec fn spec_provider(&self) -> P {
        self.provider
    }

    pub fn new(provider: P) -> (res: Self)
        ensures
            res.spec_provider() == provider,
    {
        AiService { provider }
    }

    /// Hands the request to the provider.
    pub fn prompt(&self, request: PromptRequest) -> (res: Result<PromptResponse, AiError>)
        ensures
            self.spec_provider().answers(request, res),
    {
        self.provider.prompt(request)
    }
}

/// Answers `request` with the configured provider. Only the Codex provider
/// exists; configuring another one is not supported.
pub fn prompt(config: &AiConfig, request: String) -> (res: Result<PromptResponse, AiError>)
    requires
        config.ai_provider == AiProviderKind::Codex,
    ensures
        res matches Ok(r) && r.content@ == "Not implemented yet"@,
{
    let service = AiService::new(CodexAiProvider {});
    service.prompt(PromptRequest { prompt: request, system_prompt: None })
}

} // verus!

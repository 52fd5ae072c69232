//! The Codex prompt provider.

use vstd::prelude::*;

use crate::ai::error::AiError;
use crate::ai::types::{AiProvider, PromptRequest, PromptResponse};

verus! {

/// The Codex provider; it does not answer prompts yet and says so.
pub struct CodexAiProvider {}

impl AiProvider for CodexAiProvider {
    open spec fn answers(&self, request: PromptRequest, response: Result<PromptResponse, AiError>) -> bool {
        response matches Ok(r) && r.content@ == "Not implemented yet"@
    }

    fn prompt(&self, request: PromptRequest) -> (res: Result<PromptResponse, AiError>) {
        Ok(PromptResponse { content: String::from_str("Not implemented yet") })
    }
}

} // verus!

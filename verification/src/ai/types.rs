//! The provider interface and the values it exchanges.

use vstd::prelude::*;

use crate::ai::error::AiError;

verus! {

/// A backend that answers prompts; implemented by each provider.
pub trait AiProvider {
    /// The answers this provider may give to `request`.
    spec fn answers(&self, request: PromptRequest, response: Result<PromptResponse, AiError>) -> bool;

    fn prompt(&self, request: PromptRequest) -> (res: Result<PromptResponse, AiError>)
        ensures
            self.answers(request, res),
    ;
}

pub struct PromptRequest {
    pub prompt: String,
    pub system_prompt: Option<String>,
}

pub struct PromptResponse {
    pub content: String,
}

} // verus!

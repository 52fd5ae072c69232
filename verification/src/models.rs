//! Request and response values exchanged with the service's HTTP callers.

use std::collections::BTreeMap;

use vstd::prelude::*;
use uuid::Uuid;

verus! {

/// Declares `uuid::Uuid`, an opaque request identifier.
#[verifier::external_type_specification]
#[verifier::external_body]
pub struct ExUuid(Uuid);

/// `Uuid` is `Copy`; its `clone` returns the same identifier.
pub assume_specification[ <Uuid as Clone>::clone ](u: &Uuid) -> (res: Uuid)
    ensures
        res == *u,
;

/// Declares `serde_json::Value`, opaque request metadata.
#[verifier::external_type_specification]
#[verifier::external_body]
pub struct ExJsonValue(serde_json::Value);

#[derive(Debug, Clone)]
pub struct ChatRequest {
    pub conversation_id: Option<String>,
    pub conversation: Vec<ConversationMessage>,
    pub user_message: String,
    pub metadata: BTreeMap<String, serde_json::Value>,
}

#[derive(Debug, Clone)]
pub struct ConversationMessage {
    pub role: ConversationRole,
    pub content: String,
}

#[derive(Debug, Clone, Copy, PartialEq, Eq, Structural)]
pub enum ConversationRole {
    System,
    User,
    Assistant,
}

#[derive(Debug, Clone)]
pub struct ChatResponse {
    pub request_id: Uuid,
    pub status: ResponseStatus,
    pub answer: String,
    pub provider: String,
    pub diagnostics: ResponseDiagnostics,
}

#[derive(Debug, Clone, Copy, PartialEq, Eq, Structural)]
pub enum ResponseStatus {
    Completed,
}

#[derive(Debug, Clone)]
pub struct ResponseDiagnostics {
    pub duration_ms: u128,
    pub secret_filter_checked: bool,
    pub executor_stdout_bytes: usize,
    pub executor_stderr_bytes: usize,
    pub executor_db_access_enabled: bool,
    pub security_ai_enabled: bool,
    pub security_ai_checked: bool,
    pub security_ai_decision: Option<String>,
    pub security_ai_reason: Option<String>,
    pub security_ai_duration_ms: Option<u128>,
    pub security_ai_stdout_bytes: Option<usize>,
    pub security_ai_stderr_bytes: Option<usize>,
}

#[derive(Debug, Clone)]
pub struct ProviderStructuredOutput {
    pub answer: String,
}

#[derive(Debug, Clone)]
pub struct ErrorResponse {
    pub request_id: Option<Uuid>,
    pub status: ErrorStatus,
    pub error: ErrorBody,
}

#[derive(Debug, Clone, Copy, PartialEq, Eq, Structural)]
pub enum ErrorStatus {
    Failed,
}

#[derive(Debug, Clone)]
pub struct ErrorBody {
    pub code: &'static str,
    pub message: String,
}

} // verus!

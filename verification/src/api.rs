//! What the HTTP layer answers: request validation, the success body, and
//! the status, code and message of every failure.

use vstd::prelude::*;
use vstd::string::StringExecFns;
use uuid::Uuid;

use crate::codex::ProviderError;
use crate::models::{
    ChatRequest, ChatResponse, ErrorBody, ErrorResponse, ErrorStatus, ResponseDiagnostics,
    ResponseStatus,
};
use crate::security::SecurityDecision;
use crate::service::{ChatServiceError, ChatServiceResult};
use crate::text::trim;

verus! {

/// A failed request as the API reports it.
#[derive(Debug)]
pub struct ApiError {
    request_id: Option<Uuid>,
    status: u16,
    code: &'static str,
    message: String,
}

/// Which AI stage a provider failure comes from.
#[derive(Debug, Clone, Copy, PartialEq, Eq, Structural)]
pub enum Stage {
    SecurityAi,
    ExecutorAi,
}

/// The kinds of provider failure the API distinguishes.
#[derive(Debug, Clone, Copy, PartialEq, Eq, Structural)]
pub enum FailureKind {
    EgressSecretDetected,
    Timeout,
    ProcessFailed,
    InvalidOutput,
    ExecutionFailed,
}

pub const BAD_REQUEST: u16 = 400;
pub const FORBIDDEN: u16 = 403;
pub const BAD_GATEWAY: u16 = 502;
pub const GATEWAY_TIMEOUT: u16 = 504;

pub open spec fn stage_name_spec(stage: Stage) -> Seq<char> {
    match stage {
        Stage::SecurityAi => "security_ai"@,
        Stage::ExecutorAi => "executor_ai"@,
    }
}

pub fn stage_name(stage: Stage) -> (res: &'static str)
    ensures
        res@ == stage_name_spec(stage),
{
    match stage {
        Stage::SecurityAi => "security_ai",
        Stage::ExecutorAi => "executor_ai",
    }
}

pub open spec fn failure_suffix(kind: FailureKind) -> Seq<char> {
    match kind {
        FailureKind::EgressSecretDetected => "egress_secret_detected"@,
        FailureKind::Timeout => "timeout"@,
        FailureKind::ProcessFailed => "process_failed"@,
        FailureKind::InvalidOutput => "invalid_output"@,
        FailureKind::ExecutionFailed => "execution_failed"@,
    }
}

/// The error code of a stage's failure: `<stage>_<kind>`.
pub open spec fn stage_code_spec(stage: Stage, kind: FailureKind) -> Seq<char> {
    stage_name_spec(stage) + "_"@ + failure_suffix(kind)
}

pub fn stage_code(stage: Stage, kind: FailureKind) -> (res: &'static str)
    ensures
        res@ == stage_code_spec(stage, kind),
{
    proof {
        reveal_strlit("security_ai");
        reveal_strlit("executor_ai");
        reveal_strlit("_");
        reveal_strlit("egress_secret_detected");
        reveal_strlit("timeout");
        reveal_strlit("process_failed");
        reveal_strlit("invalid_output");
        reveal_strlit("execution_failed");
    }
    match (stage, kind) {
        (Stage::SecurityAi, FailureKind::EgressSecretDetected) => {
            proof { reveal_strlit("security_ai_egress_secret_detected"); }
            "security_ai_egress_secret_detected"
        },
        (Stage::SecurityAi, FailureKind::Timeout) => {
            proof { reveal_strlit("security_ai_timeout"); }
            "security_ai_timeout"
        },
        (Stage::SecurityAi, FailureKind::ProcessFailed) => {
            proof { reveal_strlit("security_ai_process_failed"); }
            "security_ai_process_failed"
        },
        (Stage::SecurityAi, FailureKind::InvalidOutput) => {
            proof { reveal_strlit("security_ai_invalid_output"); }
            "security_ai_invalid_output"
        },
        (Stage::SecurityAi, FailureKind::ExecutionFailed) => {
            proof { reveal_strlit("security_ai_execution_failed"); }
            "security_ai_execution_failed"
        },
        (Stage::ExecutorAi, FailureKind::EgressSecretDetected) => {
            proof { reveal_strlit("executor_ai_egress_secret_detected"); }
            "executor_ai_egress_secret_detected"
        },
        (Stage::ExecutorAi, FailureKind::Timeout) => {
            proof { reveal_strlit("executor_ai_timeout"); }
            "executor_ai_timeout"
        },
        (Stage::ExecutorAi, FailureKind::ProcessFailed) => {
            proof { reveal_strlit("executor_ai_process_failed"); }
            "executor_ai_process_failed"
        },
        (Stage::ExecutorAi, FailureKind::InvalidOutput) => {
            proof { reveal_strlit("executor_ai_invalid_output"); }
            "executor_ai_invalid_output"
        },
        (Stage::ExecutorAi, FailureKind::ExecutionFailed) => {
            proof { reveal_strlit("executor_ai_execution_failed"); }
            "executor_ai_execution_failed"
        },
    }
}

/// The failure kind of a provider error.
pub open spec fn failure_kind(error: ProviderError) -> FailureKind {
    match error {
        ProviderError::SecretDetected { .. } => FailureKind::EgressSecretDetected,
        ProviderError::Timeout => FailureKind::Timeout,
        ProviderError::ProcessFailed { .. } => FailureKind::ProcessFailed,
        ProviderError::InvalidOutput(_) => FailureKind::InvalidOutput,
        ProviderError::Prompt(_) | ProviderError::Spawn(_) | ProviderError::WritePrompt(_) => FailureKind::ExecutionFailed,
    }
}

/// The HTTP status of a provider failure: 504 for a timeout, 502 otherwise.
pub open spec fn failure_status(kind: FailureKind) -> u16 {
    if kind == FailureKind::Timeout {
        GATEWAY_TIMEOUT
    } else {
        BAD_GATEWAY
    }
}

/// The message of a stage's failure.
pub open spec fn stage_message(stage: Stage, kind: FailureKind) -> Seq<char> {
    stage_name_spec(stage) + match kind {
        FailureKind::EgressSecretDetected => " output failed secret safety checks"@,
        FailureKind::Timeout => " timed out"@,
        FailureKind::ProcessFailed => " process failed"@,
        FailureKind::InvalidOutput => " returned invalid JSON output"@,
        FailureKind::ExecutionFailed => " execution failed"@,
    }
}

/// The code and message of a provider failure when there is a single stage.
pub open spec fn provider_code(kind: FailureKind) -> Seq<char> {
    match kind {
        FailureKind::EgressSecretDetected => "egress_secret_detected"@,
        FailureKind::Timeout => "provider_timeout"@,
        FailureKind::ProcessFailed => "provider_process_failed"@,
        FailureKind::InvalidOutput => "provider_invalid_output"@,
        FailureKind::ExecutionFailed => "provider_execution_failed"@,
    }
}

pub open spec fn provider_message(kind: FailureKind) -> Seq<char> {
    match kind {
        FailureKind::EgressSecretDetected => "provider output failed safety checks"@,
        FailureKind::Timeout => "provider run timed out"@,
        FailureKind::ProcessFailed => "provider process failed"@,
        FailureKind::InvalidOutput => "provider returned invalid structured output"@,
        FailureKind::ExecutionFailed => "provider execution failed"@,
    }
}

fn kind_of(error: &ProviderError) -> (res: FailureKind)
    ensures
        res == failure_kind(*error),
{
    match error {
        ProviderError::SecretDetected { .. } => FailureKind::EgressSecretDetected,
        ProviderError::Timeout => FailureKind::Timeout,
        ProviderError::ProcessFailed { .. } => FailureKind::ProcessFailed,
        ProviderError::InvalidOutput(_) => FailureKind::InvalidOutput,
        ProviderError::Prompt(_) => FailureKind::ExecutionFailed,
        ProviderError::Spawn(_) => FailureKind::ExecutionFailed,
        ProviderError::WritePrompt(_) => FailureKind::ExecutionFailed,
    }
}

/// The name the API reports for a security decision.
pub open spec fn decision_name_spec(decision: SecurityDecision) -> Seq<char> {
    match decision {
        SecurityDecision::Allow => "allow"@,
        SecurityDecision::Block => "block"@,
    }
}

pub fn decision_name(decision: SecurityDecision) -> (res: &'static str)
    ensures
        res@ == decision_name_spec(decision),
{
    match decision {
        SecurityDecision::Allow => "allow",
        SecurityDecision::Block => "block",
    }
}

impl ApiError {
    pub closed spec fn spec_request_id(&self) -> Option<Uuid> {
        self.request_id
    }

    pub closed spec fn spec_status(&self) -> u16 {
        self.status
    }

    pub closed spec fn spec_code(&self) -> Seq<char> {
        self.code@
    }

    pub closed spec fn spec_message(&self) -> Seq<char> {
        self.message@
    }

    pub fn request_id(&self) -> (res: Option<Uuid>)
        ensures
            res == self.spec_request_id(),
    {
        self.request_id
    }

    pub fn status(&self) -> (res: u16)
        ensures
            res == self.spec_status(),
    {
        self.status
    }

    pub fn code(&self) -> (res: &'static str)
        ensures
            res@ == self.spec_code(),
    {
        self.code
    }

    pub fn message(&self) -> (res: &str)
        ensures
            res@ == self.spec_message(),
    {
        self.message.as_str()
    }

    pub fn bad_request(request_id: Uuid, code: &'static str, message: &str) -> (res: Self)
        ensures
            res.spec_request_id() == Some(request_id),
            res.spec_status() == BAD_REQUEST,
            res.spec_code() == code@,
            res.spec_message() == message@,
    {
        ApiError {
            request_id: Some(request_id),
            status: BAD_REQUEST,
            code,
            message: String::from_str(message),
        }
    }

    /// The answer to a failed chat flow: 403 with the normalized reason when
    /// the security AI blocked the request, otherwise the failing stage's
    /// provider failure.
    pub fn from_service(request_id: Uuid, error: ChatServiceError) -> (res: Self)
        ensures
            res.spec_request_id() == Some(request_id),
            (match error {
                ChatServiceError::SecurityBlocked { reason } => {
                    &&& res.spec_status() == FORBIDDEN
                    &&& res.spec_code() == "security_ai_blocked"@
                    &&& res.spec_message() == "request blocked by security AI: "@ + reason@
                },
                ChatServiceError::SecurityAiFailed(e) => {
                    &&& res.spec_status() == failure_status(failure_kind(e))
                    &&& res.spec_code() == stage_code_spec(Stage::SecurityAi, failure_kind(e))
                    &&& res.spec_message() == stage_message(Stage::SecurityAi, failure_kind(e))
                },
                ChatServiceError::ExecutorFailed(e) => {
                    &&& res.spec_status() == failure_status(failure_kind(e))
                    &&& res.spec_code() == stage_code_spec(Stage::ExecutorAi, failure_kind(e))
                    &&& res.spec_message() == stage_message(Stage::ExecutorAi, failure_kind(e))
                },
            }),
    {
        match error {
            ChatServiceError::SecurityBlocked { reason } => {
                let mut message = String::from_str("request blocked by security AI: ");
                message.append(reason.as_str());
                ApiError {
                    request_id: Some(request_id),
                    status: FORBIDDEN,
                    code: "security_ai_blocked",
                    message,
                }
            },
            ChatServiceError::SecurityAiFailed(e) => Self::from_provider_error(
                request_id,
                Stage::SecurityAi,
                e,
            ),
            ChatServiceError::ExecutorFailed(e) => Self::from_provider_error(
                request_id,
                Stage::ExecutorAi,
                e,
            ),
        }
    }

    /// The answer to a provider failure in `stage`: 504 for a timeout, 502
    /// otherwise, with a stage-specific code and message.
    pub fn from_provider_error(request_id: Uuid, stage: Stage, error: ProviderError) -> (res: Self)
        ensures
            res.spec_request_id() == Some(request_id),
            res.spec_status() == failure_status(failure_kind(error)),
            res.spec_code() == stage_code_spec(stage, failure_kind(error)),
            res.spec_message() == stage_message(stage, failure_kind(error)),
    {
        let kind = kind_of(&error);
        let mut message = String::from_str(stage_name(stage));
        match kind {
            FailureKind::EgressSecretDetected => message.append(" output failed secret safety checks"),
            FailureKind::Timeout => message.append(" timed out"),
            FailureKind::ProcessFailed => message.append(" process failed"),
            FailureKind::InvalidOutput => message.append(" returned invalid JSON output"),
            FailureKind::ExecutionFailed => message.append(" execution failed"),
        }
        let status = if kind == FailureKind::Timeout { GATEWAY_TIMEOUT } else { BAD_GATEWAY };
        ApiError { request_id: Some(request_id), status, code: stage_code(stage, kind), message }
    }

    /// The answer to a provider failure when the provider is the only stage.
    pub fn from_provider(request_id: Uuid, error: ProviderError) -> (res: Self)
        ensures
            res.spec_request_id() == Some(request_id),
            res.spec_status() == failure_status(failure_kind(error)),
            res.spec_code() == provider_code(failure_kind(error)),
            res.spec_message() == provider_message(failure_kind(error)),
    {
        let kind = kind_of(&error);
        let status = if kind == FailureKind::Timeout { GATEWAY_TIMEOUT } else { BAD_GATEWAY };
        let (code, message): (&'static str, &str) = match kind {
            FailureKind::EgressSecretDetected => ("egress_secret_detected", "provider output failed safety checks"),
            FailureKind::Timeout => ("provider_timeout", "provider run timed out"),
            FailureKind::ProcessFailed => ("provider_process_failed", "provider process failed"),
            FailureKind::InvalidOutput => ("provider_invalid_output", "provider returned invalid structured output"),
            FailureKind::ExecutionFailed => ("provider_execution_failed", "provider execution failed"),
        };
        ApiError { request_id: Some(request_id), status, code, message: String::from_str(message) }
    }

    /// The JSON body of the failure.
    pub fn error_response(&self) -> (res: ErrorResponse)
        ensures
            res.request_id == self.spec_request_id(),
            res.status == ErrorStatus::Failed,
            res.error.code@ == self.spec_code(),
            res.error.message@ == self.spec_message(),
    {
        ErrorResponse {
            request_id: self.request_id,
            status: ErrorStatus::Failed,
            error: ErrorBody { code: self.code, message: self.message.clone() },
        }
    }
}

/// A chat request must carry a user message that is not blank.
pub fn check_chat_request(request_id: Uuid, request: &ChatRequest) -> (res: Result<(), ApiError>)
    ensures
        res is Ok <==> trim(request.user_message@).len() > 0,
        res matches Err(e) ==> e.spec_request_id() == Some(request_id) && e.spec_status()
            == BAD_REQUEST && e.spec_code() == "empty_user_message"@ && e.spec_message()
            == "user_message must not be empty"@,
{
    let t = crate::text::trim_str(request.user_message.as_str());
    if t.as_str().is_empty() {
        Err(ApiError::bad_request(request_id, "empty_user_message", "user_message must not be empty"))
    } else {
        Ok(())
    }
}

/// The success body for an answered chat request.
pub fn chat_response(request_id: Uuid, result: ChatServiceResult, security_ai_enabled: bool) -> (res: ChatResponse)
    ensures
        res.request_id == request_id,
        res.status == ResponseStatus::Completed,
        res.answer == result.answer,
        res.provider@ == "codex"@,
        res.diagnostics.duration_ms == result.executor_stats.duration_ms,
        res.diagnostics.secret_filter_checked,
        res.diagnostics.executor_stdout_bytes == result.executor_stats.stdout_bytes,
        res.diagnostics.executor_stderr_bytes == result.executor_stats.stderr_bytes,
        res.diagnostics.executor_db_access_enabled == result.executor_db_access_enabled,
        res.diagnostics.security_ai_enabled == security_ai_enabled,
        res.diagnostics.security_ai_checked == result.security_ai_result is Some,
        (match result.security_ai_result {
            Some(audit) => {
                &&& res.diagnostics.security_ai_decision matches Some(d) && d@ == decision_name_spec(audit.decision)
                &&& res.diagnostics.security_ai_reason == Some(audit.reason)
                &&& res.diagnostics.security_ai_duration_ms == Some(audit.stats.duration_ms)
                &&& res.diagnostics.security_ai_stdout_bytes == Some(audit.stats.stdout_bytes)
                &&& res.diagnostics.security_ai_stderr_bytes == Some(audit.stats.stderr_bytes)
            },
            None => {
                &&& res.diagnostics.security_ai_decision is None
                &&& res.diagnostics.security_ai_reason is None
                &&& res.diagnostics.security_ai_duration_ms is None
                &&& res.diagnostics.security_ai_stdout_bytes is None
                &&& res.diagnostics.security_ai_stderr_bytes is None
            },
        }),
{
    let checked = result.security_ai_result.is_some();
    let (decision, reason, duration, out_bytes, err_bytes) = match result.security_ai_result {
        Some(audit) => (
            Some(String::from_str(decision_name(audit.decision))),
            Some(audit.reason),
            Some(audit.stats.duration_ms),
            Some(audit.stats.stdout_bytes),
            Some(audit.stats.stderr_bytes),
        ),
        None => (None, None, None, None, None),
    };
    ChatResponse {
        request_id,
        status: ResponseStatus::Completed,
        answer: result.answer,
        provider: String::from_str("codex"),
        diagnostics: ResponseDiagnostics {
            duration_ms: result.executor_stats.duration_ms,
            secret_filter_checked: true,
            executor_stdout_bytes: result.executor_stats.stdout_bytes,
            executor_stderr_bytes: result.executor_stats.stderr_bytes,
            executor_db_access_enabled: result.executor_db_access_enabled,
            security_ai_enabled,
            security_ai_checked: checked,
            security_ai_decision: decision,
            security_ai_reason: reason,
            security_ai_duration_ms: duration,
            security_ai_stdout_bytes: out_bytes,
            security_ai_stderr_bytes: err_bytes,
        },
    }
}

} // verus!

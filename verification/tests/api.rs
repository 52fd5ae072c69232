use agent_sidecar::api::{
    chat_response, check_chat_request, decision_name, stage_code, ApiError, FailureKind, Stage,
};
use agent_sidecar::codex::{ProviderError, ProviderRunStats};
use agent_sidecar::models::{ChatRequest, ErrorStatus, ResponseStatus};
use agent_sidecar::secret_filter::SecretDetection;
use agent_sidecar::security::SecurityDecision;
use agent_sidecar::service::{ChatServiceError, ChatServiceResult, SecurityAuditResult};
use uuid::Uuid;

fn secret_error() -> ProviderError {
    ProviderError::SecretDetected {
        stream: "stdout",
        detection: SecretDetection { label: "canary.0".to_owned() },
    }
}

#[test]
fn blank_user_message_is_a_bad_request() {
    let id = Uuid::new_v4();
    let request = ChatRequest {
        conversation_id: None,
        conversation: Vec::new(),
        user_message: " \n ".to_owned(),
        metadata: Default::default(),
    };
    let error = check_chat_request(id, &request).expect_err("bad request");
    assert_eq!(error.status(), 400);
    assert_eq!(error.code(), "empty_user_message");
    assert_eq!(error.message(), "user_message must not be empty");
    assert_eq!(error.request_id(), Some(id));
    let body = error.error_response();
    assert_eq!(body.status, ErrorStatus::Failed);
    assert_eq!(body.error.code, "empty_user_message");
}

#[test]
fn stage_failures_map_to_codes_and_statuses() {
    let id = Uuid::new_v4();
    let e = ApiError::from_provider_error(id, Stage::ExecutorAi, ProviderError::Timeout);
    assert_eq!((e.status(), e.code(), e.message()), (504, "executor_ai_timeout", "executor_ai timed out"));
    let e = ApiError::from_provider_error(id, Stage::SecurityAi, secret_error());
    assert_eq!(
        (e.status(), e.code(), e.message()),
        (502, "security_ai_egress_secret_detected", "security_ai output failed secret safety checks")
    );
    let e = ApiError::from_provider_error(
        id,
        Stage::ExecutorAi,
        ProviderError::ProcessFailed { code: Some(2), stdout_bytes: 0, stderr_bytes: 0 },
    );
    assert_eq!((e.status(), e.code()), (502, "executor_ai_process_failed"));
    assert_eq!(stage_code(Stage::SecurityAi, FailureKind::InvalidOutput), "security_ai_invalid_output");
    assert_eq!(stage_code(Stage::ExecutorAi, FailureKind::ExecutionFailed), "executor_ai_execution_failed");
}

#[test]
fn service_failures_map_to_api_errors() {
    let id = Uuid::new_v4();
    let e = ApiError::from_service(id, ChatServiceError::SecurityBlocked { reason: "nope".to_owned() });
    assert_eq!(
        (e.status(), e.code(), e.message()),
        (403, "security_ai_blocked", "request blocked by security AI: nope")
    );
    let e = ApiError::from_service(id, ChatServiceError::SecurityAiFailed(ProviderError::Timeout));
    assert_eq!(e.code(), "security_ai_timeout");
    let e = ApiError::from_service(id, ChatServiceError::ExecutorFailed(secret_error()));
    assert_eq!(e.code(), "executor_ai_egress_secret_detected");
}

#[test]
fn single_stage_provider_failures() {
    let id = Uuid::new_v4();
    let e = ApiError::from_provider(id, secret_error());
    assert_eq!(
        (e.status(), e.code(), e.message()),
        (502, "egress_secret_detected", "provider output failed safety checks")
    );
    let e = ApiError::from_provider(id, ProviderError::Timeout);
    assert_eq!((e.status(), e.code(), e.message()), (504, "provider_timeout", "provider run timed out"));
}

#[test]
fn response_carries_security_audit() {
    let id = Uuid::new_v4();
    let stats = ProviderRunStats { duration_ms: 10, stdout_bytes: 20, stderr_bytes: 1 };
    let result = ChatServiceResult {
        answer: "done".to_owned(),
        executor_stats: stats,
        security_ai_result: Some(SecurityAuditResult {
            decision: SecurityDecision::Allow,
            reason: "ok".to_owned(),
            stats: ProviderRunStats { duration_ms: 3, stdout_bytes: 4, stderr_bytes: 5 },
        }),
        executor_db_access_enabled: true,
    };
    let response = chat_response(id, result, true);
    assert_eq!(response.status, ResponseStatus::Completed);
    assert_eq!(response.answer, "done");
    assert_eq!(response.provider, "codex");
    let d = &response.diagnostics;
    assert!(d.secret_filter_checked && d.security_ai_checked && d.security_ai_enabled);
    assert_eq!(d.security_ai_decision.as_deref(), Some("allow"));
    assert_eq!(d.security_ai_reason.as_deref(), Some("ok"));
    assert_eq!(d.security_ai_stderr_bytes, Some(5));
    assert_eq!(d.duration_ms, 10);
    assert_eq!(decision_name(SecurityDecision::Block), "block");
}

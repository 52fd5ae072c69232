use std::sync::Arc;
use std::time::Duration;

use agent_sidecar::codex::{CodexJsonResult, CodexRunner, ProviderError, ProviderRunStats};
use agent_sidecar::config::CodexConfig;
use agent_sidecar::executor::{ExecutorAi, ExecutorRunResult};
use agent_sidecar::models::{ChatRequest, ProviderStructuredOutput};
use agent_sidecar::secret_filter::SecretFilter;
use agent_sidecar::security::{
    SecurityAi, SecurityCheckResult, SecurityDecision, SecurityStructuredOutput,
};
use agent_sidecar::service::{normalize_reason, ChatService, ChatServiceError, ChatStep};

fn runner() -> CodexRunner {
    CodexRunner::new(
        CodexConfig {
            command: "codex".to_owned(),
            model: None,
            timeout: Duration::from_secs(5),
            policy_workspace: "/p".to_owned(),
            response_schema_path: "/p/response.schema.json".to_owned(),
            codex_home: None,
            sandbox: "read-only".to_owned(),
            path_env: "/usr/bin:/bin".to_owned(),
        },
        Arc::new(SecretFilter::new(Vec::new()).expect("filter")),
        Vec::new(),
    )
}

fn service(security: bool) -> ChatService {
    let executor = Arc::new(ExecutorAi::new(runner(), "Executor prompt.".to_owned(), false));
    let security_ai = if security {
        Some(Arc::new(SecurityAi::new(runner(), "Security prompt.".to_owned())))
    } else {
        None
    };
    ChatService::new(executor, security_ai)
}

fn request(user_message: &str) -> ChatRequest {
    ChatRequest {
        conversation_id: Some("chat-1".to_owned()),
        conversation: Vec::new(),
        user_message: user_message.to_owned(),
        metadata: Default::default(),
    }
}

fn stats() -> ProviderRunStats {
    ProviderRunStats { duration_ms: 1, stdout_bytes: 2, stderr_bytes: 0 }
}

fn check(decision: SecurityDecision, reason: &str) -> SecurityCheckResult {
    SecurityAi::finish(CodexJsonResult {
        output: SecurityStructuredOutput { decision, reason: reason.to_owned() },
        stats: stats(),
    })
}

#[test]
fn security_block_stops_before_executor() {
    let service = service(true);
    match service.start(&request("blocked request")) {
        ChatStep::CheckSecurity { prompt } => assert_eq!(
            prompt,
            "Security prompt.\n\n# Security Review Input\n\nUser message:\nblocked request\n"
        ),
        other => panic!("unexpected {other:?}"),
    }
    match service.after_security(Ok(check(SecurityDecision::Block, "secret request"))) {
        ChatStep::Finished(Err(ChatServiceError::SecurityBlocked { reason })) => {
            assert_eq!(reason, "secret request")
        }
        other => panic!("unexpected {other:?}"),
    }
}

#[test]
fn security_allow_runs_executor() {
    let service = service(true);
    let step = service.after_security(Ok(check(SecurityDecision::Allow, "safe_request")));
    let security = match step {
        ChatStep::RunExecutor { security } => security,
        other => panic!("unexpected {other:?}"),
    };
    let run = ExecutorAi::finish(CodexJsonResult {
        output: ProviderStructuredOutput { answer: "executor answer".to_owned() },
        stats: stats(),
    });
    match service.after_executor(security, Ok(run)) {
        ChatStep::Finished(Ok(result)) => {
            assert_eq!(result.answer, "executor answer");
            assert_eq!(result.security_ai_result.expect("security audit").reason, "safe_request");
            assert!(!result.executor_db_access_enabled);
        }
        other => panic!("unexpected {other:?}"),
    }
}

#[test]
fn without_security_ai_the_executor_runs_first() {
    let service = service(false);
    assert!(!service.security_ai_enabled());
    assert!(matches!(
        service.start(&request("hello")),
        ChatStep::RunExecutor { security: None }
    ));
}

#[test]
fn security_failure_fails_closed() {
    let service = service(true);
    match service.after_security(Err(ProviderError::Timeout)) {
        ChatStep::Finished(Err(ChatServiceError::SecurityAiFailed(ProviderError::Timeout))) => {}
        other => panic!("unexpected {other:?}"),
    }
}

#[test]
fn executor_failure_is_reported() {
    let service = service(false);
    let run: Result<ExecutorRunResult, ProviderError> = Err(ProviderError::Timeout);
    assert!(matches!(
        service.after_executor(None, run),
        ChatStep::Finished(Err(ChatServiceError::ExecutorFailed(ProviderError::Timeout)))
    ));
}

#[test]
fn reasons_are_trimmed_and_capped() {
    assert_eq!(normalize_reason("  fine  ".to_owned()), "fine");
    assert_eq!(normalize_reason("   ".to_owned()), "no reason provided");
    let long = "é".repeat(300);
    assert_eq!(normalize_reason(long).chars().count(), 240);
}

#[test]
fn prompts_for_each_stage() {
    let security = SecurityAi::new(runner(), "Security prompt.".to_owned());
    assert_eq!(
        security.prompt_for("hi"),
        "Security prompt.\n\n# Security Review Input\n\nUser message:\nhi\n"
    );
    let executor = ExecutorAi::new(runner(), "Executor prompt.".to_owned(), true);
    assert!(executor.database_access_enabled());
    let request = ChatRequest {
        conversation_id: None,
        conversation: Vec::new(),
        user_message: "question".to_owned(),
        metadata: Default::default(),
    };
    let prompt = executor.prompt_for(&request, "{}");
    assert!(prompt.starts_with("Executor prompt.\n\n# Request Runtime"));
    assert!(prompt.contains("Database access is enabled"));
    assert!(prompt.ends_with("User message:\nquestion\n"));
}

#[test]
fn executor_request_prompt_renders_metadata() {
    let executor = ExecutorAi::new(runner(), "Base.".to_owned(), true);
    let mut req = request("q");
    req.metadata.insert("telegram_user_id".to_owned(), serde_json::Value::String("12345".to_owned()));
    let prompt = executor.request_prompt(&req).expect("prompt");
    assert!(prompt.starts_with("Base.\n\n# Request Runtime\n"));
    assert!(prompt.contains("Request metadata:\n{\n  \"telegram_user_id\": \"12345\"\n}\n\nUser message:\nq\n"));
    assert!(prompt.contains("Database access is enabled"));
}

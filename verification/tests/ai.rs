use agent_sidecar::ai::providers::codex::CodexAiProvider;
use agent_sidecar::ai::service::{prompt, AiService};
use agent_sidecar::ai::types::PromptRequest;
use agent_sidecar::config::ai::{AiConfig, AiProviderKind};

#[test]
fn codex_provider_answers_placeholder() {
    let config = AiConfig::default();
    assert_eq!(config.ai_provider, AiProviderKind::Codex);
    let response = prompt(&config, "Hello".to_owned()).expect("response");
    assert_eq!(response.content, "Not implemented yet");
    let service = AiService::new(CodexAiProvider {});
    let response = service
        .prompt(PromptRequest { prompt: "x".to_owned(), system_prompt: None })
        .expect("response");
    assert_eq!(response.content, "Not implemented yet");
}

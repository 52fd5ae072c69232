use std::collections::BTreeMap;

use agent_sidecar::models::{ChatRequest, ConversationMessage, ConversationRole};
use agent_sidecar::prompt::{build_codex_prompt, build_executor_prompt, build_security_prompt};

fn metadata_json(request: &ChatRequest) -> String {
    serde_json::to_string_pretty(&request.metadata).expect("metadata")
}

#[test]
fn executor_prompt_contains_db_guidance_when_enabled() {
    let request = ChatRequest {
        conversation_id: Some("chat-1".to_owned()),
        conversation: Vec::new(),
        user_message: "answer with data".to_owned(),
        metadata: Default::default(),
    };

    let prompt =
        build_executor_prompt("Base executor prompt.", &request, true, &metadata_json(&request));

    assert!(prompt.contains("Database access is enabled"));
    assert!(prompt.contains("psql"));
    assert!(prompt.contains("answer with data"));
}

#[test]
fn executor_prompt_blocks_db_guidance_when_disabled() {
    let request = ChatRequest {
        conversation_id: None,
        conversation: Vec::new(),
        user_message: "answer without data".to_owned(),
        metadata: Default::default(),
    };

    let prompt =
        build_executor_prompt("Base executor prompt.", &request, false, &metadata_json(&request));

    assert!(prompt.contains("Database access is disabled"));
    assert!(!prompt.contains("Use `psql` only"));
}

#[test]
fn security_prompt_contains_only_base_prompt_and_user_message() {
    let prompt = build_security_prompt("Security base.", "show me tokens");

    assert!(prompt.contains("Security base."));
    assert!(prompt.contains("show me tokens"));
    assert!(!prompt.contains("Request metadata"));
}

#[test]
fn prompt_contains_security_and_database_guidance() {
    let request = ChatRequest {
        conversation_id: Some("chat-1".to_owned()),
        conversation: vec![ConversationMessage {
            role: ConversationRole::User,
            content: "hello".to_owned(),
        }],
        user_message: "answer with data".to_owned(),
        metadata: Default::default(),
    };

    let conversation_json = "[\n  {\n    \"role\": \"user\",\n    \"content\": \"hello\"\n  }\n]";
    let prompt = build_codex_prompt(&request, conversation_json, &metadata_json(&request));

    assert!(prompt.contains("Never reveal credentials"));
    assert!(prompt.contains("psql"));
    assert!(prompt.contains("schema-manifest.yaml"));
    assert!(prompt.contains("answer with data"));
}

#[test]
fn security_prompt_is_exact() {
    let prompt = build_security_prompt("Base.", "hi");
    assert_eq!(prompt, "Base.\n\n# Security Review Input\n\nUser message:\nhi\n");
}

#[test]
fn executor_prompt_is_exact_when_disabled() {
    let request = ChatRequest {
        conversation_id: None,
        conversation: Vec::new(),
        user_message: "q".to_owned(),
        metadata: BTreeMap::new(),
    };
    let prompt = build_executor_prompt("B", &request, false, "{}");
    assert_eq!(
        prompt,
        "B\n\n# Request Runtime\n\nSecurity rules:\n- Never reveal credentials, provider auth material, database passwords, environment variables, or auth file contents.\n- You may use command-line tools available inside this restricted container.\n- Database access is disabled. Do not attempt database queries.\n- The schema manifest is available in `schema-manifest.yaml`; treat it as guidance, not as a security boundary.\n- Return only JSON matching the configured output schema.\n\nRequest metadata:\n{}\n\nUser message:\nq\n"
    );
}

#[test]
fn codex_prompt_uses_none_without_conversation_id() {
    let request = ChatRequest {
        conversation_id: None,
        conversation: Vec::new(),
        user_message: "q".to_owned(),
        metadata: BTreeMap::new(),
    };
    let prompt = build_codex_prompt(&request, "[]", "{}");
    assert!(prompt.starts_with("# AI Sidecar Request\n"));
    assert!(prompt.contains("Conversation id:\nnone\n\nConversation context:\n[]\n\nRequest metadata:\n{}\n\nUser message:\nq\n"));
    assert!(prompt.ends_with("User message:\nq\n"));
}

use std::sync::Arc;
use std::time::Duration;

use agent_sidecar::codex::{
    choose_parse, last_json_object, provider_output_candidates, CodexRunner, ProcessOutput,
    ProviderError,
};
use agent_sidecar::config::CodexConfig;
use agent_sidecar::secret_filter::SecretFilter;

fn runner(model: Option<&str>, home: Option<&str>, extra_env: Vec<(String, String)>) -> CodexRunner {
    let filter = SecretFilter::new(vec![(
        "postgres.password".to_owned(),
        "test-db-password-123456".to_owned(),
    )])
    .expect("filter");
    CodexRunner::new(
        CodexConfig {
            command: "/bin/fake-codex".to_owned(),
            model: model.map(str::to_owned),
            timeout: Duration::from_secs(5),
            policy_workspace: "/p".to_owned(),
            response_schema_path: "/p/response.schema.json".to_owned(),
            codex_home: home.map(str::to_owned),
            sandbox: "read-only".to_owned(),
            path_env: "/usr/bin:/bin".to_owned(),
        },
        Arc::new(filter),
        extra_env,
    )
}

fn output(stdout: &str, stderr: &str, success: bool) -> ProcessOutput {
    ProcessOutput {
        stdout: stdout.as_bytes().to_vec(),
        stderr: stderr.as_bytes().to_vec(),
        success,
        code: if success { Some(0) } else { Some(1) },
    }
}

#[test]
fn command_is_sandboxed_and_reads_prompt_from_stdin() {
    let plan = runner(Some("gpt-x"), Some("/auth"), Vec::new()).build_command();
    assert_eq!(plan.program, "/bin/fake-codex");
    assert_eq!(
        plan.args,
        vec![
            "exec", "--sandbox", "read-only", "--ask-for-approval", "never", "--ephemeral",
            "--skip-git-repo-check", "--ignore-user-config", "--color", "never", "--cd", "/p",
            "--output-schema", "/p/response.schema.json", "--model", "gpt-x", "-",
        ]
    );
    assert_eq!(plan.current_dir, "/p");
    assert_eq!(
        plan.env,
        vec![
            ("PATH".to_owned(), "/usr/bin:/bin".to_owned()),
            ("TERM".to_owned(), "dumb".to_owned()),
            ("NO_COLOR".to_owned(), "1".to_owned()),
            ("HOME".to_owned(), "/tmp/agent-sidecar-home".to_owned()),
            ("CODEX_HOME".to_owned(), "/auth".to_owned()),
        ]
    );
}

#[test]
fn passes_only_configured_extra_env_to_provider() {
    let plan = runner(
        None,
        None,
        vec![("PGPASSWORD".to_owned(), "test-db-password-123456".to_owned())],
    )
    .build_command();
    assert_eq!(plan.args.last().map(String::as_str), Some("-"));
    assert!(!plan.args.contains(&"--model".to_owned()));
    assert_eq!(
        plan.env.last(),
        Some(&("PGPASSWORD".to_owned(), "test-db-password-123456".to_owned()))
    );
    let without = runner(None, None, Vec::new()).build_command();
    assert!(without.env.iter().all(|(k, _)| k != "PGPASSWORD"));
}

#[test]
fn blocks_secret_in_provider_output() {
    let error = runner(None, None, Vec::new())
        .check_output(&output("{\"answer\":\"leaked test-db-password-123456\"}", "", true))
        .expect_err("secret detection");
    assert!(matches!(error, ProviderError::SecretDetected { stream: "stdout", .. }));
}

#[test]
fn blocks_secret_in_stderr_even_when_process_failed() {
    let error = runner(None, None, Vec::new())
        .check_output(&output("", "oops test-db-password-123456", false))
        .expect_err("secret detection");
    match error {
        ProviderError::SecretDetected { stream, detection } => {
            assert_eq!(stream, "stderr");
            assert_eq!(detection.label, "postgres.password");
        }
        other => panic!("unexpected {other:?}"),
    }
}

#[test]
fn failed_process_is_reported_with_sizes() {
    let error = runner(None, None, Vec::new())
        .check_output(&output("abc", "de", false))
        .expect_err("failure");
    match error {
        ProviderError::ProcessFailed { code, stdout_bytes, stderr_bytes } => {
            assert_eq!(code, Some(1));
            assert_eq!(stdout_bytes, 3);
            assert_eq!(stderr_bytes, 2);
        }
        other => panic!("unexpected {other:?}"),
    }
}

#[test]
fn returns_structured_provider_answer() {
    let r = runner(None, None, Vec::new());
    let run = output("{\"answer\":\"hello from fake codex\"}", "", true);
    let text = r.check_output(&run).expect("provider result");
    let (first, _) = provider_output_candidates(&text);
    let value: serde_json::Value = serde_json::from_str(&first).expect("json");
    let result = CodexRunner::finish(value, 7, &run);
    assert_eq!(result.output["answer"], "hello from fake codex");
    assert!(result.stats.stdout_bytes > 0);
    assert_eq!(result.stats.duration_ms, 7);
}

#[test]
fn rejects_invalid_provider_json() {
    let r = runner(None, None, Vec::new());
    let text = r.check_output(&output("not json", "", true)).expect("text");
    let (first, fallback) = provider_output_candidates(&text);
    assert!(serde_json::from_str::<serde_json::Value>(&first).is_err());
    assert!(serde_json::from_str::<serde_json::Value>(&fallback).is_err());
}

#[test]
fn wrapped_json_is_found() {
    assert_eq!(last_json_object("log {\"a\":1} tail {\"b\":2} end").as_deref(), Some("{\"b\":2}"));
    assert_eq!(last_json_object("no braces"), None);
    assert_eq!(last_json_object("only } close"), None);
    let (first, fallback) = provider_output_candidates("  progress...\n{\"answer\":\"x\"}\n ");
    assert_eq!(first, "progress...\n{\"answer\":\"x\"}");
    assert_eq!(fallback, "{\"answer\":\"x\"}");
}

#[test]
fn lossy_text_replaces_invalid_bytes() {
    let r = runner(None, None, Vec::new());
    assert_eq!(r.check_output(&output("ok", "", true)).expect("text"), "ok");
    let run = ProcessOutput {
        stdout: vec![0x61, 0xff, 0x62],
        stderr: Vec::new(),
        success: true,
        code: Some(0),
    };
    assert_eq!(r.check_output(&run).expect("text"), "a\u{fffd}b");
}

#[test]
fn whole_output_parse_is_preferred() {
    let (whole, fallback) = provider_output_candidates("{\"answer\":\"a\"}");
    let parsed = choose_parse(
        serde_json::from_str::<serde_json::Value>(&whole),
        serde_json::from_str::<serde_json::Value>(&fallback),
    )
    .expect("parsed");
    assert_eq!(parsed["answer"], "a");

    let (whole, fallback) = provider_output_candidates("progress {\"answer\":\"b\"}");
    let parsed = choose_parse(
        serde_json::from_str::<serde_json::Value>(&whole),
        serde_json::from_str::<serde_json::Value>(&fallback),
    )
    .expect("parsed");
    assert_eq!(parsed["answer"], "b");

    let (whole, fallback) = provider_output_candidates("not json");
    let error = choose_parse(
        serde_json::from_str::<serde_json::Value>(&whole),
        serde_json::from_str::<serde_json::Value>(&fallback),
    )
    .expect_err("invalid");
    assert!(matches!(error, ProviderError::InvalidOutput(_)));
}

use agent_sidecar::config::{PostgresConfig, SecretFilterConfig};
use agent_sidecar::secret_filter::{
    extract_token_candidates, percent_encode, secret_file_candidates, secret_file_within_limit,
    secret_variants, sliding_fragments, SecretFilter, SecretFilterError, StreamingSecretScanner,
};
use agent_sidecar::text::{retain_tail, strip_ascii_whitespace, trim_str};

#[test]
fn detects_exact_secret_without_returning_value() {
    let filter = SecretFilter::new(vec![(
        "db.password".to_owned(),
        "super-secret-token-123".to_owned(),
    )])
    .expect("filter");

    let detection = filter
        .scan_text("the value is super-secret-token-123")
        .expect("detection");

    assert_eq!(detection.label, "db.password");
}

#[test]
fn detects_secret_with_spaces_inserted() {
    let filter = SecretFilter::new(vec![(
        "provider.auth".to_owned(),
        "codex-auth-secret-value".to_owned(),
    )])
    .expect("filter");

    assert!(filter.scan_text("codex-auth- secret-value").is_some());
}

#[test]
fn detects_secret_across_stream_chunks() {
    let filter = SecretFilter::new(vec![(
        "canary".to_owned(),
        "canary-secret-across-boundary".to_owned(),
    )])
    .expect("filter");
    let mut scanner = StreamingSecretScanner::new(filter);

    assert!(scanner.scan_chunk("prefix canary-secret").is_none());
    assert!(scanner.scan_chunk("-across-boundary suffix").is_some());
}

#[test]
fn clean_text_is_not_flagged() {
    let filter = SecretFilter::new(vec![(
        "db.password".to_owned(),
        "super-secret-token-123".to_owned(),
    )])
    .expect("filter");
    assert!(filter.scan_text("nothing to see here").is_none());
}

#[test]
fn empty_inventory_builds_and_never_detects() {
    let filter = SecretFilter::new(Vec::new()).expect("filter");
    assert!(filter.scan_text("anything at all").is_none());
}

#[test]
fn short_secrets_are_not_patterns() {
    let filter = SecretFilter::new(vec![("short".to_owned(), "abc".to_owned())]).expect("filter");
    assert!(filter.scan_text("abc abc abc").is_none());
}

#[test]
fn detects_base64_rendering_of_secret() {
    let filter = SecretFilter::new(vec![(
        "db.password".to_owned(),
        "super-secret-token-123".to_owned(),
    )])
    .expect("filter");
    // STANDARD base64 of "super-secret-token-123"
    let detection = filter
        .scan_text("leak: c3VwZXItc2VjcmV0LXRva2VuLTEyMw== end")
        .expect("detection");
    assert_eq!(detection.label, "db.password");
}

#[test]
fn detects_percent_encoded_secret() {
    let filter = SecretFilter::new(vec![("k".to_owned(), "pass word!value".to_owned())])
        .expect("filter");
    assert!(filter.scan_text("x=pass%20word%21value").is_some());
}

#[test]
fn secret_variants_are_sorted_and_cover_the_renderings() {
    let variants = secret_variants("  abc def  ");
    // trimmed, without whitespace, base64 standard, base64 url-safe, percent
    let mut expected = vec![
        "abc def".to_owned(),
        "abcdef".to_owned(),
        "YWJjIGRlZg==".to_owned(),
        "YWJjIGRlZg".to_owned(),
        "abc%20def".to_owned(),
    ];
    expected.sort();
    expected.dedup();
    assert_eq!(variants, expected);
}

#[test]
fn secret_variants_of_blank_secret_are_empty() {
    assert!(secret_variants("   \n").is_empty());
}

#[test]
fn long_secrets_add_fragments() {
    let secret = "0123456789abcdefghij";
    let variants = secret_variants(secret);
    assert!(variants.contains(&"0123456789abcdef".to_owned()));
    assert!(variants.contains(&"89abcdefghij".to_owned()) == false);
    assert!(variants.contains(&"456789abcdefghij".to_owned()) == false);
}

#[test]
fn sliding_fragments_step_by_half() {
    let fragments = sliding_fragments("abcdefgh", 4);
    assert_eq!(fragments, vec!["abcd", "cdef", "efgh"]);
    assert!(sliding_fragments("abc", 4).is_empty());
    assert_eq!(sliding_fragments("abcdefg", 4), vec!["abcd", "cdef"]);
}

#[test]
fn percent_encoding_of_bytes() {
    assert_eq!(percent_encode("a-b_c.d~e"), "a-b_c.d~e");
    assert_eq!(percent_encode("a b/é"), "a%20b%2F%C3%A9");
}

#[test]
fn text_helpers() {
    assert_eq!(strip_ascii_whitespace(" a\tb\nc\r d\x0Ce"), "abcde");
    assert_eq!(retain_tail("abcdef", 3), "def");
    assert_eq!(retain_tail("ab", 3), "ab");
    assert_eq!(trim_str("\u{3000} x y \n"), "x y");
}

#[test]
fn token_candidates_need_length_and_variety() {
    let tokens = extract_token_candidates("key=abcdefgh1234 short aaaaaaaaaaaa x/y+z=abcd1234");
    assert_eq!(tokens, vec!["key=abcdefgh1234", "x/y+z=abcd1234"]);
}

#[test]
fn secret_file_candidates_label_tokens() {
    let candidates = secret_file_candidates("/run/secret", "  token=abcdef123456  \n");
    assert_eq!(
        candidates,
        vec![
            ("secret-file:/run/secret".to_owned(), "token=abcdef123456".to_owned()),
            ("secret-file:/run/secret:0".to_owned(), "token=abcdef123456".to_owned()),
        ]
    );
    assert!(secret_file_within_limit(64 * 1024));
    assert!(!secret_file_within_limit(64 * 1024 + 1));
}

#[test]
fn config_inventory_protects_password_and_canaries() {
    let config = SecretFilterConfig {
        secret_file_paths: Vec::new(),
        canary_secrets: vec!["first-canary-aa".to_owned(), "second-canary-bb".to_owned()],
    };
    let db = PostgresConfig {
        host: "db".to_owned(),
        port: 5432,
        database: "app".to_owned(),
        user: "ro".to_owned(),
        password: "database-password-xyz".to_owned(),
        sslmode: None,
    };
    let filter = SecretFilter::from_config(&config, Some(&db), &Vec::new()).expect("filter");
    assert_eq!(
        filter.scan_text("pw database-password-xyz").expect("db").label,
        "postgres.password"
    );
    assert_eq!(filter.scan_text("c second-canary-bb").expect("canary").label, "canary.1");
    let files = vec![("/etc/token".to_owned(), "file-secret-abcdef".to_owned())];
    let filter = SecretFilter::from_config(&config, None, &files).expect("filter");
    assert!(filter.scan_text("file-secret-abcdef").is_some());
    assert!(filter.scan_text("pw database-password-xyz").is_none());
}

#[test]
fn stream_tail_keeps_only_recent_text() {
    let filter = SecretFilter::new(vec![("c".to_owned(), "abcdefghijklmnop".to_owned())])
        .expect("filter");
    let mut scanner = StreamingSecretScanner::new(filter);
    assert!(scanner.scan_chunk("abcdefgh").is_none());
    let filler = "x".repeat(300);
    assert!(scanner.scan_chunk(&filler).is_none());
    assert!(scanner.scan_chunk("ijklmnop").is_none());
}

#[test]
fn build_error_variant_is_reported_as_such() {
    let error: Result<SecretFilter, SecretFilterError> = SecretFilter::new(Vec::new());
    assert!(error.is_ok());
}

fn filter_of(secrets: &[(&str, &str)]) -> SecretFilter {
    SecretFilter::new(
        secrets
            .iter()
            .map(|(l, s)| (l.to_string(), s.to_string()))
            .collect(),
    )
    .expect("filter")
}

#[test]
fn blank_secret_adds_nothing() {
    let with_blank = filter_of(&[("db", "alpha-secret-value-1"), ("blank", "   \n ")]);
    let without = filter_of(&[("db", "alpha-secret-value-1")]);
    for text in ["alpha-secret-value-1", "alpha secret", "   ", "nothing"] {
        assert_eq!(with_blank.scan_text(text), without.scan_text(text));
    }
}

#[test]
fn surrounding_text_keeps_detection() {
    let filter = filter_of(&[("db", "alpha-secret-value-1")]);
    assert!(filter.scan_text("alpha-secret- value-1").is_some());
    assert!(filter
        .scan_text("prefix alpha-secret- value-1 and a suffix")
        .is_some());
}

#[test]
fn raw_text_match_is_reported_before_stripped_one() {
    let filter = filter_of(&[("a", "alpha-secret-one"), ("b", "bravo-secret-two")]);
    let found = filter
        .scan_text("bravo- secret-two then alpha-secret-one")
        .expect("detection");
    assert_eq!(found.label, "a");
    let found = filter.scan_text("bravo- secret-two only").expect("detection");
    assert_eq!(found.label, "b");
}

#[test]
fn url_safe_base64_rendering_is_detected() {
    // URL-safe unpadded base64 of "secret>>>???value": "c2VjcmV0Pj4-Pz8_dmFsdWU"
    let filter = filter_of(&[("s", "secret>>>???value")]);
    let found = filter
        .scan_text("leak: c2VjcmV0Pj4-Pz8_dmFsdWU end")
        .expect("detection");
    assert_eq!(found.label, "s");
}

#[test]
fn chunked_scan_matches_scan_of_carried_text() {
    let filter = filter_of(&[("c", "canary-secret-across-boundary")]);
    let whole = filter.clone();
    let mut scanner = StreamingSecretScanner::new(filter);
    let chunks = ["prefix canary-secret", "-across-boundary suffix"];
    let mut seen = String::new();
    for chunk in chunks {
        let carried: String = {
            let chars: Vec<char> = seen.chars().collect();
            let start = chars.len().saturating_sub(256);
            chars[start..].iter().collect()
        };
        let expected = whole.scan_text(&(carried + chunk));
        assert_eq!(scanner.scan_chunk(chunk), expected);
        seen.push_str(chunk);
    }
    assert!(whole.scan_text("prefix canary-secret-across-boundary").is_some());
}

#[test]
fn cloned_filter_scans_the_same() {
    let filter = filter_of(&[("db", "alpha-secret-value-1")]);
    let copy = filter.clone();
    assert_eq!(copy.scan_text("x alpha-secret-value-1"), filter.scan_text("x alpha-secret-value-1"));
    assert!(copy.scan_text("nothing").is_none());
}

use verified_code_reviewer::config::VertexAuth;
use verified_code_reviewer::llm::vertex::{
    backoff_ms, build_endpoint, retry_delay, parse_generate_content, truncate, ContentPart, GenerateReply,
    ReplyCandidate, UsageFields,
};
use verified_code_reviewer::llm::LlmError;

fn part(text: &str) -> ContentPart {
    ContentPart { text: Some(text.into()), thought: None }
}

fn reply(parts: Vec<ContentPart>, finish: Option<&str>, usage: Option<UsageFields>) -> GenerateReply {
    GenerateReply {
        usage,
        first_candidate: Some(ReplyCandidate { finish_reason: finish.map(|s| s.to_string()), parts: Some(parts) }),
        block_reason: None,
    }
}

fn usage(prompt: u64, candidates: u64, thoughts: Option<u64>, total: Option<u64>) -> Option<UsageFields> {
    Some(UsageFields {
        prompt_token_count: Some(prompt),
        candidates_token_count: Some(candidates),
        thoughts_token_count: thoughts,
        total_token_count: total,
    })
}

#[test]
fn global_location_uses_unprefixed_host() {
    let url = build_endpoint("global", VertexAuth::AccessToken, Some("my-project"), "gemini-test").unwrap();
    assert!(url.starts_with("https://aiplatform.googleapis.com/v1/projects/my-project/locations/global/"));
    assert!(url.ends_with("gemini-test:generateContent"));
}

#[test]
fn regional_location_is_prefixed() {
    let url = build_endpoint("us-central1", VertexAuth::AccessToken, Some("my-project"), "gemini-test").unwrap();
    assert!(url.starts_with("https://us-central1-aiplatform.googleapis.com/"));
    assert!(url.contains("/locations/us-central1/"));
}

#[test]
fn api_key_without_a_project_uses_the_express_endpoint() {
    let url = build_endpoint("global", VertexAuth::ApiKey, None, "gemini-test").unwrap();
    assert_eq!(url, "https://aiplatform.googleapis.com/v1/publishers/google/models/gemini-test:generateContent");
    assert!(!url.contains("/projects/"));
    assert!(!url.contains("/locations/"));
}

#[test]
fn bearer_auth_without_a_project_is_an_error_not_a_bad_url() {
    assert!(build_endpoint("global", VertexAuth::AccessToken, None, "gemini-test").is_err());
    assert!(build_endpoint("global", VertexAuth::GcloudCli, None, "gemini-test").is_err());
}

#[test]
fn api_key_ignores_a_configured_project() {
    let url = build_endpoint("us-central1", VertexAuth::ApiKey, Some("my-project"), "gemini-test").unwrap();
    assert!(!url.contains("/projects/"));
    assert!(!url.contains("/locations/"));
}

#[test]
fn a_blank_location_means_global() {
    let url = build_endpoint("  ", VertexAuth::AccessToken, Some("p"), "m").unwrap();
    assert_eq!(url, "https://aiplatform.googleapis.com/v1/projects/p/locations/global/publishers/google/models/m:generateContent");
}

#[test]
fn parses_text_and_usage() {
    let (t, u) = parse_generate_content(Ok(reply(vec![part("hello")], Some("STOP"), usage(10, 5, None, Some(15))))).unwrap();
    assert_eq!(t, "hello");
    assert_eq!(u.input_tokens, 10);
    assert_eq!(u.output_tokens, 5);
    assert_eq!(u.total_tokens, 15);
}

#[test]
fn counts_thinking_tokens_as_output() {
    let (_, u) = parse_generate_content(Ok(reply(vec![part("ok")], None, usage(10, 5, Some(100), Some(115))))).unwrap();
    assert_eq!(u.output_tokens, 105, "reasoning tokens must not be dropped");
}

#[test]
fn a_missing_total_is_input_plus_output() {
    let (_, u) = parse_generate_content(Ok(reply(vec![part("ok")], None, usage(7, 2, Some(1), None)))).unwrap();
    assert_eq!(u.total_tokens, 10);
    let (_, u) = parse_generate_content(Ok(reply(vec![part("ok")], None, None))).unwrap();
    assert_eq!((u.input_tokens, u.output_tokens, u.total_tokens), (0, 0, 0));
}

#[test]
fn skips_thought_parts_when_joining_text() {
    let parts = vec![
        ContentPart { text: Some("internal musing".into()), thought: Some(true) },
        part("{\"answer\": 1}"),
    ];
    let (t, _) = parse_generate_content(Ok(reply(parts, None, None))).unwrap();
    assert_eq!(t, "{\"answer\": 1}");
}

#[test]
fn concatenates_multiple_text_parts() {
    let (t, _) = parse_generate_content(Ok(reply(vec![part("{\"a\":"), part("1}")], None, None))).unwrap();
    assert_eq!(t, "{\"a\":1}");
}

#[test]
fn blocked_prompt_is_malformed_with_reason() {
    let r = GenerateReply { usage: None, first_candidate: None, block_reason: Some("SAFETY".into()) };
    let e = parse_generate_content(Ok(r)).unwrap_err();
    assert!(matches!(e, LlmError::Malformed(ref m) if m.contains("SAFETY")));
    let r = GenerateReply { usage: None, first_candidate: None, block_reason: None };
    assert_eq!(
        parse_generate_content(Ok(r)).unwrap_err(),
        LlmError::Malformed("no candidate returned (no candidates in response)".into())
    );
}

#[test]
fn truncated_generation_is_reported_clearly() {
    let e = parse_generate_content(Ok(reply(vec![part("{\"partial\":")], Some("MAX_TOKENS"), None))).unwrap_err();
    assert!(matches!(e, LlmError::Malformed(ref m) if m.contains("truncated")));
}

#[test]
fn empty_candidate_text_is_malformed() {
    assert!(parse_generate_content(Ok(reply(vec![part("   ")], None, None))).is_err());
}

#[test]
fn non_json_body_is_malformed_not_a_panic() {
    let e = parse_generate_content(Err("expected value at line 1 column 1".into())).unwrap_err();
    assert_eq!(e, LlmError::Malformed("response was not JSON: expected value at line 1 column 1".into()));
}

#[test]
fn truncate_respects_char_boundaries() {
    let s = "aa\u{e9}\u{e9}\u{e9}bbbb";
    let t = truncate(s, 4);
    assert!(t.starts_with("aa"));
    assert!(t.contains("more chars"));
    assert_eq!(t, "aa\u{e9}... [8 more chars]");
    assert_eq!(truncate(s, 5), "aa\u{e9}... [8 more chars]");
    assert_eq!(truncate("short", 800), "short");
}

#[test]
fn backoff_doubles_and_is_capped() {
    assert_eq!(backoff_ms(1), 500);
    assert_eq!(backoff_ms(2), 1000);
    assert_eq!(backoff_ms(5), 8000);
    assert_eq!(backoff_ms(9), 8000);
}

#[test]
fn a_failed_attempt_is_retried_only_while_retries_remain_and_only_when_retryable() {
    let timeout = LlmError::Timeout(30);
    assert_eq!(retry_delay(&timeout, 1, 2), Some(500));
    assert_eq!(retry_delay(&timeout, 2, 2), Some(1000));
    assert_eq!(retry_delay(&timeout, 3, 2), None);
    assert_eq!(retry_delay(&timeout, 1, 0), None);
    let client_error = LlmError::Status { status: 400, body: "bad request".into() };
    assert_eq!(retry_delay(&client_error, 1, 5), None);
    let server_error = LlmError::Status { status: 503, body: "unavailable".into() };
    assert_eq!(retry_delay(&server_error, 6, 9), Some(8000));
}

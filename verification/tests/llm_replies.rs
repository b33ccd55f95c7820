use verified_code_reviewer::llm::mock::MockClient;
use verified_code_reviewer::llm::{
    extract_json, json_candidate_texts, strip_trailing_commas, LlmError, Stage, Usage,
};

#[test]
fn parses_bare_json() {
    let v = extract_json(r#"{"a":1}"#).unwrap();
    assert_eq!(v["a"], 1);
}

#[test]
fn parses_fenced_json() {
    let v = extract_json("```json\n{\"a\": 2}\n```").unwrap();
    assert_eq!(v["a"], 2);
}

#[test]
fn parses_unlabelled_fence() {
    let v = extract_json("```\n[1,2,3]\n```").unwrap();
    assert_eq!(v[2], 3);
}

#[test]
fn parses_json_surrounded_by_prose() {
    let v = extract_json("Here is my answer:\n{\"ok\": true}\nHope that helps!").unwrap();
    assert_eq!(v["ok"], true);
}

#[test]
fn ignores_braces_inside_strings() {
    let v = extract_json(r#"prefix {"msg": "a } b", "n": 1} suffix"#).unwrap();
    assert_eq!(v["msg"], "a } b");
    assert_eq!(v["n"], 1);
}

#[test]
fn ignores_escaped_quotes_inside_strings() {
    let v = extract_json(r#"{"msg": "she said \"hi }\"", "n": 2}"#).unwrap();
    assert_eq!(v["n"], 2);
}

#[test]
fn repairs_a_trailing_comma_before_a_brace() {
    let v = extract_json(r#"{"findings": [{"a": 1, "b": 2,}]}"#).unwrap();
    assert_eq!(v["findings"][0]["b"], 2);
}

#[test]
fn repairs_a_trailing_comma_before_a_bracket() {
    let v = extract_json(r#"{"xs": [1, 2, 3,]}"#).unwrap();
    assert_eq!(v["xs"][2], 3);
}

#[test]
fn repairs_trailing_commas_inside_a_code_fence() {
    let v = extract_json(
        "```json
{\"a\": [1,],}
```",
    )
    .unwrap();
    assert_eq!(v["a"][0], 1);
}

#[test]
fn comma_repair_leaves_commas_inside_strings_alone() {
    let v = extract_json(r#"{"claim": "first, second, third", "n": 1}"#).unwrap();
    assert_eq!(v["claim"], "first, second, third");
}

#[test]
fn comma_repair_does_not_touch_a_comma_before_a_brace_inside_a_string() {
    let v = extract_json(r#"{"claim": "ends with ,}", "n": 2}"#).unwrap();
    assert_eq!(v["claim"], "ends with ,}");
    assert_eq!(v["n"], 2);
}

#[test]
fn comma_repair_does_not_rescue_genuinely_broken_json() {
    assert!(extract_json(r#"{"a": 1, "b": [1,2"#).is_err());
    assert!(extract_json("not json at all").is_err());
}

#[test]
fn malformed_response_is_an_error_not_a_panic() {
    let e = extract_json("I'm sorry, I cannot help with that.").unwrap_err();
    assert!(matches!(e, LlmError::Malformed(_)));
    assert!(e.is_retryable());
}

#[test]
fn empty_response_is_malformed() {
    assert!(extract_json("").is_err());
}

#[test]
fn truncated_json_is_malformed_not_partially_accepted() {
    assert!(extract_json(r#"{"a": 1, "b": [1,2"#).is_err());
}

#[test]
fn the_malformed_message_says_how_the_reply_starts() {
    match extract_json("  nope  ") {
        Err(LlmError::Malformed(m)) => {
            assert_eq!(m, "no JSON value found in response of 8 chars; starts with: \"nope\"")
        }
        other => panic!("unexpected {other:?}"),
    }
}

#[test]
fn candidates_are_tried_in_a_fixed_order() {
    let c = json_candidate_texts(" ```json\n{\"a\": [1,],}\n``` ");
    assert_eq!(
        c,
        vec![
            "```json\n{\"a\": [1,],}\n```".to_string(),
            "{\"a\": [1,],}".to_string(),
            "{\"a\": [1,],}".to_string(),
            "```json\n{\"a\": [1]}\n```".to_string(),
            "{\"a\": [1]}\n".to_string(),
            "{\"a\": [1]}".to_string(),
        ]
    );
    assert_eq!(strip_trailing_commas("[1 ,\n ]"), "[1 \n ]");
    assert_eq!(strip_trailing_commas("\"a,]\" ,x"), "\"a,]\" ,x");
}

#[test]
fn client_errors_are_not_retried() {
    for status in [400u16, 401, 403, 404] {
        let e = LlmError::Status {
            status,
            body: String::new(),
        };
        assert!(!e.is_retryable(), "status {status} must not be retried");
    }
}

#[test]
fn server_errors_are_retried() {
    for status in [500u16, 502, 503] {
        let e = LlmError::Status {
            status,
            body: String::new(),
        };
        assert!(e.is_retryable(), "status {status} should be retryable");
    }
}

#[test]
fn rate_limiting_is_retryable_and_carries_the_providers_advice() {
    let e = LlmError::RateLimited {
        retry_after_secs: Some(17),
        body: String::new(),
    };
    assert!(e.is_retryable());
    assert_eq!(
        e.retry_after().map(std::time::Duration::from_secs),
        Some(std::time::Duration::from_secs(17))
    );

    let e = LlmError::RateLimited {
        retry_after_secs: None,
        body: String::new(),
    };
    assert!(e.is_retryable());
    assert!(e.retry_after().is_none());
}

#[test]
fn usage_accumulates() {
    let mut u = Usage::default();
    u.add(&Usage {
        input_tokens: 3,
        output_tokens: 4,
        total_tokens: 7,
    });
    u.add(&Usage {
        input_tokens: 1,
        output_tokens: 1,
        total_tokens: 2,
    });
    assert_eq!(
        u,
        Usage {
            input_tokens: 4,
            output_tokens: 5,
            total_tokens: 9
        }
    );
}

#[test]
fn every_stage_returns_parseable_json() {
    let mut c = MockClient::new();
    for stage in [Stage::Review, Stage::Investigate, Stage::Falsify, Stage::Verify] {
        let r = c.respond(stage);
        extract_json(&r.text).expect("mock output must parse");
        assert_eq!(r.usage, Usage::default());
        assert_eq!(r.model, "mock");
    }
}

#[test]
fn a_script_is_consumed_in_order_then_falls_back() {
    let mut c = MockClient::scripted(vec![(
        Stage::Verify,
        vec![r#"{"outcome":"Contradicts"}"#.to_string()],
    )]);
    let first = c.respond(Stage::Verify);
    assert!(first.text.contains("Contradicts"));
    assert_eq!(first.model, "mock-scripted");
    let second = c.respond(Stage::Verify);
    assert!(second.text.contains("Insufficient"));
}

#[test]
fn an_unscripted_stage_uses_its_default() {
    let mut c = MockClient::scripted(vec![(Stage::Verify, vec![r#"{"outcome":"Supports"}"#.to_string()])]);
    let r = c.respond(Stage::Review);
    assert!(r.text.contains("findings"));
}

#[test]
fn errors_read_as_sentences() {
    assert_eq!(verified_code_reviewer::llm::LlmError::Timeout(30).message(), "request timed out after 30s");
    assert_eq!(
        verified_code_reviewer::llm::LlmError::RateLimited { retry_after_secs: Some(7), body: "b".into() }.message(),
        "rate limited by the provider (retry after 7s)"
    );
    assert_eq!(verified_code_reviewer::llm::LlmError::RateLimited { retry_after_secs: None, body: "b".into() }.message(), "rate limited by the provider");
    assert_eq!(
        verified_code_reviewer::llm::LlmError::Status { status: 503, body: "busy".into() }.message(),
        "provider returned status 503: busy"
    );
    assert_eq!(verified_code_reviewer::llm::LlmError::Malformed("x".into()).message(), "response could not be parsed: x");
    assert_eq!(verified_code_reviewer::llm::LlmError::Transport("reset".into()).message(), "transport error: reset");
}

use verified_code_reviewer::config::Ablation;
use verified_code_reviewer::llm::{LlmResponse, Stage, Usage};
use verified_code_reviewer::trajectory::{scrub, AgentKind, Trajectory, TrajectoryEvent};

fn traj_for(agent: AgentKind, ablation: Ablation) -> Trajectory {
    Trajectory::new(
        "id-1".to_string(),
        "c01",
        agent,
        "mock",
        "2026-01-01T00:00:00Z".to_string(),
        ablation,
    )
}

fn traj() -> Trajectory {
    traj_for(AgentKind::Baseline, Ablation::Full)
}

fn resp(input: u64, output: u64, attempts: u32) -> LlmResponse {
    LlmResponse {
        text: "{}".into(),
        usage: Usage { input_tokens: input, output_tokens: output, total_tokens: input + output },
        latency_ms: 5,
        attempts,
        model: "mock".into(),
    }
}

#[test]
fn accumulates_usage_across_calls() {
    let mut t = traj();
    t.record_call(Stage::Review, "v1", "s", "u", &resp(100, 50, 1));
    t.record_call(Stage::Verify, "v1", "s", "u", &resp(200, 25, 1));
    assert_eq!(t.usage.input_tokens, 300);
    assert_eq!(t.usage.output_tokens, 75);
    assert_eq!(t.usage.total_tokens, 375);
    assert_eq!(t.llm_calls, 2);
}

#[test]
fn counts_retries_as_attempts_beyond_the_first() {
    let mut t = traj();
    t.record_call(Stage::Review, "v1", "s", "u", &resp(1, 1, 3));
    t.record_call(Stage::Review, "v1", "s", "u", &resp(1, 1, 1));
    assert_eq!(t.retries, 2);
}

#[test]
fn failures_are_recorded_and_counted() {
    let mut t = traj();
    t.record_failure(Stage::Review, "v1", "boom", 4);
    assert_eq!(t.llm_calls, 1);
    assert_eq!(t.retries, 3);
    assert!(matches!(t.events[0], TrajectoryEvent::LlmFailure { .. }));
}

#[test]
fn a_failure_is_stored_scrubbed() {
    let mut t = traj();
    t.record_failure(Stage::Verify, "v2", "denied for key AIzaSyC0ffee123456\n", 1);
    match &t.events[0] {
        TrajectoryEvent::LlmFailure { error, attempts, .. } => {
            assert_eq!(error, "denied for key [REDACTED] ");
            assert_eq!(*attempts, 1);
        }
        _ => panic!("expected a failure event"),
    }
    assert_eq!(t.retries, 0);
}

#[test]
fn tool_calls_are_counted() {
    let mut t = traj();
    t.push(TrajectoryEvent::ToolCall {
        tool_call_id: "t1".into(),
        candidate_id: "p1".into(),
        tool: "search".into(),
        arguments: serde_json::Value::Null,
        response: "src/a.rs:12".into(),
        ok: true,
        duration_ms: 3,
    });
    assert_eq!(t.tool_calls, 1);
    assert_eq!(t.llm_calls, 0);
}

#[test]
fn notes_and_checkpoints_count_nothing() {
    let mut t = traj();
    t.push(TrajectoryEvent::HumanCheckpoint { note: "human reviews findings".into() });
    t.push(TrajectoryEvent::Note { note: "n".into() });
    assert_eq!(t.events.len(), 2);
    assert_eq!((t.llm_calls, t.tool_calls, t.retries), (0, 0, 0));
}

#[test]
fn writes_a_predictable_filename() {
    let mut t = traj();
    t.finish(vec![], 1, "2026-01-01T00:00:01Z".to_string());
    assert_eq!(t.file_name(), "c01-baseline.json");
    assert_eq!(t.runtime_ms, 1);
}

#[test]
fn an_ablation_run_writes_under_its_own_arm_name() {
    let t = traj_for(AgentKind::Advanced, Ablation::NoFalsification);
    assert_eq!(t.arm(), "advanced-no-falsification");
    assert_eq!(t.file_name(), "c01-advanced-no-falsification.json");
}

#[test]
fn a_full_run_keeps_the_plain_agent_name() {
    let t = traj_for(AgentKind::Advanced, Ablation::Full);
    assert_eq!(t.arm(), "advanced");
}

#[test]
fn agent_kinds_are_named_in_lower_case() {
    assert_eq!(AgentKind::Baseline.as_str(), "baseline");
    assert_eq!(AgentKind::Advanced.as_str(), "advanced");
}

#[test]
fn scrub_redacts_api_key_shapes() {
    let s = scrub("error: key AIzaSyC0ffee123456 was rejected");
    assert!(!s.contains("AIzaSyC0ffee123456"));
    assert!(s.contains("[REDACTED]"));
    assert_eq!(s, "error: key [REDACTED] was rejected");
}

#[test]
fn scrub_redacts_bearer_tokens() {
    assert!(!scrub("Authorization ya29.a0AfH6SMBxxxx").contains("ya29."));
    assert_eq!(scrub("Authorization ya29.a0AfH6SMBxxxx"), "Authorization [REDACTED]");
}

#[test]
fn scrub_keeps_ordinary_prose_intact() {
    let s = "the unwrap on line 42 of src/parser.rs can panic";
    assert_eq!(scrub(s), s);
}

#[test]
fn scrub_redacts_long_opaque_tokens_only() {
    let long = "a".repeat(41);
    assert_eq!(scrub(&format!("x {long}\ty")), "x [REDACTED] y");
    let forty = "b".repeat(40);
    assert_eq!(scrub(&format!("x {forty}")), format!("x {forty}"));
    assert_eq!(scrub("sk-abc  two"), "[REDACTED]  two");
    assert_eq!(scrub(""), "");
}

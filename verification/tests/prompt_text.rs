use verified_code_reviewer::finding::IssueType;
use verified_code_reviewer::prompts::{
    advanced_schema, advanced_system, baseline_schema, baseline_system, falsify_system,
    falsify_user, investigate_system, investigate_user, issue_type_list, review_user,
    verify_system, verify_user, ADVANCED_REVIEW_V, BASELINE_REVIEW_V, FALSIFY_V, INVESTIGATE_V,
    VERIFY_V,
};

#[test]
fn schema_lists_every_issue_type() {
    for s in [baseline_schema(), advanced_schema()] {
        for t in IssueType::all() {
            assert!(s.contains(t.as_str()), "schema omits {}", t.as_str());
        }
    }
}

#[test]
fn baseline_and_advanced_share_the_output_contract() {
    let shape = [
        "\"issue_type\"",
        "\"severity\"",
        "\"file\"",
        "\"start_line\"",
        "\"end_line\"",
        "\"claim\"",
        "\"reasoning\"",
    ];
    for prompt in [baseline_system("Rust"), advanced_system("Rust")] {
        for field in shape {
            assert!(prompt.contains(field), "missing {field} from the contract");
        }
        for t in IssueType::all() {
            assert!(prompt.contains(t.as_str()), "missing issue type {}", t.as_str());
        }
    }
}

#[test]
fn only_the_baseline_is_told_that_silence_is_correct() {
    assert!(baseline_system("Rust").contains(
        "An empty
result is a correct answer"
    ));
    assert!(!advanced_system("Rust").contains("is a correct answer"));
    assert!(advanced_system("Rust").contains("Under-proposing is the expensive mistake"));
}

#[test]
fn verifier_prompt_never_mentions_the_reviewer() {
    let s = verify_system().to_lowercase();
    for leak in [
        "review",
        "candidate",
        "previous",
        "earlier",
        "your finding",
    ] {
        assert!(!s.contains(leak), "verifier prompt leaks context: {leak}");
    }
}

#[test]
fn verifier_user_message_carries_no_reviewer_reasoning() {
    let u = verify_user("c", "src/a.rs:1", "q", "e");
    assert!(!u.to_lowercase().contains("reasoning"));
}

#[test]
fn investigate_prompt_states_the_call_budget() {
    assert!(investigate_system(5).contains("up to 5 tool calls"));
}

#[test]
fn review_prompts_contain_no_benchmark_specific_tells() {
    let tells = [
        "unwrap",
        "index",
        "out of bounds",
        "deadlock",
        "shard",
        "session",
        "counter",
        "heartbeat",
        "pool",
    ];
    for prompt in [baseline_system("Rust"), advanced_system("Rust")] {
        let lower = prompt.to_lowercase();
        for tell in tells {
            assert!(
                !lower.contains(tell),
                "review prompt leaks a case-specific tell: {tell:?}"
            );
        }
    }
}

#[test]
fn the_verifier_judges_defects_not_sentences() {
    let s = verify_system();
    assert!(s.contains("A true statement is not automatically a defect"));
    assert!(s.contains("what goes wrong, and for whom"));
}

#[test]
fn candidates_cover_calls_whose_definition_is_not_visible() {
    let s = advanced_system("Rust");
    assert!(s.contains("whose definition you"));
    assert!(s.contains("A guard is only as good as"));
}

#[test]
fn candidates_must_name_a_consequence() {
    let s = advanced_system("Rust");
    assert!(s.contains("must name a consequence"));
}

#[test]
fn the_verifier_distinguishes_checkable_comments_from_external_facts() {
    let s = verify_system();
    assert!(s.contains("Weigh comments by whether the repository could check them"));
    assert!(s.contains("Go and look at the call sites"));
    assert!(s.contains("A comment stating a fact from outside the repository"));
    assert!(s.contains("best available evidence"));
}

#[test]
fn the_falsification_question_targets_usage_not_mechanism() {
    let s = falsify_system();
    assert!(s.contains("ask about the call sites by") || s.contains("call sites by name"));
    assert!(s.contains("Never make a comment the answer"));
}

#[test]
fn the_reviewer_addresses_itself_in_the_case_language() {
    assert!(baseline_system("Python").contains("experienced Python engineer"));
    assert!(advanced_system("Python").contains("experienced Python engineer"));
    assert!(baseline_system("Rust").contains("experienced Rust engineer"));
}

#[test]
fn the_verifier_is_language_neutral() {
    let s = verify_system();
    assert!(!s.contains("Rust"));
    assert!(!s.contains("Python"));
}

#[test]
fn prompt_versions_are_distinct() {
    let vs = [
        BASELINE_REVIEW_V,
        ADVANCED_REVIEW_V,
        INVESTIGATE_V,
        FALSIFY_V,
        VERIFY_V,
    ];
    let unique: std::collections::HashSet<_> = vs.iter().collect();
    assert_eq!(unique.len(), vs.len());
}

#[test]
fn the_taxonomy_is_one_line_per_type() {
    let l = issue_type_list();
    assert_eq!(l.lines().count(), 9);
    assert!(l.starts_with("  - Correctness\n  - ErrorHandling"));
    assert!(l.ends_with("  - Performance"));
}

#[test]
fn messages_carry_their_parts_in_order() {
    let u = review_user("DESC", "DIFF", "CTX");
    assert_eq!(
        u,
        "## Change under review\n\nDESC\n\n## Diff\n\n```diff\nDIFF\n```\n\n## Current contents of the changed files\n\nCTX"
    );
    let f = falsify_user("C", "L", "R");
    assert!(f.starts_with("Claim: C\nLocation: L\n"));
    assert!(f.contains("reasoning: R\n\nWhat evidence would prove this claim wrong?"));
    let i = investigate_user("C", "L", "Q", "D", "H", Some("GAP"), None);
    assert!(i.contains("> GAP"));
    assert!(!i.contains("Already looked up"));
    assert!(i.ends_with("## Investigation so far\n\nH\n\nWhat is your next step?"));
    let i = investigate_user("C", "L", "Q", "D", "H", None, Some("MEM"));
    assert!(i.contains("They are lookups, not conclusions.\n\nMEM\n"));
}

use verified_code_reviewer::agent::advanced::{
    concrete_evidence_count, decide, deduplicate_candidates, default_question, render_evidence,
    seed_claimed_region, settled_questions, CaseMemory,
};
use verified_code_reviewer::agent::{build_file_context, number_lines};
use verified_code_reviewer::config::{default_second_looks, Ablation};
use verified_code_reviewer::finding::{
    CandidateFinding, Evidence, EvidenceKind, Finding, FindingStatus, IssueType, Location,
    Severity, VerificationOutcome, VerificationResult,
};
use verified_code_reviewer::prompts;

fn candidate(file: &str) -> CandidateFinding {
    CandidateFinding {
        id: "p1".into(),
        issue_type: IssueType::Correctness,
        severity: Severity::Medium,
        location: Location::new(file, 1, 1),
        claim: "something is wrong".into(),
        reasoning: "because".into(),
    }
}

fn concrete(kind: EvidenceKind) -> Evidence {
    Evidence {
        kind,
        file: Some("src/lib.rs".into()),
        start_line: Some(1),
        end_line: Some(1),
        symbol: None,
        excerpt: "fn a() {}".into(),
        tool_call_id: "t1".into(),
    }
}

fn verdict(outcome: VerificationOutcome) -> VerificationResult {
    VerificationResult {
        outcome,
        rationale: "r".into(),
        decisive_evidence: vec![],
    }
}

#[test]
fn supports_with_evidence_is_verified() {
    let (s, _) = decide(
        &candidate("src/lib.rs"),
        &[concrete(EvidenceKind::FileRegion)],
        Some(&verdict(VerificationOutcome::Supports)),
        true,
    );
    assert_eq!(s, FindingStatus::Verified);
}

#[test]
fn supports_without_evidence_is_downgraded_to_uncertain() {
    let (s, reason) = decide(
        &candidate("src/lib.rs"),
        &[],
        Some(&verdict(VerificationOutcome::Supports)),
        true,
    );
    assert_eq!(s, FindingStatus::Uncertain);
    assert!(reason.contains("not a verification"));
}

#[test]
fn the_seeded_claimed_region_does_not_satisfy_the_evidence_gate() {
    let (s, _) = decide(
        &candidate("src/lib.rs"),
        &[concrete(EvidenceKind::DiffHunk)],
        Some(&verdict(VerificationOutcome::Supports)),
        true,
    );
    assert_eq!(s, FindingStatus::Uncertain);
}

#[test]
fn seeded_region_plus_an_investigation_finding_does_satisfy_the_gate() {
    let (s, reason) = decide(
        &candidate("src/lib.rs"),
        &[concrete(EvidenceKind::DiffHunk), concrete(EvidenceKind::Search)],
        Some(&verdict(VerificationOutcome::Supports)),
        true,
    );
    assert_eq!(s, FindingStatus::Verified);
    assert!(reason.ends_with("backed by 1 repository evidence item(s)"));
}

#[test]
fn seeded_region_covers_the_claim_with_context() {
    let body: String = (1..=100).map(|i| format!("line {i}\n")).collect();
    let mut c = candidate("src/lib.rs");
    c.location = Location::new("src/lib.rs", 50, 50);
    let e = seed_claimed_region(Some(&body), &c).unwrap();
    assert_eq!(e.kind, EvidenceKind::DiffHunk);
    assert_eq!(e.start_line, Some(35));
    assert_eq!(e.end_line, Some(65));
    assert!(e.excerpt.contains("line 50"));
    assert!(e.excerpt.starts_with("   35 | line 35\n"));
    assert!(e.excerpt.ends_with("   65 | line 65"));
    assert_eq!(e.tool_call_id, "p1-claimed-region");
}

#[test]
fn seeded_region_clamps_at_the_file_boundaries() {
    let mut c = candidate("src/lib.rs");
    c.location = Location::new("src/lib.rs", 1, 1);
    let e = seed_claimed_region(Some("fn a() {}\n"), &c).unwrap();
    assert_eq!(e.start_line, Some(1));
    assert_eq!(e.end_line, Some(1));
}

#[test]
fn seeded_region_is_none_for_a_path_outside_the_sandbox() {
    assert!(seed_claimed_region(None, &candidate("../../secrets.txt")).is_none());
    assert!(seed_claimed_region(Some(""), &candidate("src/lib.rs")).is_none());
}

#[test]
fn a_directory_listing_does_not_count_as_evidence() {
    let listing = Evidence {
        kind: EvidenceKind::FileList,
        file: Some("src/lib.rs".into()),
        start_line: None,
        end_line: None,
        symbol: None,
        excerpt: "src/lib.rs".into(),
        tool_call_id: "t1".into(),
    };
    let (s, _) = decide(
        &candidate("src/lib.rs"),
        &[listing],
        Some(&verdict(VerificationOutcome::Supports)),
        true,
    );
    assert_eq!(s, FindingStatus::Uncertain);
}

#[test]
fn empty_excerpt_does_not_count_as_evidence() {
    let mut e = concrete(EvidenceKind::Search);
    e.excerpt = "   ".into();
    assert_eq!(concrete_evidence_count(&[e.clone()]), 0);
    let (s, _) = decide(
        &candidate("src/lib.rs"),
        &[e],
        Some(&verdict(VerificationOutcome::Supports)),
        true,
    );
    assert_eq!(s, FindingStatus::Uncertain);
}

#[test]
fn contradicts_is_rejected() {
    let (s, reason) = decide(
        &candidate("src/lib.rs"),
        &[concrete(EvidenceKind::Search)],
        Some(&verdict(VerificationOutcome::Contradicts)),
        true,
    );
    assert_eq!(s, FindingStatus::Rejected);
    assert_eq!(
        reason,
        "fresh-context verification found the evidence contradicts the claim (1 repository evidence item(s))"
    );
}

#[test]
fn insufficient_is_uncertain() {
    let (s, _) = decide(
        &candidate("src/lib.rs"),
        &[concrete(EvidenceKind::Search)],
        Some(&verdict(VerificationOutcome::Insufficient)),
        true,
    );
    assert_eq!(s, FindingStatus::Uncertain);
}

#[test]
fn a_missing_verdict_is_uncertain_never_verified() {
    let (s, _) = decide(
        &candidate("src/lib.rs"),
        &[concrete(EvidenceKind::FileRegion)],
        None,
        true,
    );
    assert_eq!(s, FindingStatus::Uncertain);
}

#[test]
fn a_finding_at_a_nonexistent_path_is_rejected() {
    let (s, reason) = decide(
        &candidate("src/does_not_exist.rs"),
        &[concrete(EvidenceKind::FileRegion)],
        Some(&verdict(VerificationOutcome::Supports)),
        false,
    );
    assert_eq!(s, FindingStatus::Rejected);
    assert!(reason.contains("does not exist"));
}

#[test]
fn a_finding_pointing_outside_the_sandbox_is_rejected() {
    let (s, _) = decide(
        &candidate("../../../etc/passwd"),
        &[concrete(EvidenceKind::FileRegion)],
        Some(&verdict(VerificationOutcome::Supports)),
        false,
    );
    assert_eq!(s, FindingStatus::Rejected);
}

#[test]
fn rendered_evidence_carries_locations() {
    let s = render_evidence(&[concrete(EvidenceKind::Search)]);
    assert!(s.contains("src/lib.rs:1"));
    assert!(s.contains("fn a() {}"));
    assert_eq!(s, "[E1] Search from src/lib.rs:1\nfn a() {}\n\n");
}

#[test]
fn rendered_evidence_says_so_when_empty() {
    assert!(render_evidence(&[]).contains("no evidence"));
}

#[test]
fn the_verifier_is_never_shown_the_reviewer_reasoning() {
    let rendered = render_evidence(&[concrete(EvidenceKind::Search)]);
    let user = prompts::verify_user("claim", "src/lib.rs:1", "question", &rendered);
    assert!(!user.contains("because"), "agent reasoning leaked to the verifier");
}

fn cand(id: &str, ty: IssueType, file: &str, start: u32, end: u32) -> CandidateFinding {
    CandidateFinding {
        id: id.into(),
        issue_type: ty,
        severity: Severity::Medium,
        location: Location::new(file, start, end),
        claim: format!("claim {id}"),
        reasoning: String::new(),
    }
}

#[test]
fn overlapping_same_category_candidates_are_merged() {
    let (kept, merged) = deduplicate_candidates(vec![
        cand("a", IssueType::Validation, "src/order.rs", 26, 30),
        cand("b", IssueType::Validation, "src/order.rs", 28, 32),
    ]);
    assert_eq!(kept.len(), 1);
    assert_eq!(merged.len(), 1);
}

#[test]
fn adjacent_but_non_overlapping_candidates_are_never_merged() {
    let (kept, merged) = deduplicate_candidates(vec![
        cand("name", IssueType::Validation, "src/order.rs", 26, 28),
        cand("notes", IssueType::Validation, "src/order.rs", 30, 32),
    ]);
    assert_eq!(
        kept.len(),
        2,
        "merging these turns two true positives into one true positive and one false negative"
    );
    assert!(merged.is_empty());
}

#[test]
fn candidates_touching_at_a_single_line_are_merged() {
    let (kept, _) = deduplicate_candidates(vec![
        cand("a", IssueType::Correctness, "a.rs", 20, 25),
        cand("b", IssueType::Correctness, "a.rs", 25, 30),
    ]);
    assert_eq!(kept.len(), 1);
}

#[test]
fn candidates_one_line_apart_are_kept_apart() {
    let (kept, _) = deduplicate_candidates(vec![
        cand("a", IssueType::Correctness, "a.rs", 20, 24),
        cand("b", IssueType::Correctness, "a.rs", 25, 30),
    ]);
    assert_eq!(kept.len(), 2);
}

#[test]
fn the_most_specific_claim_survives_a_merge() {
    let (kept, merged) = deduplicate_candidates(vec![
        cand("wide", IssueType::Correctness, "a.rs", 10, 40),
        cand("tight", IssueType::Correctness, "a.rs", 20, 22),
    ]);
    assert_eq!(kept.len(), 1);
    assert_eq!(kept[0].id, "tight", "the narrower range is more actionable");
    assert_eq!(merged, vec![("wide".to_string(), "tight".to_string())]);
}

#[test]
fn different_categories_are_never_merged() {
    let (kept, merged) = deduplicate_candidates(vec![
        cand("a", IssueType::Validation, "a.rs", 10, 12),
        cand("b", IssueType::Concurrency, "a.rs", 10, 12),
    ]);
    assert_eq!(kept.len(), 2);
    assert!(merged.is_empty());
}

#[test]
fn distant_same_category_candidates_are_kept_apart() {
    let (kept, _) = deduplicate_candidates(vec![
        cand("a", IssueType::Testing, "a.rs", 10, 12),
        cand("b", IssueType::Testing, "a.rs", 200, 202),
    ]);
    assert_eq!(kept.len(), 2);
}

#[test]
fn candidates_in_different_files_are_kept_apart() {
    let (kept, _) = deduplicate_candidates(vec![
        cand("a", IssueType::Testing, "a.rs", 10, 12),
        cand("b", IssueType::Testing, "b.rs", 10, 12),
    ]);
    assert_eq!(kept.len(), 2);
}

#[test]
fn deduplication_preserves_a_single_candidate() {
    let (kept, merged) = deduplicate_candidates(vec![cand("a", IssueType::Testing, "a.rs", 1, 1)]);
    assert_eq!(kept.len(), 1);
    assert!(merged.is_empty());
}

#[test]
fn an_equally_wide_newcomer_is_merged_into_the_earlier_one() {
    let (kept, merged) = deduplicate_candidates(vec![
        cand("first", IssueType::Testing, "a.rs", 1, 3),
        cand("second", IssueType::Testing, "a.rs", 2, 4),
    ]);
    assert_eq!(kept[0].id, "first");
    assert_eq!(merged, vec![("second".to_string(), "first".to_string())]);
}

#[test]
fn memory_records_successful_lookups_only() {
    let mut m = CaseMemory::new();
    m.record("search", "{\"pattern\":\"x\"}", "2 matches\nfoo", true);
    m.record("read", "{\"file\":\"missing.rs\"}", "could not read", false);
    let rendered = m.render().unwrap();
    assert!(rendered.contains("search"));
    assert!(!rendered.contains("could not read"), "refusals are not facts");
    assert_eq!(rendered, "search {\"pattern\":\"x\"} -> 2 matches");
}

#[test]
fn memory_does_not_repeat_an_identical_lookup() {
    let mut m = CaseMemory::new();
    for _ in 0..3 {
        m.record("search", "{\"pattern\":\"x\"}", "2 matches", true);
    }
    assert_eq!(m.render().unwrap().lines().count(), 1);
}

#[test]
fn memory_is_empty_until_something_is_looked_up() {
    assert!(CaseMemory::new().render().is_none());
}

#[test]
fn memory_carries_lookups_not_verdicts() {
    let mut m = CaseMemory::new();
    m.record("read", "{\"file\":\"src/router.rs\"}", "src/router.rs lines 1-40 of 80:", true);
    let rendered = m.render().unwrap();
    for word in ["Supports", "Contradicts", "Insufficient", "Verified", "Rejected"] {
        assert!(!rendered.contains(word), "memory carried a judgement: {word}");
    }
}

#[test]
fn default_question_is_used_when_the_model_gives_none() {
    let q = default_question(&candidate("src/lib.rs"));
    assert!(q.contains("false"));
    assert!(q.contains("something is wrong"));
}

#[test]
fn settled_questions_carry_the_reason_a_claim_was_ruled_out() {
    let f = Finding {
        candidate: candidate("src/lib.rs"),
        falsification_question: "q".into(),
        evidence: vec![],
        verification: Some(VerificationResult {
            outcome: VerificationOutcome::Contradicts,
            rationale: "the constructor rejects an empty list".into(),
            decisive_evidence: vec![],
        }),
        status: FindingStatus::Rejected,
        status_reason: "gate said so".into(),
    };
    let rendered = settled_questions(&[f]);
    assert!(
        rendered.contains("the constructor rejects an empty list"),
        "the second look needs the repository fact, not the summary"
    );
    assert!(rendered.contains("src/lib.rs"));
}

#[test]
fn a_reported_finding_is_not_offered_back_as_settled() {
    let mut f = Finding {
        candidate: candidate("src/lib.rs"),
        falsification_question: "q".into(),
        evidence: vec![],
        verification: None,
        status: FindingStatus::Verified,
        status_reason: "ok".into(),
    };
    assert!(settled_questions(&[f.clone()]).is_empty());
    f.status = FindingStatus::Rejected;
    assert!(!settled_questions(&[f]).is_empty());
}

#[test]
fn settled_questions_fall_back_to_the_status_reason() {
    let f = Finding {
        candidate: candidate("src/lib.rs"),
        falsification_question: "q".into(),
        evidence: vec![],
        verification: None,
        status: FindingStatus::Uncertain,
        status_reason: "  no verdict  ".into(),
    };
    assert_eq!(
        settled_questions(&[f.clone(), f]),
        "- **Correctness** at `src/lib.rs:1`\n  Claim: something is wrong\n  Ruled out because: no verdict\n\n- **Correctness** at `src/lib.rs:1`\n  Claim: something is wrong\n  Ruled out because: no verdict"
    );
}

#[test]
fn numbers_lines_from_one() {
    let s = number_lines("a\nb\nc\n", 1, 10);
    assert!(s.starts_with("    1 | a"));
    assert!(s.contains("    3 | c"));
}

#[test]
fn number_lines_respects_start_and_limit() {
    let s = number_lines("a\nb\nc\nd\n", 2, 2);
    assert!(s.contains("    2 | b"));
    assert!(s.contains("    3 | c"));
    assert!(!s.contains("| a"));
    assert!(!s.contains("| d"));
    assert_eq!(s, "    2 | b\n    3 | c\n");
    assert_eq!(number_lines("a\n", 5, 3), "\n");
}

#[test]
fn file_context_numbers_each_file_and_notes_what_was_cut() {
    let files = vec!["a.rs".to_string(), "b.rs".to_string()];
    let reads = vec![Ok("x\ny\nz\n".to_string()), Err("missing".to_string())];
    let s = build_file_context(&files, &reads, 2);
    assert_eq!(
        s,
        "\n### a.rs\n\n```rust\n    1 | x\n    2 | y\n... [1 further lines not shown]\n```\n\n### b.rs\n\n(could not read: missing)\n"
    );
    assert_eq!(build_file_context(&[], &[], 5), "(no changed files could be read)\n");
}

#[test]
fn the_second_look_ships_off() {
    assert_eq!(default_second_looks(), 0);
    assert_eq!(Ablation::Full.suffix(), "");
    assert_eq!(Ablation::NoSecondLook.suffix(), "-no-second-look");
    assert_eq!(Ablation::named("candidates-only"), Some(Ablation::CandidatesOnly));
    assert_eq!(Ablation::named("everything"), None);
}

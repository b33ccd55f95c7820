use verified_code_reviewer::llm::Stage;
use verified_code_reviewer::prompts::investigate_system;
use verified_code_reviewer::agent::flow::{
    ablation_note, baseline_checkpoint_note, candidates_only_finding, checkpoint_note,
    follow_up_budget, follow_up_empty_note, follow_up_note, merge_note, needs_follow_up,
    no_falsification_decision, question_from_reply, restated_note, restates_settled,
    second_look_note, unrecognised_outcome_note, verification_from_reply, wants_second_look,
    Investigation, InvestigationMove, StepReply,
};
use verified_code_reviewer::config::Ablation;
use verified_code_reviewer::finding::{
    CandidateFinding, Evidence, EvidenceKind, Finding, FindingStatus, IssueType, Location,
    Severity, VerificationOutcome, VerificationResult,
};
use verified_code_reviewer::tools::ToolResult;

fn cand(id: &str, ty: IssueType, file: &str, start: u32, end: u32) -> CandidateFinding {
    CandidateFinding {
        id: id.into(),
        issue_type: ty,
        severity: Severity::Medium,
        location: Location::new(file, start, end),
        claim: "the cache is never invalidated".into(),
        reasoning: "r".into(),
    }
}

fn finding(c: CandidateFinding, status: FindingStatus) -> Finding {
    Finding {
        candidate: c,
        falsification_question: "q".into(),
        evidence: vec![],
        verification: None,
        status,
        status_reason: "because".into(),
    }
}

fn region(kind: EvidenceKind) -> Evidence {
    Evidence {
        kind,
        file: Some("src/lib.rs".into()),
        start_line: Some(1),
        end_line: Some(1),
        symbol: None,
        excerpt: "fn a() {}".into(),
        tool_call_id: "t1".into(),
    }
}

#[test]
fn only_an_ablation_run_is_labelled_as_one() {
    assert_eq!(ablation_note(Ablation::Full), None);
    let n = ablation_note(Ablation::NoFollowup).unwrap();
    assert!(n.starts_with("ABLATION: no-followup — this run deliberately disables part of the pipeline"));
    assert!(n.ends_with("not the full system"));
}

#[test]
fn a_merge_is_recorded_with_both_ids() {
    let n = merge_note("c-2", "c-1");
    assert!(n.starts_with("candidate c-2 describes the same defect as c-1 (same category,"));
    assert!(n.ends_with("merged so it is investigated and reported once"));
}

#[test]
fn a_second_look_needs_silence_a_full_run_budget_and_something_investigated() {
    let rejected = vec![finding(cand("a", IssueType::Correctness, "a.rs", 1, 2), FindingStatus::Rejected)];
    let reported = vec![finding(cand("a", IssueType::Correctness, "a.rs", 1, 2), FindingStatus::Verified)];
    assert!(wants_second_look(&rejected, Ablation::Full, 1));
    assert!(!wants_second_look(&reported, Ablation::Full, 1));
    assert!(!wants_second_look(&rejected, Ablation::NoSecondLook, 1));
    assert!(!wants_second_look(&rejected, Ablation::Full, 0));
    assert!(!wants_second_look(&vec![], Ablation::Full, 1));
    assert!(second_look_note(2).starts_with("second look: 2 candidate(s) were investigated and none survived"));
}

#[test]
fn a_second_look_candidate_restating_a_settled_question_is_recognised() {
    let settled = vec![finding(cand("a-1", IssueType::Validation, "src/o.rs", 26, 28), FindingStatus::Rejected)];
    assert!(restates_settled(&settled, &cand("b-1", IssueType::Validation, "src/o.rs", 28, 30)));
    assert!(!restates_settled(&settled, &cand("b-2", IssueType::Validation, "src/o.rs", 29, 30)));
    assert!(!restates_settled(&settled, &cand("b-3", IssueType::Correctness, "src/o.rs", 26, 28)));
    assert!(!restates_settled(&settled, &cand("b-4", IssueType::Validation, "src/p.rs", 26, 28)));
    assert_eq!(
        restated_note(&cand("b-1", IssueType::Validation, "src/o.rs", 28, 30)),
        "second look: b-1 restates a question already settled at src/o.rs:28-30; dropped"
    );
}

#[test]
fn the_checkpoint_counts_each_outcome() {
    let fs = vec![
        finding(cand("a", IssueType::Correctness, "a.rs", 1, 1), FindingStatus::Verified),
        finding(cand("b", IssueType::Correctness, "a.rs", 5, 5), FindingStatus::Rejected),
        finding(cand("c", IssueType::Correctness, "a.rs", 9, 9), FindingStatus::Rejected),
        finding(cand("d", IssueType::Correctness, "a.rs", 12, 12), FindingStatus::Uncertain),
    ];
    let n = checkpoint_note(&fs);
    assert!(n.starts_with("1 verified finding(s) reported for human review; 2 investigated and cleared; 1 left uncertain."));
    assert!(n.ends_with("it does not merge, reject, or modify anything."));
    assert!(baseline_checkpoint_note(3).starts_with("3 finding(s) reported for human review."));
}

#[test]
fn candidates_only_reports_without_investigating() {
    let (f, reason) = candidates_only_finding(cand("a", IssueType::Testing, "a.rs", 1, 1));
    assert_eq!(f.status, FindingStatus::Verified);
    assert!(f.evidence.is_empty());
    assert!(f.verification.is_none());
    assert_eq!(f.status_reason, "ablation candidates-only");
    assert!(reason.starts_with("ablation candidates-only: reported without investigation or"));
}

#[test]
fn the_question_is_the_trimmed_proposal_or_the_default() {
    let c = cand("a", IssueType::Testing, "a.rs", 1, 1);
    let expected = "What evidence in this repository would show that the following claim is false: the cache is never invalidated";
    assert_eq!(question_from_reply(None, &c), expected);
    assert_eq!(question_from_reply(Some("   "), &c), expected);
    assert_eq!(question_from_reply(Some("  who calls invalidate?\n"), &c), "who calls invalidate?");
}

#[test]
fn a_verification_reply_is_read_field_by_field() {
    let decisive = vec![Some("E1".to_string()), None, Some("E3".to_string())];
    let v = verification_from_reply(Some(" Contradicts "), Some("  a caller resets it "), Some(&decisive)).unwrap();
    assert_eq!(v.outcome, VerificationOutcome::Contradicts);
    assert_eq!(v.rationale, "a caller resets it");
    assert_eq!(v.decisive_evidence, vec!["E1".to_string(), "E3".to_string()]);
    let v = verification_from_reply(Some("Supports"), None, None).unwrap();
    assert_eq!(v.rationale, "");
    assert!(v.decisive_evidence.is_empty());
    assert!(verification_from_reply(Some("Probably"), Some("x"), None).is_none());
    assert!(verification_from_reply(None, Some("x"), None).is_none());
}

#[test]
fn an_unrecognised_outcome_is_noted_as_such() {
    assert_eq!(
        unrecognised_outcome_note("c-1", Some(" Maybe ")),
        "verification for c-1 returned an unrecognised outcome Some(\"Maybe\"); treating as no verdict"
    );
    assert_eq!(
        unrecognised_outcome_note("c-1", None),
        "verification for c-1 returned an unrecognised outcome None; treating as no verdict"
    );
}

#[test]
fn without_falsification_concrete_evidence_is_enough_to_report() {
    let (s, r) = no_falsification_decision(&[region(EvidenceKind::Search), region(EvidenceKind::DiffHunk)]);
    assert_eq!(s, FindingStatus::Verified);
    assert!(r.starts_with("ablation no-falsification: reported on 1 evidence item(s),"));
    assert!(r.ends_with("unadjudicated"));
    let (s, r) = no_falsification_decision(&[region(EvidenceKind::DiffHunk)]);
    assert_eq!(s, FindingStatus::Uncertain);
    assert_eq!(r, "ablation no-falsification: investigation returned no evidence");
}

#[test]
fn only_an_insufficient_judgment_triggers_a_follow_up() {
    let v = |o| VerificationResult { outcome: o, rationale: "gap".into(), decisive_evidence: vec![] };
    let insufficient = v(VerificationOutcome::Insufficient);
    assert!(needs_follow_up(Some(&insufficient), 1, Ablation::Full));
    assert!(!needs_follow_up(Some(&insufficient), 0, Ablation::Full));
    assert!(!needs_follow_up(Some(&insufficient), 1, Ablation::NoFollowup));
    assert!(!needs_follow_up(Some(&v(VerificationOutcome::Supports)), 1, Ablation::Full));
    assert!(!needs_follow_up(None, 1, Ablation::Full));
    assert_eq!(follow_up_budget(8), 4);
    assert_eq!(follow_up_budget(2), 2);
    assert_eq!(follow_up_note("c-1"), "c-1: verification was Insufficient; re-investigating against the stated gap");
    assert!(follow_up_empty_note("c-1").starts_with("c-1: follow-up investigation found nothing further"));
}

#[test]
fn an_investigation_runs_tools_until_done_and_keeps_their_evidence() {
    let mut inv = Investigation::start("c-1", "", 3, Some(region(EvidenceKind::DiffHunk)));
    assert_eq!(inv.history_text(), "(nothing yet)");
    assert!(matches!(inv.next(), InvestigationMove::Ask));
    match inv.on_reply(StepReply::Tool("read".into())) {
        InvestigationMove::Run { tool, tool_call_id } => {
            assert_eq!(tool, "read");
            assert_eq!(tool_call_id, "c-1-t1");
        }
        _ => panic!("expected a tool run"),
    }
    inv.on_tool_result(
        "read",
        "{\"file\":\"src/lib.rs\"}",
        ToolResult { ok: true, text: "src/lib.rs lines 1-1 of 1:".into(), evidence: vec![region(EvidenceKind::FileRegion)] },
    );
    assert_eq!(inv.step, 1);
    assert_eq!(inv.evidence.len(), 2);
    assert_eq!(inv.history_text(), "\n--- step 1 : read {\"file\":\"src/lib.rs\"} ---\nsrc/lib.rs lines 1-1 of 1:\n");
    assert!(matches!(inv.on_reply(StepReply::Done), InvestigationMove::Stop { note: None }));
    assert!(matches!(inv.next(), InvestigationMove::Stop { note: None }));
}

#[test]
fn an_investigation_stops_on_an_unusable_reply_or_a_spent_budget() {
    let mut inv = Investigation::start("c-2", "f", 1, None);
    match inv.on_reply(StepReply::Tool("search".into())) {
        InvestigationMove::Run { tool_call_id, .. } => assert_eq!(tool_call_id, "c-2-ft1"),
        _ => panic!("expected a tool run"),
    }
    inv.on_tool_result("search", "{}", ToolResult { ok: false, text: "no matches for \"x\"".into(), evidence: vec![] });
    assert!(matches!(inv.next(), InvestigationMove::Stop { note: None }), "the budget of one is spent");

    let mut inv = Investigation::start("c-3", "", 4, None);
    match inv.on_reply(StepReply::Unparseable) {
        InvestigationMove::Stop { note: Some(n) } => {
            assert_eq!(n, "investigation step 1 for c-3: unparseable response, stopping")
        }
        _ => panic!("expected a stop"),
    }
    let mut inv = Investigation::start("c-4", "", 4, None);
    match inv.on_reply(StepReply::NoTool) {
        InvestigationMove::Stop { note: Some(n) } => {
            assert_eq!(n, "investigation step 1 for c-4: no tool named and not done, stopping")
        }
        _ => panic!("expected a stop"),
    }
    let mut inv = Investigation::start("c-5", "", 0, None);
    assert!(matches!(inv.next(), InvestigationMove::Stop { note: None }));
    inv.on_failure();
    assert!(inv.stopped);
}

#[test]
fn an_investigation_step_asks_with_the_pass_budget_and_the_history() {
    let inv = Investigation::start("c-1", "", 6, None);
    let req = inv.request("the cache is never invalidated", "src/a.rs:1-2", "q", "diff", Some("gap"), None);
    assert_eq!(req.stage, Stage::Investigate);
    assert!(req.json_mode);
    assert_eq!(req.system, investigate_system(6));
    assert!(req.user.contains("(nothing yet)"));
    assert!(req.user.contains("gap"));
}

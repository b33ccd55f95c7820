use verified_code_reviewer::bench::Language;
use verified_code_reviewer::config::Ablation;
use verified_code_reviewer::finding::{
    CandidateFinding, Evidence, EvidenceKind, Finding, FindingStatus, IssueType, Location,
    Severity, VerificationOutcome, VerificationResult,
};
use verified_code_reviewer::repo::{check_relative, RepoRoot};
use verified_code_reviewer::review::{build_case, diff_is_reviewable, render, ReviewRequest};
use verified_code_reviewer::trajectory::{AgentKind, Trajectory, TrajectoryEvent};

fn finding(status: FindingStatus) -> Finding {
    Finding {
        candidate: CandidateFinding {
            id: "f1".into(),
            issue_type: IssueType::Correctness,
            severity: Severity::High,
            location: Location::new("src/a.rs", 10, 12),
            claim: "the counter is never decremented".into(),
            reasoning: "internal reasoning that must not be shown".into(),
        },
        falsification_question: "does any caller decrement it?".into(),
        evidence: vec![],
        verification: None,
        status,
        status_reason: "because".into(),
    }
}

fn empty_traj() -> Trajectory {
    Trajectory::new(
        "id".to_string(),
        "review",
        AgentKind::Advanced,
        "mock",
        "2026-01-01T00:00:00Z".to_string(),
        Ablation::Full,
    )
}

fn traj_with(findings: Vec<Finding>) -> Trajectory {
    let mut t = empty_traj();
    t.finish(findings, 100, "2026-01-01T00:00:01Z".to_string());
    t
}

fn region(kind: EvidenceKind, file: &str, start: Option<u32>, end: Option<u32>) -> Evidence {
    Evidence {
        kind,
        file: Some(file.into()),
        start_line: start,
        end_line: end,
        symbol: None,
        excerpt: "fn a() {}".into(),
        tool_call_id: "t1".into(),
    }
}

#[test]
fn a_reported_finding_is_rendered_with_its_falsification_question() {
    let r = render(&traj_with(vec![finding(FindingStatus::Verified)]), None);
    assert!(r.contains("the counter is never decremented"));
    assert!(r.contains("does any caller decrement it?"));
}

#[test]
fn the_reviewer_reasoning_is_never_shown_to_the_reader() {
    let r = render(&traj_with(vec![finding(FindingStatus::Verified)]), None);
    assert!(!r.contains("internal reasoning that must not be shown"));
}

#[test]
fn cleared_findings_are_shown_rather_than_dropped() {
    let r = render(&traj_with(vec![finding(FindingStatus::Rejected)]), None);
    assert!(r.contains("Investigated and cleared"));
    assert!(r.contains("the counter is never decremented"));
}

#[test]
fn a_review_with_no_candidates_says_nothing_was_proposed() {
    let r = render(&traj_with(vec![]), None);
    assert!(r.contains("nothing proposed"));
    assert!(!r.contains("investigated against the repository and ruled out"));
}

#[test]
fn a_review_that_cleared_everything_says_so_instead() {
    let mut t = empty_traj();
    let f = finding(FindingStatus::Rejected);
    t.push(TrajectoryEvent::CandidateProposed { candidate: f.candidate.clone() });
    t.finish(vec![f], 100, "2026-01-01T00:00:01Z".to_string());
    let r = render(&t, None);
    assert!(r.contains("investigated against the repository and ruled out"));
    assert!(!r.contains("nothing proposed"));
}

#[test]
fn every_report_states_that_no_action_is_taken() {
    for status in [FindingStatus::Verified, FindingStatus::Rejected, FindingStatus::Uncertain] {
        let r = render(&traj_with(vec![finding(status)]), None);
        assert!(r.contains("A\nhuman decides"), "the human-in-the-loop statement must appear on every report");
    }
}

#[test]
fn an_empty_diff_is_refused() {
    assert!(!diff_is_reviewable(""));
    assert!(!diff_is_reviewable(" \n\t\n"));
    assert!(diff_is_reviewable("--- a\n+++ b\n"));
}

#[test]
fn a_review_case_carries_no_ground_truth_path() {
    let req = ReviewRequest {
        repo: "/tmp/work".into(),
        diff_path: None,
        title: "t".into(),
        description: "d".into(),
        language: Language::Rust,
        agent: AgentKind::Advanced,
        out: None,
    };
    let case = build_case(&req, "--- a\n+++ b\n".into(), RepoRoot::at("/tmp/work".into()));
    assert_eq!(case.id(), "review");
    assert_eq!(case.dir, "/tmp/work");
    assert!(check_relative("ground_truth.json").is_err());
}

#[test]
fn related_files_names_the_other_file_a_defect_depends_on() {
    let mut f = finding(FindingStatus::Verified);
    f.evidence = vec![
        region(EvidenceKind::FileRegion, "src/store.rs", Some(10), Some(20)),
        region(EvidenceKind::FileRegion, "src/a.rs", Some(1), Some(5)),
    ];
    assert_eq!(f.related_files(), vec!["src/store.rs".to_string()]);
    assert!(render(&traj_with(vec![f]), None).contains("Depends on code in: src/store.rs"));
}

#[test]
fn related_files_ignores_the_seeded_diff_hunk_and_directory_listings() {
    let mut f = finding(FindingStatus::Verified);
    f.evidence = vec![
        region(EvidenceKind::DiffHunk, "src/seeded.rs", Some(1), Some(9)),
        region(EvidenceKind::FileList, "src/listed.rs", None, None),
    ];
    assert!(f.related_files().is_empty());
}

#[test]
fn a_finding_with_no_investigation_names_no_related_files() {
    assert!(finding(FindingStatus::Verified).related_files().is_empty());
}

#[test]
fn a_full_report_reads_exactly_as_specified() {
    let mut f = finding(FindingStatus::Verified);
    f.evidence = vec![
        region(EvidenceKind::Search, "src/store.rs", Some(4), Some(4)),
        region(EvidenceKind::FileRegion, "src/store.rs", Some(10), Some(20)),
    ];
    f.verification = Some(VerificationResult {
        outcome: VerificationOutcome::Supports,
        rationale: "  no caller decrements it  ".into(),
        decisive_evidence: vec![],
    });
    let mut cleared = finding(FindingStatus::Rejected);
    cleared.candidate.location = Location::new("src/b.rs", 3, 3);
    cleared.status_reason = " verifier contradicted ".into();
    let r = render(&traj_with(vec![f, cleared]), Some("0.01250"));
    let rule = "──────────────────────────────────────────────────────────────";
    let expected = format!(
        "\n1 finding(s) for review · 1 investigated and cleared · 0 uncertain\n\
         0 model call(s), 0 tool call(s), 100 ms\n\
         cost: $0.01250\n\
         \n{rule}\n\
         src/a.rs:10-12 · High · Correctness\n  the counter is never decremented\n\
         \n  Checked by asking: does any caller decrement it?\n\
         \x20 Independent assessment: Supports\n\
         \x20   no caller decrements it\n\
         \x20 Evidence read: src/store.rs:4, src/store.rs:10-20\n\
         \x20 Depends on code in: src/store.rs\n\
         \n── Investigated and cleared ──────────────────────────────────\n\
         (shown so a rejection can be disagreed with, not to pad the report)\n\
         \n  src/b.rs:3 · Correctness\n    claim: the counter is never decremented\n    cleared because: verifier contradicted\n\
         \n{rule}\n\
         This system does not merge, reject, approve or modify anything. A\n\
         human decides. Findings are evidence-backed claims, not verdicts.\n"
    );
    assert_eq!(r, expected);
}

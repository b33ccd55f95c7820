use verified_code_reviewer::agent::adjudication::{Adjudication, Next, Stage};
use verified_code_reviewer::config::Ablation;
use verified_code_reviewer::finding::{
    CandidateFinding, Evidence, EvidenceKind, FindingStatus, IssueType, Location, Severity,
    VerificationOutcome, VerificationResult,
};
use verified_code_reviewer::trajectory::TrajectoryEvent;

fn candidate() -> CandidateFinding {
    CandidateFinding {
        id: "c-1".into(),
        issue_type: IssueType::Correctness,
        severity: Severity::High,
        location: Location::new("src/cache.rs", 10, 12),
        claim: "the cache is never invalidated".into(),
        reasoning: "no call to clear".into(),
    }
}

fn region() -> Evidence {
    Evidence {
        kind: EvidenceKind::FileRegion,
        file: Some("src/cache.rs".into()),
        start_line: Some(10),
        end_line: Some(12),
        symbol: None,
        excerpt: "fn get() {}".into(),
        tool_call_id: "c-1-t1".into(),
    }
}

fn listing() -> Evidence {
    Evidence {
        kind: EvidenceKind::FileList,
        file: None,
        start_line: None,
        end_line: None,
        symbol: None,
        excerpt: "src/cache.rs".into(),
        tool_call_id: "c-1-t2".into(),
    }
}

fn verdict(outcome: VerificationOutcome) -> VerificationResult {
    VerificationResult { outcome, rationale: "the invalidation path is not shown".into(), decisive_evidence: vec![] }
}

fn started(ablation: Ablation) -> Adjudication {
    let (a, next, events) = Adjudication::start(candidate(), ablation, 8, 1);
    assert!(matches!(next, Next::AskQuestion));
    assert!(events.is_empty());
    a
}

#[test]
fn a_candidates_only_run_decides_at_once() {
    let (a, next, events) = Adjudication::start(candidate(), Ablation::CandidatesOnly, 8, 1);
    assert_eq!(a.stage, Stage::Done);
    match next {
        Next::Finished(f) => {
            assert_eq!(f.status, FindingStatus::Verified);
            assert_eq!(f.status_reason, "ablation candidates-only");
            assert!(f.evidence.is_empty());
        }
        _ => panic!("expected a decision"),
    }
    assert_eq!(events.len(), 1);
    assert!(matches!(&events[0], TrajectoryEvent::Decision { status: FindingStatus::Verified, .. }));
}

#[test]
fn the_question_is_recorded_before_any_investigation() {
    let mut a = started(Ablation::Full);
    let (next, events) = a.on_question(Some("  Is clear() ever called?  "));
    assert_eq!(a.question, "Is clear() ever called?");
    match &events[0] {
        TrajectoryEvent::FalsificationQuestion { candidate_id, question } => {
            assert_eq!(candidate_id, "c-1");
            assert_eq!(question, "Is clear() ever called?");
        }
        _ => panic!("expected the question"),
    }
    match next {
        Next::Investigate { pass, budget, seed_claimed_region, gap } => {
            assert_eq!(pass, "");
            assert_eq!(budget, 8);
            assert!(seed_claimed_region);
            assert!(gap.is_none());
        }
        _ => panic!("expected an investigation"),
    }
}

#[test]
fn an_empty_proposal_falls_back_to_the_default_question() {
    let mut a = started(Ablation::Full);
    a.on_question(Some("   "));
    assert_eq!(
        a.question,
        "What evidence in this repository would show that the following claim is false: the cache is never invalidated"
    );
}

#[test]
fn without_falsification_the_evidence_alone_decides() {
    let mut a = started(Ablation::NoFalsification);
    a.on_question(None);
    let (next, events) = a.on_evidence(vec![region(), listing()]);
    assert_eq!(events.len(), 2);
    match next {
        Next::Finished(f) => {
            assert_eq!(f.status, FindingStatus::Verified);
            assert_eq!(
                f.status_reason,
                "ablation no-falsification: reported on 1 evidence item(s),                          unadjudicated"
            );
            assert!(f.verification.is_none());
        }
        _ => panic!("expected a decision"),
    }

    let mut b = started(Ablation::NoFalsification);
    b.on_question(None);
    match b.on_evidence(vec![listing()]).0 {
        Next::Finished(f) => assert_eq!(f.status, FindingStatus::Uncertain),
        _ => panic!("expected a decision"),
    }
}

#[test]
fn supported_and_backed_by_evidence_is_verified() {
    let mut a = started(Ablation::Full);
    a.on_question(Some("q"));
    let (next, events) = a.on_evidence(vec![region()]);
    assert!(matches!(next, Next::Verify));
    assert!(matches!(&events[0], TrajectoryEvent::EvidenceAssembled { evidence, .. } if evidence.len() == 1));
    let (next, events) = a.on_verification(Some(verdict(VerificationOutcome::Supports)));
    assert!(matches!(next, Next::Locate));
    assert_eq!(events.len(), 1);
    let (next, events) = a.on_location(true);
    assert_eq!(a.stage, Stage::Done);
    assert_eq!(events.len(), 1);
    match next {
        Next::Finished(f) => {
            assert_eq!(f.status, FindingStatus::Verified);
            assert_eq!(f.falsification_question, "q");
            assert_eq!(f.evidence.len(), 1);
        }
        _ => panic!("expected a decision"),
    }
}

#[test]
fn support_without_concrete_evidence_is_only_uncertain() {
    let mut a = started(Ablation::Full);
    a.on_question(Some("q"));
    a.on_evidence(vec![listing()]);
    a.on_verification(Some(verdict(VerificationOutcome::Supports)));
    match a.on_location(true).0 {
        Next::Finished(f) => assert_eq!(f.status, FindingStatus::Uncertain),
        _ => panic!("expected a decision"),
    }
}

#[test]
fn a_location_outside_the_repository_is_rejected() {
    let mut a = started(Ablation::Full);
    a.on_question(Some("q"));
    a.on_evidence(vec![region()]);
    a.on_verification(Some(verdict(VerificationOutcome::Supports)));
    match a.on_location(false).0 {
        Next::Finished(f) => {
            assert_eq!(f.status, FindingStatus::Rejected);
            assert_eq!(f.status_reason, "location src/cache.rs does not exist in the repository");
        }
        _ => panic!("expected a decision"),
    }
}

#[test]
fn insufficient_sends_the_investigation_back_once_with_the_gap() {
    let mut a = started(Ablation::Full);
    a.on_question(Some("q"));
    a.on_evidence(vec![listing()]);
    let (next, events) = a.on_verification(Some(verdict(VerificationOutcome::Insufficient)));
    assert_eq!(a.stage, Stage::FollowingUp);
    assert_eq!(events.len(), 2);
    match &events[1] {
        TrajectoryEvent::Note { note } => {
            assert_eq!(note, "c-1: verification was Insufficient; re-investigating against the stated gap")
        }
        _ => panic!("expected a note"),
    }
    match next {
        Next::Investigate { pass, budget, seed_claimed_region, gap } => {
            assert_eq!(pass, "f");
            assert_eq!(budget, 4);
            assert!(!seed_claimed_region);
            assert_eq!(gap.as_deref(), Some("the invalidation path is not shown"));
        }
        _ => panic!("expected a follow-up"),
    }
    let (next, events) = a.on_follow_up_evidence(vec![region()]);
    assert!(matches!(next, Next::Verify));
    assert!(matches!(&events[0], TrajectoryEvent::EvidenceAssembled { evidence, .. } if evidence.len() == 2));
    assert_eq!(a.evidence.len(), 2);
    // The second "Insufficient" is final: no second follow-up.
    let (next, _) = a.on_verification(Some(verdict(VerificationOutcome::Insufficient)));
    assert!(matches!(next, Next::Locate));
    match a.on_location(true).0 {
        Next::Finished(f) => assert_eq!(f.status, FindingStatus::Uncertain),
        _ => panic!("expected a decision"),
    }
}

#[test]
fn a_follow_up_that_finds_nothing_keeps_the_first_verdict() {
    let mut a = started(Ablation::Full);
    a.on_question(Some("q"));
    a.on_evidence(vec![region()]);
    a.on_verification(Some(verdict(VerificationOutcome::Insufficient)));
    let (next, events) = a.on_follow_up_evidence(vec![]);
    assert!(matches!(next, Next::Locate));
    match &events[0] {
        TrajectoryEvent::Note { note } => assert_eq!(
            note,
            "c-1: follow-up investigation found nothing further; keeping the original verdict"
        ),
        _ => panic!("expected a note"),
    }
    assert_eq!(a.evidence.len(), 1);
}

#[test]
fn without_follow_ups_insufficient_goes_straight_to_the_gate() {
    let mut a = started(Ablation::NoFollowup);
    a.on_question(Some("q"));
    a.on_evidence(vec![region()]);
    let (next, _) = a.on_verification(Some(verdict(VerificationOutcome::Insufficient)));
    assert!(matches!(next, Next::Locate));
}

#[test]
fn no_verdict_at_all_is_uncertain() {
    let mut a = started(Ablation::Full);
    a.on_question(Some("q"));
    a.on_evidence(vec![region()]);
    let (next, events) = a.on_verification(None);
    assert!(matches!(next, Next::Locate));
    assert!(events.is_empty());
    match a.on_location(true).0 {
        Next::Finished(f) => {
            assert_eq!(f.status, FindingStatus::Uncertain);
            assert_eq!(f.status_reason, "no verification verdict was obtained");
        }
        _ => panic!("expected a decision"),
    }
}

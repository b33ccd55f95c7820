use verified_code_reviewer::bench::{CaseCategory, ExpectedFinding, GroundTruth};
use verified_code_reviewer::eval::{evaluate_case, CaseEvaluation, Counts};
use verified_code_reviewer::finding::{
    CandidateFinding, Finding, FindingStatus, IssueType, Location, Severity,
};

fn pred(id: &str, ty: IssueType, file: &str, s: u32, e: u32, status: FindingStatus) -> Finding {
    Finding {
        candidate: CandidateFinding {
            id: id.to_string(),
            issue_type: ty,
            severity: Severity::Medium,
            location: Location::new(file, s, e),
            claim: format!("claim {id}"),
            reasoning: String::new(),
        },
        falsification_question: String::new(),
        evidence: Vec::new(),
        verification: None,
        status,
        status_reason: String::new(),
    }
}

fn expect(id: &str, ty: IssueType, file: &str, s: u32, e: u32) -> ExpectedFinding {
    ExpectedFinding {
        id: id.to_string(),
        issue_type: ty,
        also_accept: Vec::new(),
        file: file.to_string(),
        start_line: s,
        end_line: e,
        description: format!("expected {id}"),
    }
}

fn truth(findings: Vec<ExpectedFinding>) -> GroundTruth {
    GroundTruth {
        case_id: "c".into(),
        expected_findings: findings,
        notes: String::new(),
    }
}

fn eval(preds: &[Finding], gt: &GroundTruth) -> CaseEvaluation {
    evaluate_case("c", CaseCategory::RealIssue, preds, gt, 3)
}

#[test]
fn counts_accumulate() {
    let mut a = Counts {
        true_positives: 1,
        false_positives: 2,
        false_negatives: 3,
    };
    a.add(&Counts {
        true_positives: 10,
        false_positives: 20,
        false_negatives: 30,
    });
    assert_eq!(a.true_positives, 11);
    assert_eq!(a.false_positives, 22);
    assert_eq!(a.false_negatives, 33);
}

#[test]
fn exact_match_is_a_true_positive() {
    let gt = truth(vec![expect("g1", IssueType::ErrorHandling, "src/a.rs", 10, 12)]);
    let preds = vec![pred("p1", IssueType::ErrorHandling, "src/a.rs", 10, 12, FindingStatus::Verified)];
    let e = eval(&preds, &gt);
    assert_eq!(e.counts.true_positives, 1);
    assert_eq!(e.counts.false_positives, 0);
    assert_eq!(e.counts.false_negatives, 0);
    assert_eq!(e.matched[0].expected_id, "g1");
}

#[test]
fn right_location_wrong_issue_type_does_not_match() {
    let gt = truth(vec![expect("g1", IssueType::ErrorHandling, "src/a.rs", 10, 12)]);
    let preds = vec![pred("p1", IssueType::Performance, "src/a.rs", 10, 12, FindingStatus::Verified)];
    let e = eval(&preds, &gt);
    assert_eq!(e.counts.true_positives, 0);
    assert_eq!(e.counts.false_positives, 1);
    assert_eq!(e.counts.false_negatives, 1);
}

#[test]
fn right_issue_type_wrong_file_does_not_match() {
    let gt = truth(vec![expect("g1", IssueType::Correctness, "src/a.rs", 10, 12)]);
    let preds = vec![pred("p1", IssueType::Correctness, "src/b.rs", 10, 12, FindingStatus::Verified)];
    assert_eq!(eval(&preds, &gt).counts.true_positives, 0);
}

#[test]
fn match_is_allowed_within_tolerance_and_refused_beyond_it() {
    let gt = truth(vec![expect("g1", IssueType::Correctness, "src/a.rs", 10, 10)]);
    let near = vec![pred("p1", IssueType::Correctness, "src/a.rs", 13, 13, FindingStatus::Verified)];
    let far = vec![pred("p1", IssueType::Correctness, "src/a.rs", 14, 14, FindingStatus::Verified)];
    assert_eq!(eval(&near, &gt).counts.true_positives, 1);
    assert_eq!(eval(&far, &gt).counts.true_positives, 0);
}

#[test]
fn duplicate_predictions_yield_one_tp_and_one_fp() {
    let gt = truth(vec![expect("g1", IssueType::Correctness, "src/a.rs", 10, 10)]);
    let preds = vec![
        pred("p1", IssueType::Correctness, "src/a.rs", 10, 10, FindingStatus::Verified),
        pred("p2", IssueType::Correctness, "src/a.rs", 10, 10, FindingStatus::Verified),
    ];
    let e = eval(&preds, &gt);
    assert_eq!(e.counts.true_positives, 1);
    assert_eq!(e.counts.false_positives, 1);
}

#[test]
fn one_prediction_cannot_satisfy_two_expected_findings() {
    let gt = truth(vec![
        expect("g1", IssueType::Correctness, "src/a.rs", 10, 10),
        expect("g2", IssueType::Correctness, "src/a.rs", 11, 11),
    ]);
    let preds = vec![pred("p1", IssueType::Correctness, "src/a.rs", 10, 11, FindingStatus::Verified)];
    let e = eval(&preds, &gt);
    assert_eq!(e.counts.true_positives, 1);
    assert_eq!(e.counts.false_negatives, 1);
    assert_eq!(e.counts.false_positives, 0);
}

#[test]
fn closest_prediction_wins_when_several_qualify() {
    let gt = truth(vec![expect("g1", IssueType::Correctness, "src/a.rs", 20, 20)]);
    let preds = vec![
        pred("p_far", IssueType::Correctness, "src/a.rs", 17, 17, FindingStatus::Verified),
        pred("p_near", IssueType::Correctness, "src/a.rs", 20, 20, FindingStatus::Verified),
    ];
    let e = eval(&preds, &gt);
    assert_eq!(e.matched[0].prediction_id, "p_near");
}

#[test]
fn clean_case_turns_every_prediction_into_a_false_positive() {
    let gt = truth(vec![]);
    let preds = vec![
        pred("p1", IssueType::Concurrency, "src/a.rs", 5, 5, FindingStatus::Verified),
        pred("p2", IssueType::Validation, "src/b.rs", 9, 9, FindingStatus::Verified),
    ];
    let e = evaluate_case("c", CaseCategory::Trap, &preds, &gt, 3);
    assert_eq!(e.counts.false_positives, 2);
    assert_eq!(e.counts.true_positives, 0);
    assert_eq!(e.counts.false_negatives, 0);
}

#[test]
fn clean_case_with_no_predictions_is_all_zeros() {
    let e = evaluate_case("c", CaseCategory::Trap, &[], &truth(vec![]), 3);
    assert_eq!(e.counts, Counts::default());
}

#[test]
fn rejected_and_uncertain_findings_are_withheld_not_scored() {
    let gt = truth(vec![]);
    let preds = vec![
        pred("p1", IssueType::Correctness, "src/a.rs", 5, 5, FindingStatus::Rejected),
        pred("p2", IssueType::Correctness, "src/a.rs", 6, 6, FindingStatus::Uncertain),
    ];
    let e = evaluate_case("c", CaseCategory::Trap, &preds, &gt, 3);
    assert_eq!(e.counts.false_positives, 0, "withheld findings must not be scored");
    assert_eq!(e.withheld, 2);
}

#[test]
fn withholding_a_correct_finding_costs_a_false_negative() {
    let gt = truth(vec![expect("g1", IssueType::Correctness, "src/a.rs", 10, 10)]);
    let preds = vec![pred("p1", IssueType::Correctness, "src/a.rs", 10, 10, FindingStatus::Rejected)];
    let e = eval(&preds, &gt);
    assert_eq!(e.counts.true_positives, 0);
    assert_eq!(e.counts.false_negatives, 1);
}

#[test]
fn result_is_independent_of_input_order() {
    let gt = truth(vec![
        expect("g1", IssueType::Correctness, "src/a.rs", 10, 10),
        expect("g2", IssueType::Testing, "src/b.rs", 40, 44),
    ]);
    let a = pred("p1", IssueType::Correctness, "src/a.rs", 10, 10, FindingStatus::Verified);
    let b = pred("p2", IssueType::Testing, "src/b.rs", 41, 43, FindingStatus::Verified);
    let c = pred("p3", IssueType::Validation, "src/z.rs", 1, 1, FindingStatus::Verified);

    let forward = eval(&[a.clone(), b.clone(), c.clone()], &gt);
    let reverse = eval(&[c, b, a], &gt);
    assert_eq!(forward.counts, reverse.counts);
    assert_eq!(
        forward.matched.iter().map(|m| m.prediction_id.clone()).collect::<Vec<_>>(),
        reverse.matched.iter().map(|m| m.prediction_id.clone()).collect::<Vec<_>>()
    );
}

#[test]
fn path_separator_style_does_not_affect_matching() {
    let gt = truth(vec![expect("g1", IssueType::Correctness, "src/a.rs", 10, 10)]);
    let preds = vec![pred("p1", IssueType::Correctness, "src\\a.rs", 10, 10, FindingStatus::Verified)];
    assert_eq!(eval(&preds, &gt).counts.true_positives, 1);
}

#[test]
fn an_also_accepted_category_matches() {
    let mut g = expect("g1", IssueType::ResourceManagement, "src/a.rs", 10, 10);
    g.also_accept = vec![IssueType::StateManagement];
    let gt = truth(vec![g]);
    let preds = vec![pred("p1", IssueType::StateManagement, "src/a.rs", 10, 10, FindingStatus::Verified)];
    let e = eval(&preds, &gt);
    assert_eq!(e.counts.true_positives, 1);
    assert_eq!(e.missed.len(), 0);
    assert_eq!(e.unmatched_predictions.len(), 0);
}

#[test]
fn location_normalizes_separators_and_prefix() {
    let l = Location::new("./src\\foo.rs", 10, 12);
    assert_eq!(l.file, "src/foo.rs");
}

#[test]
fn location_swaps_inverted_ranges() {
    let l = Location::new("a.rs", 20, 10);
    assert_eq!((l.start_line, l.end_line), (10, 20));
}

#[test]
fn overlap_requires_same_file() {
    let a = Location::new("a.rs", 10, 12);
    let b = Location::new("b.rs", 10, 12);
    assert!(!a.overlaps(&b, 100));
}

#[test]
fn overlap_respects_tolerance() {
    let a = Location::new("a.rs", 10, 10);
    let b = Location::new("a.rs", 13, 13);
    assert!(!a.overlaps(&b, 2));
    assert!(a.overlaps(&b, 3));
}

#[test]
fn overlap_is_symmetric_for_equal_tolerance() {
    let a = Location::new("a.rs", 10, 20);
    let b = Location::new("a.rs", 18, 30);
    assert!(a.overlaps(&b, 0));
    assert!(b.overlaps(&a, 0));
}

#[test]
fn overlap_near_line_one_does_not_underflow() {
    let a = Location::new("a.rs", 1, 1);
    let b = Location::new("a.rs", 2, 2);
    assert!(a.overlaps(&b, 5));
}

#[test]
fn only_verified_is_reported() {
    assert!(FindingStatus::Verified.is_reported());
    assert!(!FindingStatus::Rejected.is_reported());
    assert!(!FindingStatus::Uncertain.is_reported());
}

#[test]
fn issue_types_have_their_json_names() {
    let names: Vec<&str> = IssueType::all().iter().map(|t| t.as_str()).collect();
    assert_eq!(names.len(), 9);
    assert_eq!(names[0], "Correctness");
    assert!(names.contains(&"ApiContract"));
    assert_eq!(Location::new("/x/y.rs", 3, 4).to_string(), "x/y.rs:3-4");
}

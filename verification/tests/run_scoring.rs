use verified_code_reviewer::bench::CaseCategory;
use verified_code_reviewer::eval::{CaseEvaluation, Counts};
use verified_code_reviewer::finding::{
    CandidateFinding, Finding, FindingStatus, IssueType, Location, Severity,
};
use verified_code_reviewer::runner::{
    by_category_counts, check_truth_matches, comparison_warnings, reported_and_withheld, sum_counts,
};

fn case(id: &str, category: CaseCategory, tp: u32, fp: u32, fn_: u32) -> CaseEvaluation {
    CaseEvaluation {
        case_id: id.into(),
        category,
        counts: Counts { true_positives: tp, false_positives: fp, false_negatives: fn_ },
        matched: vec![],
        unmatched_predictions: vec![],
        missed: vec![],
        withheld: 0,
    }
}

fn finding(status: FindingStatus) -> Finding {
    Finding {
        candidate: CandidateFinding {
            id: "f".into(),
            issue_type: IssueType::Testing,
            severity: Severity::Low,
            location: Location::new("a.rs", 1, 1),
            claim: "c".into(),
            reasoning: String::new(),
        },
        falsification_question: String::new(),
        evidence: vec![],
        verification: None,
        status,
        status_reason: String::new(),
    }
}

#[test]
fn a_ground_truth_for_another_case_is_refused() {
    assert_eq!(check_truth_matches("c01", "c01"), Ok(()));
    assert_eq!(
        check_truth_matches("c02", "c01"),
        Err("ground_truth.json case_id \"c02\" does not match case.json case_id \"c01\"".to_string())
    );
}

#[test]
fn counts_are_summed_over_every_case() {
    let per_case = vec![
        case("a", CaseCategory::RealIssue, 2, 1, 0),
        case("b", CaseCategory::Trap, 0, 3, 0),
        case("c", CaseCategory::RealIssue, 1, 0, 2),
    ];
    let (n, c) = sum_counts(&per_case, None);
    assert_eq!(n, 3);
    assert_eq!(c, Counts { true_positives: 3, false_positives: 4, false_negatives: 2 });
    let (n, c) = sum_counts(&per_case, Some(CaseCategory::RealIssue));
    assert_eq!(n, 2);
    assert_eq!(c, Counts { true_positives: 3, false_positives: 1, false_negatives: 2 });
}

#[test]
fn the_breakdown_leaves_out_empty_categories_and_keeps_their_order() {
    let per_case = vec![
        case("t", CaseCategory::Trap, 0, 1, 0),
        case("r", CaseCategory::RealIssue, 1, 0, 0),
    ];
    let b = by_category_counts(&per_case);
    assert_eq!(b.len(), 2);
    assert_eq!(b[0].0, CaseCategory::RealIssue);
    assert_eq!(b[0].1, 1);
    assert_eq!(b[1].0, CaseCategory::Trap);
    assert_eq!(b[1].2.false_positives, 1);
    assert!(by_category_counts(&vec![]).is_empty());
}

#[test]
fn findings_are_split_into_reported_and_withheld() {
    let fs = vec![
        finding(FindingStatus::Verified),
        finding(FindingStatus::Rejected),
        finding(FindingStatus::Uncertain),
        finding(FindingStatus::Verified),
    ];
    assert_eq!(reported_and_withheld(&fs), (2, 2));
    assert_eq!(reported_and_withheld(&vec![]), (0, 0));
}

#[test]
fn a_comparison_warns_about_dry_runs_models_and_case_counts() {
    assert!(comparison_warnings(false, false, "m", "m", 12, 12).is_empty());
    let w = comparison_warnings(true, false, "m1", "m2", 12, 11);
    assert_eq!(
        w,
        vec![
            "*** One or both arms were dry runs. This table is NOT a measurement. ***\n".to_string(),
            "*** WARNING: arms used different models (m1 vs m2). The comparison is not fair. ***\n".to_string(),
            "*** WARNING: arms ran different case counts (12 vs 11). ***\n".to_string(),
        ]
    );
}

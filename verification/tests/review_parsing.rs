use verified_code_reviewer::agent::{parse_review, parse_issue_type, parse_severity, RawFinding};
use verified_code_reviewer::finding::{IssueType, Severity};

fn raw(issue_type: &str, file: &str, start_line: u32, claim: &str) -> RawFinding {
    RawFinding {
        issue_type: issue_type.into(),
        severity: None,
        file: file.into(),
        start_line,
        end_line: None,
        claim: claim.into(),
        reasoning: String::new(),
    }
}

#[test]
fn parses_a_well_formed_finding() {
    let items = vec![Ok(RawFinding {
        issue_type: "ErrorHandling".into(),
        severity: Some("High".into()),
        file: "src/a.rs".into(),
        start_line: 10,
        end_line: Some(12),
        claim: "can panic".into(),
        reasoning: "because".into(),
    })];
    let p = parse_review(Some(&items), "b");
    assert_eq!(p.candidates.len(), 1);
    let c = &p.candidates[0];
    assert_eq!(c.id, "b-1");
    assert_eq!(c.issue_type, IssueType::ErrorHandling);
    assert_eq!(c.severity, Severity::High);
    assert_eq!(c.location.to_string(), "src/a.rs:10-12");
    assert!(p.warnings.is_empty());
}

#[test]
fn empty_findings_is_a_valid_answer() {
    let items: Vec<Result<RawFinding, String>> = Vec::new();
    let p = parse_review(Some(&items), "b");
    assert!(p.candidates.is_empty());
    assert!(p.warnings.is_empty());
}

#[test]
fn missing_findings_key_warns_rather_than_panicking() {
    let p = parse_review(None, "b");
    assert!(p.candidates.is_empty());
    assert_eq!(p.warnings.len(), 1);
}

#[test]
fn invented_issue_type_is_dropped_and_reported() {
    let items = vec![Ok(raw("SecurityVulnerability", "src/a.rs", 1, "x"))];
    let p = parse_review(Some(&items), "b");
    assert!(p.candidates.is_empty());
    assert!(p.warnings[0].contains("controlled taxonomy"));
    assert_eq!(
        p.warnings[0],
        "finding[0] dropped: issue_type \"SecurityVulnerability\" is not in the controlled taxonomy"
    );
}

#[test]
fn one_bad_finding_does_not_discard_the_good_ones() {
    let items = vec![
        Ok(raw("Nonsense", "a.rs", 1, "x")),
        Ok(raw("Correctness", "a.rs", 2, "y")),
    ];
    let p = parse_review(Some(&items), "b");
    assert_eq!(p.candidates.len(), 1);
    assert_eq!(p.candidates[0].id, "b-2", "ids track the original index");
    assert_eq!(p.warnings.len(), 1);
}

#[test]
fn missing_end_line_defaults_to_start_line() {
    let items = vec![Ok(raw("Testing", "a.rs", 7, "x"))];
    let p = parse_review(Some(&items), "b");
    let c = &p.candidates[0];
    assert_eq!(c.location.to_string(), "a.rs:7");
}

#[test]
fn end_line_before_start_line_is_clamped() {
    let mut r = raw("Testing", "a.rs", 7, "x");
    r.end_line = Some(3);
    let items = vec![Ok(r)];
    let p = parse_review(Some(&items), "b");
    let c = &p.candidates[0];
    assert_eq!(c.location.start_line, 7);
    assert_eq!(c.location.end_line, 7);
}

#[test]
fn zero_line_and_empty_claim_are_dropped() {
    let items = vec![
        Ok(raw("Testing", "a.rs", 0, "x")),
        Ok(raw("Testing", "a.rs", 1, "   ")),
    ];
    let p = parse_review(Some(&items), "b");
    assert!(p.candidates.is_empty());
    assert_eq!(p.warnings.len(), 2);
    assert_eq!(p.warnings[0], "finding[0] dropped: start_line 0 (lines are 1-based)");
    assert_eq!(p.warnings[1], "finding[1] dropped: empty claim");
}

#[test]
fn missing_severity_defaults_to_medium() {
    let items = vec![Ok(raw("Testing", "a.rs", 1, "x"))];
    assert_eq!(parse_review(Some(&items), "b").candidates[0].severity, Severity::Medium);
}

#[test]
fn an_unreadable_item_is_dropped_with_the_reader_s_reason() {
    let items = vec![Err("missing field `file`".to_string()), Ok(raw("Testing", "a.rs", 4, " x "))];
    let p = parse_review(Some(&items), "adv");
    assert_eq!(p.warnings, vec!["finding[0] dropped: missing field `file`".to_string()]);
    assert_eq!(p.candidates.len(), 1);
    assert_eq!(p.candidates[0].id, "adv-2");
    assert_eq!(p.candidates[0].claim, "x");
}

#[test]
fn issue_types_and_severities_are_read_after_trimming() {
    assert_eq!(parse_issue_type("  Concurrency "), Some(IssueType::Concurrency));
    assert_eq!(parse_issue_type("concurrency"), None);
    assert_eq!(parse_severity(Some(" Low")), Severity::Low);
    assert_eq!(parse_severity(Some("Critical")), Severity::Medium);
    assert_eq!(parse_severity(None), Severity::Medium);
}

use verified_code_reviewer::replay::{intersects, run_merges, RecordedFinding, RecordedLocation};

fn found(issue_type: &str, file: &str, start: u32, end: u32, claim: &str) -> RecordedFinding {
    RecordedFinding {
        issue_type: issue_type.into(),
        location: RecordedLocation { file: file.into(), start_line: start, end_line: end },
        claim: claim.into(),
    }
}

#[test]
fn ranges_that_share_a_line_intersect() {
    assert!(intersects((20, 25), (25, 30), 0));
}

#[test]
fn ranges_one_line_apart_do_not_intersect() {
    assert!(!intersects((20, 24), (25, 30), 0));
}

#[test]
fn the_tolerance_joins_ranges_that_do_not_touch() {
    assert!(!intersects((26, 28), (30, 32), 0));
    assert!(intersects((26, 28), (30, 32), 3));
}

#[test]
fn the_slack_saturates_at_both_ends() {
    assert!(intersects((1, 2), (0, 0), 5));
    assert!(intersects((10, u32::MAX - 1), (u32::MAX, u32::MAX), 3));
}

#[test]
fn only_same_category_same_file_pairs_are_proposed() {
    let f = vec![
        found("Validation", "src/order.rs", 26, 28, "name checked against quantity"),
        found("Validation", "src/order.rs", 30, 32, "notes checked against name length"),
        found("Correctness", "src/order.rs", 27, 27, "other"),
        found("Validation", "src/other.rs", 26, 28, "elsewhere"),
    ];
    let strict = run_merges("run1", "c08", &f, 0);
    assert!(strict.is_empty());
    let tolerant = run_merges("run1", "c08", &f, 3);
    assert_eq!(tolerant.len(), 1);
    let m = &tolerant[0];
    assert_eq!(m.a, (26, 28));
    assert_eq!(m.b, (30, 32));
    assert!(!m.strict);
    assert_eq!(m.issue_type, "Validation");
    assert_eq!(m.file, "src/order.rs");
    assert_eq!(m.run, "run1");
    assert_eq!(m.case_id, "c08");
    assert_eq!(m.b_claim, "notes checked against name length");
}

#[test]
fn pairs_come_in_order_of_the_earlier_then_the_later_finding() {
    let f = vec![
        found("Testing", "a.rs", 1, 5, "x"),
        found("Testing", "a.rs", 4, 6, "y"),
        found("Testing", "a.rs", 5, 9, "z"),
    ];
    let m = run_merges("r", "c", &f, 0);
    let pairs: Vec<((u32, u32), (u32, u32), bool)> = m.iter().map(|m| (m.a, m.b, m.strict)).collect();
    assert_eq!(
        pairs,
        vec![((1, 5), (4, 6), true), ((1, 5), (5, 9), true), ((4, 6), (5, 9), true)]
    );
}

#[test]
fn long_claims_are_shortened_with_an_ellipsis() {
    use_shorten();
}

fn use_shorten() {
    assert_eq!(verified_code_reviewer::replay::shorten("short", 88), "short");
    assert_eq!(verified_code_reviewer::replay::shorten("abcdef", 4), "abc…");
    assert_eq!(verified_code_reviewer::replay::shorten("éééé", 3), "éé…");
}

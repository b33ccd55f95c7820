use verified_code_reviewer::bench::{check_case_dir, validate_ground_truth, ExpectedFinding, GroundTruth};
use verified_code_reviewer::finding::IssueType;

fn expected(id: &str, start: u32, end: u32) -> ExpectedFinding {
    ExpectedFinding {
        id: id.into(),
        issue_type: IssueType::Correctness,
        also_accept: vec![],
        file: "src/lib.rs".into(),
        start_line: start,
        end_line: end,
        description: "d".into(),
    }
}

fn truth(fs: Vec<ExpectedFinding>) -> GroundTruth {
    GroundTruth { case_id: "c01".into(), expected_findings: fs, notes: String::new() }
}

#[test]
fn empty_ground_truth_is_clean() {
    assert_eq!(validate_ground_truth(&truth(vec![]), "c01/ground_truth.json"), Ok(()));
}

#[test]
fn rejects_duplicate_expected_ids() {
    let gt = truth(vec![expected("a", 1, 2), expected("a", 3, 4)]);
    assert_eq!(
        validate_ground_truth(&gt, "c01/ground_truth.json"),
        Err("duplicate expected finding id \"a\" in c01/ground_truth.json".to_string())
    );
}

#[test]
fn rejects_zero_line_numbers() {
    let gt = truth(vec![expected("a", 0, 2)]);
    let e = validate_ground_truth(&gt, "g.json").unwrap_err();
    assert!(e.contains("line 0"));
    assert_eq!(e, "expected finding \"a\" in g.json uses line 0; line numbers are 1-based");
}

#[test]
fn rejects_inverted_ranges() {
    let gt = truth(vec![expected("a", 1, 1), expected("b", 5, 4)]);
    assert_eq!(
        validate_ground_truth(&gt, "g.json"),
        Err("expected finding \"b\" in g.json has start_line > end_line".to_string())
    );
}

#[test]
fn rejects_mismatched_directory_name() {
    assert_eq!(check_case_dir(Some("c01"), "c01"), Ok(()));
    assert_eq!(check_case_dir(None, "c01"), Ok(()));
    assert_eq!(
        check_case_dir(Some("wrong-name"), "c01"),
        Err("case directory \"wrong-name\" does not match case_id \"c01\"".to_string())
    );
}

#[test]
fn a_diff_whose_hunk_ends_past_u32_does_not_fit() {
    use_fit();
}

fn use_fit() {
    use_fit_inner("--- a/x.rs\n+++ b/x.rs\n@@ -1,2 +1,3 @@\n a\n", true);
    use_fit_inner("--- a/x.rs\n+++ b/x.rs\n@@ -1 +4294967295,2 @@\n a\n", false);
    use_fit_inner("@@ -1 +4294967295,2 @@\n", true);
}

fn use_fit_inner(diff: &str, fits: bool) {
    assert_eq!(verified_code_reviewer::bench::diff_ranges_fit(diff), fits);
}

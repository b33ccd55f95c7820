use verified_code_reviewer::agent::changed_files;
use verified_code_reviewer::bench::changed_line_ranges;

#[test]
fn extracts_changed_files_from_a_unified_diff() {
    let diff = "diff --git a/src/a.rs b/src/a.rs\n--- a/src/a.rs\n+++ b/src/a.rs\n@@ -1 +1 @@\n-x\n+y\n";
    assert_eq!(changed_files(diff), vec!["src/a.rs"]);
}

#[test]
fn handles_multiple_files_without_duplicates() {
    let diff = "--- a/x.rs\n+++ b/x.rs\n--- a/y.rs\n+++ b/y.rs\n--- a/x.rs\n+++ b/x.rs\n";
    assert_eq!(changed_files(diff), vec!["x.rs", "y.rs"]);
}

#[test]
fn ignores_dev_null_for_deleted_files() {
    let diff = "--- a/gone.rs\n+++ /dev/null\n";
    assert!(changed_files(diff).is_empty());
}

#[test]
fn strips_trailing_timestamp_column() {
    let diff = "+++ b/src/a.rs\t2026-08-30 10:00:00.000000000 +0000\n";
    assert_eq!(changed_files(diff), vec!["src/a.rs"]);
}

#[test]
fn empty_diff_yields_no_files() {
    assert!(changed_files("").is_empty());
}

#[test]
fn parses_changed_line_ranges_from_a_diff() {
    let diff = "--- a/src/a.rs
+++ b/src/a.rs
@@ -8,12 +8,15 @@
 context
";
    let r = changed_line_ranges(diff);
    assert_eq!(*r.get("src/a.rs").unwrap(), vec![(8, 22)]);
}

#[test]
fn a_single_line_hunk_has_no_count() {
    let diff = "+++ b/a.rs
@@ -3 +3 @@
";
    assert_eq!(*changed_line_ranges(diff).get("a.rs").unwrap(), vec![(3, 3)]);
}

#[test]
fn a_new_file_hunk_is_captured() {
    let diff = "--- /dev/null
+++ b/src/new.rs
@@ -0,0 +1,54 @@
";
    assert_eq!(*changed_line_ranges(diff).get("src/new.rs").unwrap(), vec![(1, 54)]);
}

#[test]
fn a_deleted_file_contributes_nothing() {
    let diff = "--- a/gone.rs
+++ /dev/null
@@ -1,5 +0,0 @@
";
    assert!(changed_line_ranges(diff).is_empty());
}

#[test]
fn hunks_accumulate_per_file_and_a_zero_count_is_one_line() {
    let diff = "+++ b/a.rs\n@@ -1,2 +1,3 @@\n@@ -9 +10,0 @@\n+++ ./b.rs\t2026\n@@ -1 +2,2 @@\n";
    let r = changed_line_ranges(diff);
    assert_eq!(r.len(), 2);
    assert_eq!(*r.get("a.rs").unwrap(), vec![(1, 3), (10, 10)]);
    assert_eq!(*r.get("b.rs").unwrap(), vec![(2, 3)]);
    assert!(r.get("c.rs").is_none());
}

use verified_code_reviewer::finding::EvidenceKind;
use verified_code_reviewer::repo::check_relative;
use verified_code_reviewer::tools::{
    glob_to_filter, listing_result, plan_tool, read_result, search_result, ToolArgs, ToolCall,
    ToolPlan, ToolResult,
};

/// The fixture repository: its listing (sorted) and the text of each file.
fn fixture() -> (Vec<String>, Vec<Option<String>>) {
    let files = vec![
        "README.md".to_string(),
        "src/handler.rs".to_string(),
        "src/store.rs".to_string(),
    ];
    let contents = vec![
        Some("touch this\n".to_string()),
        Some("fn a() {\n  store.touch();\n}\n".to_string()),
        Some("fn touch() {}\nfn other() {}\nfn touch_again() {}\n".to_string()),
    ];
    (files, contents)
}

fn args() -> ToolArgs {
    ToolArgs { pattern: None, glob: None, file: None, start_line: None, end_line: None }
}

fn call(tool: &str, arguments: ToolArgs) -> ToolCall {
    ToolCall { tool: tool.to_string(), arguments }
}

fn pattern(p: &str) -> ToolArgs {
    ToolArgs { pattern: Some(p.to_string()), ..args() }
}

fn read_args(file: &str, start: Option<u64>, end: Option<u64>) -> ToolArgs {
    ToolArgs { file: Some(file.to_string()), start_line: start, end_line: end, ..args() }
}

/// Plays the driver: plan the call, do the repository work the plan names
/// against the fixture, and hand the outcome back to the library.
fn execute(c: &ToolCall, id: &str, max_search_results: u32, max_read_lines: u32) -> ToolResult {
    let (files, contents) = fixture();
    match plan_tool(c) {
        ToolPlan::Search { pattern, filter } => {
            search_result(&pattern, filter.as_ref(), &files, &contents, id, max_search_results)
        }
        ToolPlan::Read { file, start_line, end_line } => {
            let content = match check_relative(&file) {
                Err(e) => Err(e),
                Ok(p) => match files.iter().position(|f| *f == p) {
                    Some(i) => Ok(contents[i].clone().unwrap()),
                    None => Err("No such file or directory (os error 2)".to_string()),
                },
            };
            read_result(&file, &content, start_line, end_line, id, max_read_lines)
        }
        ToolPlan::ListFiles => listing_result(&files),
        ToolPlan::Refuse(r) => r,
    }
}

#[test]
fn search_finds_matches_with_file_and_line() {
    let r = execute(&call("search", pattern("store.touch")), "t1", 40, 200);
    assert!(r.ok);
    assert!(r.text.contains("src/handler.rs:2"));
    assert_eq!(r.evidence.len(), 1);
    assert_eq!(r.evidence[0].file.as_deref(), Some("src/handler.rs"));
    assert_eq!(r.evidence[0].start_line, Some(2));
    assert_eq!(r.evidence[0].tool_call_id, "t1");
}

#[test]
fn search_evidence_excerpt_is_the_real_line() {
    let r = execute(&call("search", pattern("store.touch")), "t1", 40, 200);
    assert_eq!(r.evidence[0].excerpt, "  store.touch();");
    assert_eq!(r.evidence[0].kind, EvidenceKind::Search);
    assert_eq!(r.evidence[0].symbol.as_deref(), Some("store.touch"));
}

#[test]
fn search_with_no_matches_is_not_ok_and_yields_no_evidence() {
    let r = execute(&call("search", pattern("zzz")), "t1", 40, 200);
    assert!(!r.ok);
    assert!(r.evidence.is_empty());
    assert!(r.text.contains("no matches"));
    assert_eq!(r.text, "no matches for \"zzz\"");
}

#[test]
fn search_respects_a_glob_filter() {
    let a = ToolArgs { glob: Some("src/**/*.rs".to_string()), ..pattern("touch") };
    let r = execute(&call("search", a), "t1", 40, 200);
    assert!(r.ok);
    assert!(!r.text.contains("README.md"), "glob should exclude the markdown file");
    assert!(r.text.contains("src/store.rs"));
}

#[test]
fn search_requires_a_pattern() {
    assert!(!execute(&call("search", args()), "t1", 40, 200).ok);
    assert!(!execute(&call("search", pattern("")), "t1", 40, 200).ok);
}

#[test]
fn search_honours_the_result_cap() {
    let r = execute(&call("search", pattern("touch")), "t1", 1, 200);
    assert_eq!(r.evidence.len(), 1);
    assert!(r.text.contains("truncated"));
    assert_eq!(
        r.text,
        "1 match(es) for \"touch\":\nREADME.md:1: touch this\n... truncated at 1 matches\n"
    );
}

#[test]
fn search_lists_every_match_in_listing_order() {
    let r = execute(&call("search", pattern("touch")), "t9", 40, 200);
    assert_eq!(
        r.text,
        "4 match(es) for \"touch\":\nREADME.md:1: touch this\nsrc/handler.rs:2:   store.touch();\nsrc/store.rs:1: fn touch() {}\nsrc/store.rs:3: fn touch_again() {}\n"
    );
    assert_eq!(r.evidence.len(), 4);
}

#[test]
fn read_returns_numbered_lines_and_evidence() {
    let r = execute(&call("read", read_args("src/store.rs", Some(1), Some(2))), "t2", 40, 200);
    assert!(r.ok);
    assert!(r.text.contains("    1 | fn touch() {}"));
    assert_eq!(r.evidence[0].kind, EvidenceKind::FileRegion);
    assert_eq!(r.evidence[0].start_line, Some(1));
    assert_eq!(r.evidence[0].end_line, Some(2));
    assert_eq!(
        r.text,
        "src/store.rs lines 1-2 of 3:\n    1 | fn touch() {}\n    2 | fn other() {}\n"
    );
}

#[test]
fn read_clamps_end_line_to_the_file_length() {
    let r = execute(&call("read", read_args("src/store.rs", Some(1), Some(9999))), "t2", 40, 200);
    assert!(r.ok);
    assert_eq!(r.evidence[0].end_line, Some(3));
}

#[test]
fn read_honours_the_line_budget() {
    let r = execute(&call("read", read_args("src/store.rs", Some(1), Some(3))), "t2", 40, 2);
    assert_eq!(r.evidence[0].end_line, Some(2));
    assert!(r.text.contains("read limit"));
}

#[test]
fn read_refuses_a_path_outside_the_sandbox() {
    let r = execute(&call("read", read_args("../../../etc/passwd", None, None)), "t2", 40, 200);
    assert!(!r.ok);
    assert!(r.evidence.is_empty());
}

#[test]
fn read_refuses_ground_truth() {
    let r = execute(&call("read", read_args("ground_truth.json", None, None)), "t2", 40, 200);
    assert!(!r.ok);
    assert!(r.text.contains("not permitted"));
}

#[test]
fn read_rejects_an_inverted_range() {
    let r = execute(&call("read", read_args("src/store.rs", Some(3), Some(1))), "t2", 40, 200);
    assert!(!r.ok);
}

#[test]
fn read_rejects_a_start_past_the_end_of_the_file() {
    let r = execute(&call("read", read_args("src/store.rs", Some(500), None)), "t2", 40, 200);
    assert!(!r.ok);
}

#[test]
fn list_files_returns_every_path() {
    let r = execute(&call("list_files", args()), "t3", 40, 200);
    assert!(r.ok);
    assert!(r.text.contains("src/store.rs"));
    assert!(r.text.contains("src/handler.rs"));
    assert!(r.evidence.is_empty());
    assert_eq!(r.text, "3 file(s):\nREADME.md\nsrc/handler.rs\nsrc/store.rs\n");
}

#[test]
fn unknown_tool_is_refused_with_the_available_names() {
    let r = execute(&call("exec_shell", args()), "t4", 40, 200);
    assert!(!r.ok);
    assert!(r.text.contains("search"));
}

#[test]
fn glob_reduces_to_prefix_and_suffix() {
    let f = glob_to_filter("src/**/*.rs");
    assert!(f.matches("src/a/b.rs"));
    assert!(!f.matches("tests/a.rs"));
    assert!(!f.matches("src/a/b.md"));
}

#[test]
fn suffix_only_glob_matches_anywhere() {
    let f = glob_to_filter("*.rs");
    assert!(f.matches("src/a.rs"));
    assert!(f.matches("b.rs"));
    assert!(!f.matches("a.md"));
}

#[test]
fn unrecognised_glob_matches_everything_rather_than_nothing() {
    let f = glob_to_filter("**");
    assert!(f.matches("anything/at/all.rs"));
}

use verified_code_reviewer::repo::{check_relative, skipped_entry, sorted_paths, RepoRoot};

#[test]
fn resolves_normal_relative_path() {
    assert_eq!(check_relative("src/lib.rs"), Ok("src/lib.rs".to_string()));
    assert_eq!(check_relative("./src/lib.rs"), Ok("src/lib.rs".to_string()));
}

#[test]
fn accepts_windows_separators() {
    assert_eq!(check_relative("src\\lib.rs"), Ok("src/lib.rs".to_string()));
}

#[test]
fn rejects_parent_traversal() {
    assert!(check_relative("../etc/passwd").is_err());
    assert!(check_relative("src/../../x").is_err());
    assert_eq!(
        check_relative("src/../../x"),
        Err("path escapes the repository root: src/../../x".to_string())
    );
}

#[test]
fn rejects_absolute_paths() {
    for bad in ["/etc/passwd", "C:\\Windows\\System32", "//server/share/x"] {
        assert!(check_relative(bad).is_err(), "should reject {bad}");
    }
    assert_eq!(
        check_relative("C:\\Windows\\System32"),
        Err("absolute paths are not allowed: C:/Windows/System32".to_string())
    );
    assert_eq!(
        check_relative("/etc/passwd"),
        Err("absolute paths are not allowed: /etc/passwd".to_string())
    );
}

#[test]
fn rejects_ground_truth_by_name() {
    assert!(check_relative("ground_truth.json").is_err());
    assert!(check_relative("sub/ground_truth.json").is_err());
    assert_eq!(
        check_relative("./x/ground_truth.json/."),
        Err("access to ground_truth.json is not permitted".to_string())
    );
}

#[test]
fn rejects_empty_path() {
    assert_eq!(check_relative(""), Err("empty path".to_string()));
    assert_eq!(check_relative("./"), Err("empty path".to_string()));
}

#[test]
fn a_root_reports_the_directory_it_was_made_at() {
    let r = RepoRoot::at("/tmp/case/repository".to_string());
    assert_eq!(r.path(), "/tmp/case/repository");
}

#[test]
fn a_listing_skips_git_and_target_and_comes_out_sorted() {
    assert!(skipped_entry(".git"));
    assert!(skipped_entry("target"));
    assert!(!skipped_entry("src"));
    assert!(!skipped_entry("targets"));
    let found = vec!["src/lib.rs".to_string(), "Cargo.toml".to_string(), "README.md".to_string(), "a/b.rs".to_string()];
    assert_eq!(sorted_paths(found), vec!["Cargo.toml", "README.md", "a/b.rs", "src/lib.rs"]);
}

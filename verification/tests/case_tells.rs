use verified_code_reviewer::bench::{description_tells, CaseCategory, CaseManifest, Language};

fn manifest(title: &str, description: &str, category: CaseCategory) -> CaseManifest {
    CaseManifest {
        case_id: "x".into(),
        title: title.into(),
        description: description.into(),
        category,
        language: Language::Rust,
    }
}

#[test]
fn a_description_stating_a_verdict_is_flagged() {
    let m = manifest(
        "Simplify the retry loop",
        "This introduces a subtle bug in the counter.",
        CaseCategory::RealIssue,
    );
    let tells = description_tells(&m);
    assert!(tells.contains(&"bug".to_string()));
    assert!(tells.contains(&"subtle".to_string()));
    assert_eq!(tells, vec!["bug".to_string(), "subtle".to_string()]);
}

#[test]
fn a_neutral_description_is_not_flagged() {
    let m = manifest(
        "Add size reporting for staged uploads",
        "A new module reports the staged size of a buffer, using the fixed protocol chunk size.",
        CaseCategory::Trap,
    );
    assert!(description_tells(&m).is_empty());
}

#[test]
fn the_word_mistake_is_deliberately_not_a_tell() {
    let m = manifest("t", "a caller mistake showed up as a phantom job", CaseCategory::Trap);
    assert!(description_tells(&m).is_empty());
}

#[test]
fn tells_are_found_in_the_title_case_insensitively_and_in_sorted_order() {
    let m = manifest("WRONG order; Leaks", "it's unsafe-ish, and broken", CaseCategory::Trap);
    assert_eq!(
        description_tells(&m),
        vec!["broken".to_string(), "leaks".to_string(), "unsafe".to_string(), "wrong".to_string()]
    );
    // An apostrophe joins a word: "bug's" is not the word "bug".
    let m = manifest("t", "the bug's owner", CaseCategory::Trap);
    assert!(description_tells(&m).is_empty());
}

#[test]
fn tells_are_whole_words_of_the_lowered_text() {
    assert_eq!(verified_code_reviewer::bench::tells_in_text("a subtle bug-fix"), vec!["bug".to_string(), "subtle".to_string()]);
    assert!(verified_code_reviewer::bench::tells_in_text("bugged, debug, leakage").is_empty());
    assert!(verified_code_reviewer::bench::tells_in_text("BUG").is_empty(), "the text is taken as already lowered");
}

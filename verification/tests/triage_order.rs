use verified_code_reviewer::triage::{read_answer, session_notes, shuffle, verdict_text, TriageAnswer};

#[test]
fn shuffle_is_deterministic_for_a_seed() {
    let mut a: Vec<u32> = (0..50).collect();
    let mut b: Vec<u32> = (0..50).collect();
    shuffle(&mut a, 42);
    shuffle(&mut b, 42);
    assert_eq!(a, b, "the same seed must reproduce the same order");
}

#[test]
fn different_seeds_give_different_orders() {
    let mut a: Vec<u32> = (0..50).collect();
    let mut b: Vec<u32> = (0..50).collect();
    shuffle(&mut a, 1);
    shuffle(&mut b, 2);
    assert_ne!(a, b);
}

#[test]
fn shuffle_preserves_every_item() {
    let mut a: Vec<u32> = (0..50).collect();
    shuffle(&mut a, 7);
    a.sort();
    assert_eq!(a, (0..50).collect::<Vec<_>>());
}

#[test]
fn shuffle_handles_degenerate_lengths() {
    let mut empty: Vec<u32> = vec![];
    shuffle(&mut empty, 3);
    assert!(empty.is_empty());
    let mut one = vec![9];
    shuffle(&mut one, 3);
    assert_eq!(one, vec![9]);
}

#[test]
fn a_two_item_shuffle_follows_the_first_draw() {
    // Seed 0 is forced odd (1); one xorshift step gives 1082269761, which is
    // odd, so position 1 draws itself and nothing moves.
    let mut two = vec!['a', 'b'];
    shuffle(&mut two, 0);
    assert_eq!(two, vec!['a', 'b']);
    // Seed 129 draws 137465168064, which is even: the two trade places.
    let mut two = vec!['a', 'b'];
    shuffle(&mut two, 129);
    assert_eq!(two, vec!['b', 'a']);
}

#[test]
fn the_session_records_its_own_limitations() {
    let notes = session_notes(None);
    assert_eq!(notes.len(), 3);
    assert!(notes.iter().any(|n| n.contains("understates")));
    let early = session_notes(Some("session ended early on request"));
    assert_eq!(early.len(), 4);
    assert_eq!(early[3], "session ended early on request");
}

#[test]
fn answers_are_read_after_trimming_and_lower_casing() {
    assert_eq!(read_answer(" R \n"), Some(TriageAnswer::Real));
    assert_eq!(read_answer("n"), Some(TriageAnswer::NotABug));
    assert_eq!(read_answer("U"), Some(TriageAnswer::Unsure));
    assert_eq!(read_answer("q"), Some(TriageAnswer::Quit));
    assert_eq!(read_answer("yes"), None);
    assert_eq!(verdict_text(TriageAnswer::NotABug), "not-a-bug");
}

#[test]
fn an_answer_is_read_from_the_lowered_line_exactly() {
    assert_eq!(verified_code_reviewer::triage::answer_from("r"), Some(TriageAnswer::Real));
    assert_eq!(verified_code_reviewer::triage::answer_from("R"), None);
    assert_eq!(verified_code_reviewer::triage::answer_from(" r"), None);
    assert_eq!(verified_code_reviewer::triage::answer_from("q"), Some(TriageAnswer::Quit));
}

use verified_code_reviewer::cases::admission::{apply, Limiter, Settings, Update};
use verified_code_reviewer::cases::editor::{Doc, Editor, Op};
use verified_code_reviewer::cases::ingest::{sample, Counters, Gauges, Pipeline};

#[test]
fn a_batch_summary_counts_the_batch() {
    let mut p = Pipeline::new();
    assert!(p.ingest("a"));
    assert!(p.ingest("b"));
    assert!(!p.ingest("  "));
    let s = p.finish_batch();
    assert_eq!(s.total, 3);
    assert_eq!(s.elapsed_ms, 6);
}

#[test]
fn a_new_batch_starts_from_zero() {
    let mut p = Pipeline::new();
    p.ingest("a");
    p.finish_batch();
    let s = p.finish_batch();
    assert_eq!(s.total, 0);
    assert_eq!(s.elapsed_ms, 0);
}

#[test]
fn blank_records_are_rejected() {
    let mut p = Pipeline::new();
    assert!(!p.ingest(""));
    assert!(!p.ingest("\t "));
    assert!(p.ingest("x"));
}

#[test]
fn a_read_reports_the_interval_and_restarts_it() {
    let mut c = Counters::new();
    c.record_accepted();
    c.record_accepted();
    assert_eq!(c.accepted(), 2);
    assert_eq!(c.accepted(), 0);
    c.record_accepted();
    assert_eq!(c.accepted(), 1);
}

#[test]
fn the_two_tallies_are_independent() {
    let mut c = Counters::new();
    c.record_accepted();
    c.record_rejected();
    assert_eq!(c.accepted(), 1);
    assert_eq!(c.rejected(), 1);
}

#[test]
fn sampling_reports_what_the_pipeline_recorded() {
    let mut p = Pipeline::new();
    p.ingest("a");
    p.ingest("b");
    p.ingest("   ");
    assert_eq!(
        sample(p.counters()),
        Gauges {
            accepted: 2,
            rejected: 1
        }
    );
}

#[test]
fn a_second_scrape_covers_only_new_records() {
    let mut p = Pipeline::new();
    p.ingest("a");
    let _ = sample(p.counters());
    assert_eq!(
        sample(p.counters()),
        Gauges {
            accepted: 0,
            rejected: 0
        }
    );
}

fn editor() -> Editor {
    Editor::new(Doc::new(vec!["one".into(), "two".into()]))
}

#[test]
fn an_operation_reaches_the_document() {
    let mut e = editor();
    e.run(Op::Insert {
        at: 1,
        text: "mid".into(),
    });
    assert_eq!(e.doc().lines(), vec!["one", "mid", "two"]);
}

#[test]
fn a_fresh_editor_has_nothing_to_save() {
    let mut e = editor();
    assert!(!e.save_if_needed());
    assert_eq!(e.saves(), 0);
}

#[test]
fn a_run_operation_is_saved_once() {
    let mut e = editor();
    e.run(Op::Remove { at: 0 });
    assert!(e.is_dirty());
    assert!(e.save_if_needed());
    assert!(!e.save_if_needed());
    assert_eq!(e.saves(), 1);
}

fn sample_doc() -> Doc {
    Doc::new(vec!["one".into(), "two".into()])
}

#[test]
fn inserting_adds_a_line() {
    let mut d = sample_doc();
    d.apply(&Op::Insert {
        at: 0,
        text: "zero".into(),
    });
    assert_eq!(d.lines(), vec!["zero", "one", "two"]);
}

#[test]
fn removing_drops_a_line() {
    let mut d = sample_doc();
    d.apply(&Op::Remove { at: 1 });
    assert_eq!(d.lines(), vec!["one"]);
}

#[test]
fn a_position_outside_the_document_is_ignored() {
    let mut d = sample_doc();
    d.apply(&Op::Remove { at: 99 });
    assert_eq!(d.len(), 2);
    assert!(!d.is_empty());
}

#[test]
fn the_checksum_follows_the_text() {
    let mut d = sample_doc();
    let before = d.checksum();
    d.apply(&Op::Insert {
        at: 0,
        text: "zero".into(),
    });
    assert_ne!(before, d.checksum());
}

#[test]
fn the_checksum_of_an_empty_document_is_the_basis() {
    assert_eq!(Doc::new(Vec::new()).checksum(), 0xcbf2_9ce4_8422_2325);
    let one = Doc::new(vec!["".into()]).checksum();
    assert_eq!(one, (0xcbf2_9ce4_8422_2325u64 ^ 0xff).wrapping_mul(0x0000_0100_0000_01b3));
}

#[test]
fn admits_up_to_the_limit_and_no_further() {
    let s = Settings::new(2);
    let mut l = Limiter::new(&s);
    assert!(l.try_start());
    assert!(l.try_start());
    assert!(!l.try_start());
    assert_eq!(l.running(), 2);
}

#[test]
fn a_finished_job_makes_room_for_another() {
    let s = Settings::new(1);
    let mut l = Limiter::new(&s);
    assert!(l.try_start());
    assert!(!l.try_start());
    l.finish();
    assert!(l.try_start());
    assert_eq!(l.running(), 1);
}

#[test]
fn finishing_with_nothing_in_flight_stays_at_zero() {
    let s = Settings::new(4);
    let mut l = Limiter::new(&s);
    l.finish();
    assert_eq!(l.running(), 0);
}

#[test]
fn a_limit_of_zero_admits_nothing() {
    let s = Settings::new(0);
    let mut l = Limiter::new(&s);
    assert!(!l.try_start());
}

#[test]
fn an_update_raises_the_limit() {
    let s = Settings::new(2);
    apply(&s, Update::ConcurrentJobs(8));
    assert_eq!(s.concurrent_jobs(), 8);
}

#[test]
fn an_update_lowers_the_limit() {
    let s = Settings::new(8);
    apply(&s, Update::ConcurrentJobs(1));
    assert_eq!(s.concurrent_jobs(), 1);
}

#[test]
fn a_reference_taken_earlier_sees_the_new_value() {
    let s = Settings::new(2);
    let view: &Settings = &s;
    s.set_concurrent_jobs(9);
    assert_eq!(view.concurrent_jobs(), 9);
}

#[test]
fn the_initial_value_is_what_was_configured() {
    assert_eq!(Settings::new(3).concurrent_jobs(), 3);
}

#[test]
fn a_limiter_sees_a_lowered_limit_at_once() {
    let s = Settings::new(3);
    let mut l = Limiter::new(&s);
    assert!(l.try_start());
    apply(&s, Update::ConcurrentJobs(1));
    assert!(!l.try_start());
    assert_eq!(l.running(), 1);
}

#[test]
fn an_edit_through_another_handle_is_seen_and_saved() {
    let d = Doc::new(vec!["one".into(), "two".into()]);
    let mut e = Editor::new(d.clone());
    d.apply(&Op::Remove { at: 0 });
    assert_eq!(e.doc().lines(), vec!["two"]);
    assert!(e.is_dirty());
    assert!(e.save_if_needed());
    assert_eq!(e.saves(), 1);
    assert!(!e.save_if_needed());
    assert_eq!(e.saves(), 1);
}

#[test]
fn every_handle_sees_an_edit() {
    let d = Doc::new(vec!["one".into(), "two".into()]);
    let d2 = d.clone();
    d.apply(&Op::Insert { at: 2, text: "three".into() });
    assert_eq!(d2.lines(), vec!["one", "two", "three"]);
    assert_eq!(d.checksum(), d2.checksum());
}

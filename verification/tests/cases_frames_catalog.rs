use verified_code_reviewer::cases::catalog::{find, target, Catalog, Entry};
use verified_code_reviewer::cases::frames::{
    declared_len, is_complete, kind, payload, Frame, FrameError, HEADER_LEN,
};

fn frame(bytes: &[u8]) -> Frame {
    Frame::parse(bytes).expect("test frames are well formed")
}

#[test]
fn the_header_fields_are_read_big_endian() {
    let f = frame(&[0x01, 0x02, 0x00, 0x03, 7, 8, 9]);
    assert_eq!(kind(&f), Some(0x0102));
    assert_eq!(declared_len(&f), Some(3));
}

#[test]
fn the_payload_is_everything_after_the_header() {
    let f = frame(&[0, 1, 0, 2, 42, 43]);
    assert_eq!(payload(&f), &[42, 43]);
}

#[test]
fn a_header_only_frame_has_an_empty_payload() {
    let f = frame(&[0, 1, 0, 0]);
    assert!(payload(&f).is_empty());
    assert!(is_complete(&f));
}

#[test]
fn a_frame_missing_payload_bytes_is_incomplete() {
    let f = frame(&[0, 1, 0, 4, 1, 2]);
    assert!(!is_complete(&f));
}

#[test]
fn a_frame_shorter_than_a_header_is_refused() {
    for n in 0..HEADER_LEN {
        let short = vec![0u8; n];
        assert!(matches!(Frame::parse(&short), Err(FrameError::Truncated)));
    }
}

#[test]
fn a_header_only_frame_is_accepted() {
    let f = Frame::parse(&[0, 1, 0, 0]).unwrap();
    assert_eq!(f.size(), HEADER_LEN);
}

#[test]
fn parse_keeps_the_bytes_as_they_arrived() {
    let f = Frame::parse(&[0, 7, 0, 2, 9, 9]).unwrap();
    assert_eq!(f.bytes(), &[0, 7, 0, 2, 9, 9]);
}

#[test]
fn a_cloned_frame_reads_the_same() {
    let f = frame(&[0xff, 0xfe, 0x01, 0x00, 1]);
    let g = f.clone();
    assert_eq!(kind(&g), Some(0xfffe));
    assert_eq!(declared_len(&g), Some(256));
    assert!(!is_complete(&g));
}

fn entry(name: &str, target: u32) -> Entry {
    Entry {
        name: name.to_string(),
        target,
    }
}

#[test]
fn building_orders_entries_by_name() {
    let c = Catalog::build(vec![entry("zeta", 1), entry("alpha", 2), entry("mid", 3)]);
    let names: Vec<&str> = c.entries().iter().map(|e| e.name.as_str()).collect();
    assert_eq!(names, ["alpha", "mid", "zeta"]);
}

#[test]
fn a_repeated_name_keeps_only_the_last_entry() {
    let c = Catalog::build(vec![entry("a", 1), entry("b", 2), entry("a", 9)]);
    assert_eq!(c.len(), 2);
    assert_eq!(c.entries()[0], entry("a", 9));
}

#[test]
fn an_empty_input_builds_an_empty_catalog() {
    let c = Catalog::build(vec![]);
    assert!(c.is_empty());
}

fn catalog() -> Catalog {
    Catalog::build(vec![
        entry("delta", 4),
        entry("alpha", 1),
        entry("charlie", 3),
        entry("bravo", 2),
    ])
}

#[test]
fn every_registered_name_is_found() {
    let c = catalog();
    for (name, want) in [("alpha", 1), ("bravo", 2), ("charlie", 3), ("delta", 4)] {
        assert_eq!(find(&c, name).map(|e| e.target), Some(want));
    }
}

#[test]
fn an_unregistered_name_is_not_found() {
    let c = catalog();
    assert!(find(&c, "echo").is_none());
    assert!(find(&c, "aardvark").is_none());
}

#[test]
fn target_reports_the_registered_target() {
    assert_eq!(target(&catalog(), "charlie"), Some(3));
    assert_eq!(target(&catalog(), "nobody"), None);
}

#[test]
fn a_lookup_in_an_empty_catalog_finds_nothing() {
    assert!(find(&Catalog::build(vec![]), "alpha").is_none());
}

#[test]
fn names_order_by_code_point() {
    let c = Catalog::build(vec![entry("b", 1), entry("B", 2), entry("ab", 3), entry("a", 4)]);
    let names: Vec<&str> = c.entries().iter().map(|e| e.name.as_str()).collect();
    assert_eq!(names, ["B", "a", "ab", "b"]);
    assert_eq!(target(&c, "ab"), Some(3));
}

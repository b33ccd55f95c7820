use verified_code_reviewer::cases::framing::{decode, encode, FrameError, HEADER_BYTES};
use verified_code_reviewer::cases::retry::{
    fetch_outcome, fetch_with_retry, parse_record, FetchError, Record, Transport, MAX_ATTEMPTS,
};
use verified_code_reviewer::cases::tags::{Tag, TagSet};

struct Scripted(Vec<Result<String, FetchError>>);

impl Transport for Scripted {
    fn get(&mut self) -> Result<String, FetchError> {
        if self.0.is_empty() {
            return Err(FetchError::Transport("script exhausted".into()));
        }
        self.0.remove(0)
    }
}

struct Fixed(Result<String, FetchError>);

impl Transport for Fixed {
    fn get(&mut self) -> Result<String, FetchError> {
        self.0.clone()
    }
}

#[test]
fn parses_a_record() {
    assert_eq!(parse_record("id=7"), Ok(Record { id: 7 }));
}

#[test]
fn retries_a_transport_failure_then_succeeds() {
    let mut t = Scripted(vec![
        Err(FetchError::Transport("reset".into())),
        Err(FetchError::Transport("reset".into())),
        Ok("id=7".to_string()),
    ]);
    let (r, attempts) = fetch_with_retry(&mut t);
    assert_eq!(r, Ok(Record { id: 7 }));
    assert_eq!(attempts, 3);
}

#[test]
fn gives_up_after_max_attempts() {
    let mut t = Fixed(Err(FetchError::Transport("reset".into())));
    let (r, attempts) = fetch_with_retry(&mut t);
    assert!(r.is_err());
    assert_eq!(attempts, MAX_ATTEMPTS);
}

#[test]
fn an_unauthorized_response_is_not_retried() {
    let mut t = Fixed(Err(FetchError::Unauthorized));
    let (r, attempts) = fetch_with_retry(&mut t);
    assert!(r.is_err());
    assert_eq!(attempts, 1);
}

#[test]
fn a_body_that_does_not_parse_is_reported_as_an_error() {
    let mut t = Fixed(Ok("nonsense".to_string()));
    let (r, _) = fetch_with_retry(&mut t);
    assert!(r.is_err());
}

#[test]
fn only_transport_is_retryable() {
    assert!(FetchError::Transport("reset".into()).is_retryable());
    assert!(!FetchError::Malformed("bad".into()).is_retryable());
    assert!(!FetchError::Unauthorized.is_retryable());
}

#[test]
fn parse_errors_quote_what_they_saw() {
    let e = parse_record("nonsense").unwrap_err();
    assert_eq!(e.0, "no id= prefix in \"nonsense\"");
    let e = parse_record("id=x7").unwrap_err();
    assert_eq!(e.0, "id \"x7\" is not a number");
    assert_eq!(parse_record("id= 42 "), Ok(Record { id: 42 }));
    assert!(parse_record("id=4294967296").is_err());
}

#[test]
fn a_malformed_body_becomes_a_malformed_error() {
    match fetch_outcome(Ok("id=".to_string())) {
        Err(FetchError::Malformed(m)) => assert_eq!(m, "id \"\" is not a number"),
        other => panic!("unexpected {other:?}"),
    }
    assert_eq!(
        fetch_outcome(Err(FetchError::Unauthorized)),
        Err(FetchError::Unauthorized)
    );
}

#[test]
fn round_trips_a_small_payload() {
    let frame = encode(b"hello").unwrap();
    assert_eq!(frame.len(), HEADER_BYTES + 5);
    assert_eq!(decode(&frame), Ok(b"hello".to_vec()));
}

#[test]
fn round_trips_an_empty_payload() {
    let frame = encode(b"").unwrap();
    assert_eq!(decode(&frame), Ok(Vec::new()));
}

#[test]
fn refuses_an_oversized_payload() {
    let huge = vec![0u8; 10_000];
    assert!(matches!(
        encode(&huge),
        Err(FrameError::PayloadTooLarge { .. })
    ));
}

#[test]
fn decode_refuses_an_oversized_frame() {
    let huge = vec![0u8; 5_000];
    assert!(matches!(
        decode(&huge),
        Err(FrameError::FrameTooLarge { .. })
    ));
}

#[test]
fn decode_refuses_a_truncated_frame() {
    assert_eq!(decode(&[0, 0, 0]), Err(FrameError::Truncated));
    let mut frame = encode(b"hello").unwrap();
    frame.truncate(HEADER_BYTES + 2);
    assert_eq!(decode(&frame), Err(FrameError::Truncated));
}

#[test]
fn the_header_is_the_big_endian_length() {
    let payload = vec![7u8; 300];
    let frame = encode(&payload).unwrap();
    assert_eq!(&frame[..8], &[0, 0, 1, 44, 0, 0, 0, 0]);
    assert_eq!(decode(&frame), Ok(payload));
    let largest = vec![1u8; 4088];
    let frame = encode(&largest).unwrap();
    assert_eq!(frame.len(), 4096);
    assert_eq!(decode(&frame), Ok(largest));
}

#[test]
fn identical_tags_are_equal() {
    assert_eq!(Tag::new("release"), Tag::new("release"));
}

#[test]
fn different_tags_are_not_equal() {
    assert_ne!(Tag::new("release"), Tag::new("draft"));
}

#[test]
fn as_str_keeps_the_original_spelling() {
    assert_eq!(Tag::new("Release").as_str(), "Release");
}

#[test]
fn a_new_set_is_empty() {
    let s = TagSet::new();
    assert!(s.is_empty());
    assert_eq!(s.len(), 0);
}

#[test]
fn inserting_the_same_tag_twice_is_a_no_op() {
    let mut s = TagSet::new();
    assert!(s.insert(Tag::new("release")));
    assert!(!s.insert(Tag::new("release")));
    assert_eq!(s.len(), 1);
}

#[test]
fn an_inserted_tag_is_found() {
    let mut s = TagSet::new();
    s.insert(Tag::new("release"));
    assert!(s.contains(&Tag::new("release")));
    assert!(!s.contains(&Tag::new("draft")));
}

#[test]
fn distinct_tags_are_all_kept() {
    let mut s = TagSet::new();
    s.insert(Tag::new("release"));
    s.insert(Tag::new("draft"));
    assert_eq!(s.len(), 2);
}

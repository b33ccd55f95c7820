use verified_code_reviewer::cases::query::{
    parse_body, parse_query, QueryError, MAX_BODY_LEN, MAX_PAIRS, MAX_QUERY_LEN,
};
use verified_code_reviewer::cases::ringlog::{Config as LogConfig, Entry, LogError, Logger, RingBuffer, HARD_CAP};
use verified_code_reviewer::cases::throttle::{parse_config, Config, ConfigError, Limiter};

fn pairs(v: &[(&str, &str)]) -> Vec<(String, String)> {
    v.iter()
        .map(|(k, x)| ((*k).to_string(), (*x).to_string()))
        .collect()
}

#[test]
fn parses_an_ordinary_query() {
    assert_eq!(
        parse_query("a=1&b=2"),
        Ok(pairs(&[("a", "1"), ("b", "2")]))
    );
}

#[test]
fn tolerates_empty_segments_and_missing_values() {
    assert_eq!(parse_query("&a&&b=&"), Ok(pairs(&[("a", ""), ("b", "")])));
}

#[test]
fn refuses_a_segment_with_no_key() {
    assert_eq!(parse_query("a=1&=2"), Err(QueryError::EmptyKey));
}

#[test]
fn refuses_an_overlong_query() {
    let q = "a=".to_string() + &"x".repeat(MAX_QUERY_LEN);
    assert!(matches!(parse_query(&q), Err(QueryError::TooLong { .. })));
}

#[test]
fn parses_an_ordinary_body() {
    assert_eq!(parse_body("a=1&b=2"), Ok(pairs(&[("a", "1"), ("b", "2")])));
}

#[test]
fn refuses_a_body_with_too_many_pairs() {
    let body = (0..MAX_PAIRS + 1)
        .map(|i| format!("k{i}=1"))
        .collect::<Vec<_>>()
        .join("&");
    assert_eq!(parse_body(&body), Err(QueryError::TooManyPairs));
}

#[test]
fn refuses_an_overlong_body() {
    let body = "x".repeat(MAX_BODY_LEN + 1);
    assert!(matches!(parse_body(&body), Err(QueryError::TooLong { .. })));
}

#[test]
fn a_value_keeps_later_equals_signs() {
    assert_eq!(parse_query("a=b=c"), Ok(pairs(&[("a", "b=c")])));
    let body = (0..MAX_PAIRS)
        .map(|i| format!("k{i}=1"))
        .collect::<Vec<_>>()
        .join("&");
    assert_eq!(parse_body(&body).unwrap().len(), MAX_PAIRS);
    assert_eq!(
        parse_query(&"x".repeat(MAX_QUERY_LEN + 1)),
        Err(QueryError::TooLong { len: MAX_QUERY_LEN + 1, limit: MAX_QUERY_LEN })
    );
}

#[test]
fn reads_rate_and_burst() {
    assert_eq!(
        parse_config("rate = 10\nburst = 20"),
        Ok(Config {
            rate_per_sec: 10,
            burst: 20
        })
    );
}

#[test]
fn skips_comments_and_blank_lines() {
    let text = "# tenant acme\n\nrate = 3\n\n# burst below\nburst = 9\n";
    assert_eq!(
        parse_config(text),
        Ok(Config {
            rate_per_sec: 3,
            burst: 9
        })
    );
}

#[test]
fn refuses_a_rate_that_does_not_parse() {
    assert_eq!(
        parse_config("rate = fast\nburst = 9"),
        Err(ConfigError::Invalid("rate"))
    );
}

#[test]
fn a_parsed_config_builds_a_working_limiter() {
    let mut l = parse_config("rate = 1\nburst = 1").unwrap().into_limiter();
    assert!(l.allow());
    assert!(!l.allow());
}

#[test]
fn missing_keys_take_their_defaults_and_the_last_setting_wins() {
    assert_eq!(
        parse_config(""),
        Ok(Config {
            rate_per_sec: 1,
            burst: 5
        })
    );
    assert_eq!(
        parse_config("burst = 2\nburst = 7\nother = x"),
        Ok(Config {
            rate_per_sec: 1,
            burst: 7
        })
    );
    assert_eq!(
        parse_config("rate = 2\nburst = lots"),
        Err(ConfigError::Invalid("burst"))
    );
}

#[test]
fn admits_up_to_the_burst_then_refuses() {
    let mut l = Limiter::new(1, 2);
    assert!(l.allow());
    assert!(l.allow());
    assert!(!l.allow());
}

#[test]
fn a_tick_refills_up_to_the_burst() {
    let mut l = Limiter::new(10, 2);
    assert!(l.allow());
    assert!(l.allow());
    l.tick();
    assert!(l.allow());
    assert!(l.allow());
    assert!(!l.allow());
}

#[test]
fn a_zero_burst_admits_everything() {
    let mut l = Limiter::new(1, 0);
    assert!(l.is_unlimited());
    for _ in 0..1000 {
        assert!(l.allow());
    }
}

fn entry(msg: &str) -> Entry {
    Entry {
        level: 1,
        message: msg.to_string(),
    }
}

#[test]
fn a_request_above_the_hard_cap_is_clamped() {
    assert_eq!(RingBuffer::with_capacity(1_000).capacity(), HARD_CAP);
}

#[test]
fn a_request_below_the_hard_cap_is_honoured() {
    assert_eq!(RingBuffer::with_capacity(5).capacity(), 5);
}

#[test]
fn pushing_into_a_full_ring_replaces_the_oldest_entry() {
    let mut r = RingBuffer::with_capacity(2);
    r.push(entry("a"));
    r.push(entry("b"));
    assert!(r.is_full());
    r.push(entry("c"));
    assert_eq!(r.len(), 2);
    let msgs: Vec<&str> = r.iter().map(|e| e.message.as_str()).collect();
    assert!(!msgs.contains(&"a"));
    assert!(msgs.contains(&"c"));
}

#[test]
fn a_fresh_ring_is_empty() {
    assert!(RingBuffer::with_capacity(4).is_empty());
}

#[test]
fn a_zero_request_still_holds_one_entry() {
    let mut r = RingBuffer::with_capacity(0);
    assert_eq!(r.capacity(), 1);
    r.push(entry("x"));
    r.push(entry("y"));
    let msgs: Vec<&str> = r.iter().map(|e| e.message.as_str()).collect();
    assert_eq!(msgs, vec!["y"]);
}

fn logger(max: usize) -> Logger {
    Logger::new(LogConfig::new(max))
}

#[test]
fn stores_appended_entries() {
    let mut l = logger(4);
    assert!(l.append(1, "a").is_ok());
    assert!(l.append(1, "b").is_ok());
    assert_eq!(l.stored(), 2);
    assert_eq!(l.messages(), vec!["a".to_string(), "b".to_string()]);
}

#[test]
fn reports_full_at_the_configured_limit() {
    let mut l = logger(2);
    assert!(l.append(1, "a").is_ok());
    assert!(l.append(1, "b").is_ok());
    assert_eq!(l.append(1, "c"), Err(LogError::Full));
    assert_eq!(l.rejected(), 1);
    assert_eq!(l.stored(), 2);
}

#[test]
fn a_refused_append_stores_nothing() {
    let mut l = logger(1);
    assert!(l.append(1, "a").is_ok());
    let _ = l.append(1, "b");
    assert_eq!(l.messages(), vec!["a".to_string()]);
}

#[test]
fn a_limit_above_the_ring_refuses_instead_of_overwriting() {
    let mut l = logger(HARD_CAP + 10);
    for i in 0..HARD_CAP {
        assert!(l.append(1, &format!("m{i}")).is_ok());
    }
    assert_eq!(l.append(1, "extra"), Err(LogError::Full));
    assert_eq!(l.rejected(), 1);
    assert_eq!(l.stored(), HARD_CAP);
    assert_eq!(l.messages()[0], "m0");
}

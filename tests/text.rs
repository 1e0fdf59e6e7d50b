use agent_viz::duration::{parse_duration, parse_since};
use agent_viz::json::{json_text, parse_json};
use agent_viz::text::{contains_text, last_segment_of, parse_i64, text_less};
use agent_viz::timestamp::{epoch_to_instant, json_to_instant, text_to_instant, to_epoch_seconds};

const NOW: i64 = 1_800_000_000;

#[test]
fn timestamp_encodings_normalize_to_one_instant() {
    let from_text = text_to_instant("2024-01-01T00:00:00Z", NOW);
    assert_eq!(from_text, 1_704_067_200);
    assert_eq!(epoch_to_instant(1_704_067_200, NOW), from_text);
    assert_eq!(epoch_to_instant(1_704_067_200_000, NOW), from_text);
    let v = parse_json(r#"{"a":"2024-01-01T02:00:00+02:00","b":1704067200000,"c":true}"#).unwrap();
    assert_eq!(json_to_instant(v.get("a"), NOW), from_text);
    assert_eq!(json_to_instant(v.get("b"), NOW), from_text);
    assert_eq!(json_to_instant(v.get("c"), NOW), NOW);
    assert_eq!(json_to_instant(None, NOW), NOW);
    assert_eq!(to_epoch_seconds(1_000_000_000_001), 1_000_000_000);
    assert_eq!(epoch_to_instant(i64::MAX, NOW), NOW);
}

#[test]
fn unparseable_timestamp_falls_back() {
    assert_eq!(text_to_instant("yesterday", NOW), NOW);
    assert_eq!(epoch_to_instant(-9_000_000_000_000, NOW), NOW);
}

#[test]
fn relative_durations() {
    assert_eq!(parse_duration("7d"), Ok(7 * 86_400));
    assert_eq!(parse_duration("12h"), Ok(12 * 3_600));
    assert_eq!(parse_duration("2w"), Ok(2 * 604_800));
    assert_eq!(parse_duration("3m"), Ok(3 * 30 * 86_400));
    assert_eq!(parse_duration("5min"), Err("Invalid duration format: 5min. Use Nd, Nh, Nw, Nm".to_string()));
    assert_eq!(parse_duration("5y"), Err("Invalid duration format: 5y. Use Nd, Nh, Nw, Nm".to_string()));
    assert!(parse_duration("xd").is_err());
    assert!(parse_duration("99999999999999999d").is_err());
    assert_eq!(parse_since("", NOW), Ok(None));
    assert_eq!(parse_since("1d", NOW), Ok(Some(NOW - 86_400)));
    assert!(parse_since("1q", NOW).is_err());
}

#[test]
fn decimal_numbers() {
    assert_eq!(parse_i64("42"), Some(42));
    assert_eq!(parse_i64("-7"), Some(-7));
    assert_eq!(parse_i64("+7"), Some(7));
    assert_eq!(parse_i64("9223372036854775807"), Some(i64::MAX));
    assert_eq!(parse_i64("-9223372036854775808"), Some(i64::MIN));
    assert_eq!(parse_i64("9223372036854775808"), None);
    assert_eq!(parse_i64(""), None);
    assert_eq!(parse_i64("-"), None);
    assert_eq!(parse_i64("1x"), None);
}

#[test]
fn text_helpers() {
    assert!(contains_text("gpt-5.3", "gpt-5"));
    assert!(!contains_text("gpt", "gpt-5"));
    assert!(contains_text("abc", ""));
    assert_eq!(last_segment_of("https://h/o/repo", '/'), "repo");
    assert_eq!(last_segment_of("plain", '/'), "plain");
    assert!(text_less("prt_1", "prt_10"));
    assert!(text_less("prt_10", "prt_2"));
    assert!(!text_less("b", "a"));
}

#[test]
fn json_round_trip_text() {
    let v = parse_json(r#"{"b":[1,2.5,"x",null,false],"a":{}}"#).unwrap();
    assert_eq!(json_text(&v), r#"{"a":{},"b":[1,2.5,"x",null,false]}"#);
    assert!(parse_json("{").is_none());
}

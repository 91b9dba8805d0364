use tempo_cli::time::{parse_optional_time, parse_time, parse_time_at, resolve_window, TimeError};

const NOW: i64 = 1_704_067_200; // 2024-01-01T00:00:00Z

fn at(input: &str) -> Result<String, TimeError> {
    parse_time_at(input, NOW, 0)
}

#[test]
fn now_is_current_timestamp() {
    assert_eq!(at("now").unwrap(), NOW.to_string());
    assert_eq!(parse_time_at("now", 5, 999_999_999).unwrap(), "5");
}

#[test]
fn durations_count_back() {
    assert_eq!(at("1h").unwrap(), (NOW - 3600).to_string());
    assert_eq!(at("30m").unwrap(), (NOW - 1800).to_string());
    assert_eq!(at("2d").unwrap(), (NOW - 2 * 86400).to_string());
    assert_eq!(at("1h 30m").unwrap(), (NOW - 5400).to_string());
    assert_eq!(at("1.5h").unwrap(), (NOW - 5400).to_string());
    assert_eq!(at("0s").unwrap(), NOW.to_string());
}

#[test]
fn durations_round_down_to_seconds() {
    assert_eq!(at("1ms").unwrap(), (NOW - 1).to_string());
    assert_eq!(parse_time_at("1ms", NOW, 500_000_000).unwrap(), NOW.to_string());
    assert_eq!(parse_time_at("1500ms", NOW, 600_000_000).unwrap(), (NOW - 1).to_string());
}

#[test]
fn rfc3339_times() {
    assert_eq!(at("2024-01-01T00:00:00Z").unwrap(), "1704067200");
    assert_eq!(at("2024-01-01T01:00:00+01:00").unwrap(), "1704067200");
    assert_eq!(at("1969-12-31T23:59:59Z").unwrap(), "-1");
}

#[test]
fn unix_timestamps_pass_through() {
    assert_eq!(at("1704067200").unwrap(), "1704067200");
    assert_eq!(at("+12").unwrap(), "+12");
    assert_eq!(at("-5").unwrap(), "-5");
    assert_eq!(at("0042").unwrap(), "0042");
    assert_eq!(at("0").unwrap(), "0");
    assert_eq!(parse_time_at("0", 5, 0).unwrap(), "0");
}

#[test]
fn invalid_time_is_refused_with_message() {
    let e = at("yesterday").unwrap_err();
    assert_eq!(
        e.message(),
        "Invalid time format: yesterday. Use 'now', duration (1h, 30m), RFC3339, or Unix timestamp"
    );
    assert!(matches!(e, TimeError::InvalidFormat { .. }));
    assert!(at("").is_err());
    assert!(at("99999999999999999999").is_err());
}

#[test]
fn overlong_duration_is_out_of_range() {
    let e = at("10000000y").unwrap_err();
    assert!(matches!(e, TimeError::OutOfRange));
    assert_eq!(e.message(), "Source duration value is out of range for the target type");
}

#[test]
fn clock_based_resolution() {
    let before = std::time::SystemTime::now().duration_since(std::time::UNIX_EPOCH).unwrap().as_secs() as i64;
    let now: i64 = parse_time("now").unwrap().parse().unwrap();
    let hour_ago: i64 = parse_time("1h").unwrap().parse().unwrap();
    let after = std::time::SystemTime::now().duration_since(std::time::UNIX_EPOCH).unwrap().as_secs() as i64;
    assert!(before <= now && now <= after);
    assert!(before - 3600 <= hour_ago && hour_ago <= after - 3600);
    assert_eq!(parse_time("1704067200").unwrap(), "1704067200");
}

#[test]
fn optional_times() {
    assert!(matches!(parse_optional_time(None), Ok(None)));
    assert_eq!(parse_optional_time(Some("1704067200")).unwrap(), Some("1704067200".to_string()));
    assert!(parse_optional_time(Some("bad")).is_err());
}

#[test]
fn window_reports_first_refusal() {
    match resolve_window(Some("bad-start"), Some("bad-end")) {
        Err(TimeError::InvalidFormat { input }) => assert_eq!(input, "bad-start"),
        _ => panic!("expected the start to be refused"),
    }
    match resolve_window(Some("1"), Some("bad-end")) {
        Err(TimeError::InvalidFormat { input }) => assert_eq!(input, "bad-end"),
        _ => panic!("expected the end to be refused"),
    }
    let (s, e) = resolve_window(None, Some("7")).unwrap();
    assert_eq!(s, None);
    assert_eq!(e, Some("7".to_string()));
}

#[test]
fn absolute_times_do_not_depend_on_clock() {
    for input in ["2024-01-01T00:00:00Z", "1704067200", "nonsense"] {
        let a = parse_time_at(input, 1, 0).map_err(|e| e.message());
        let b = parse_time_at(input, 9_999_999, 123).map_err(|e| e.message());
        assert_eq!(a, b, "input {:?}", input);
    }
}

#[test]
fn resolved_times_resolve_to_themselves() {
    for input in ["now", "1h", "2024-01-01T00:00:00Z", "1970-01-01T00:00:00Z", "-5", "0"] {
        let first = at(input).unwrap();
        assert_eq!(at(&first).unwrap(), first, "input {:?}", input);
    }
}

#[test]
fn longer_durations_are_earlier() {
    let a: i64 = at("90m").unwrap().parse().unwrap();
    let b: i64 = at("2h").unwrap().parse().unwrap();
    let c: i64 = at("2h 1ns").unwrap().parse().unwrap();
    assert!(b <= a);
    assert!(c <= b);
}

#[test]
fn overlong_durations() {
    // humantime reads u64::MAX seconds, more than chrono's TimeDelta holds.
    assert!(matches!(at("18446744073709551615s"), Err(TimeError::OutOfRange)));
    // humantime refuses these (a later error, an overflowing sum or product),
    // or would panic on the first two; they are no duration.
    for input in [
        "18446744073709551615s 1000000000ns",
        "18446744073709551615s1000000000ns",
        "18446744073709551615s x",
        "18446744073709551615s 1s",
        "584942417356y",
    ] {
        match at(input) {
            Err(e @ TimeError::InvalidFormat { .. }) => assert_eq!(
                e.message(),
                format!("Invalid time format: {}. Use 'now', duration (1h, 30m), RFC3339, or Unix timestamp", input)
            ),
            _ => panic!("input {:?} should be an invalid time", input),
        }
    }
}

#[test]
fn chrono_earliest_date_bounds_durations() {
    let to_earliest = NOW + 8_334_601_228_800;
    assert_eq!(at(&format!("{}s", to_earliest)).unwrap(), "-8334601228800");
    assert!(matches!(at(&format!("{}s", to_earliest + 1)), Err(TimeError::OutOfRange)));
    // More seconds than chrono's TimeDelta holds.
    assert!(matches!(at("9223372036854776s"), Err(TimeError::OutOfRange)));
}

use tempo_cli::format::format_duration_ms;

fn reference(ms: u64) -> String {
    if ms < 1000 {
        format!("{}ms", ms)
    } else if ms < 60_000 {
        format!("{:.1}s", ms as f64 / 1000.0)
    } else {
        format!("{:.1}m", ms as f64 / 60_000.0)
    }
}

#[test]
fn duration_milliseconds() {
    assert_eq!(format_duration_ms(0), "0ms");
    assert_eq!(format_duration_ms(7), "7ms");
    assert_eq!(format_duration_ms(999), "999ms");
}

#[test]
fn duration_seconds() {
    assert_eq!(format_duration_ms(1000), "1.0s");
    assert_eq!(format_duration_ms(1500), "1.5s");
    assert_eq!(format_duration_ms(59_999), "60.0s");
}

#[test]
fn duration_minutes() {
    assert_eq!(format_duration_ms(60_000), "1.0m");
    assert_eq!(format_duration_ms(90_000), "1.5m");
    assert_eq!(format_duration_ms(3_600_000), "60.0m");
}

#[test]
fn duration_seconds_match_float_formatting() {
    for ms in 1000..60_000u64 {
        assert_eq!(format_duration_ms(ms), reference(ms), "ms = {}", ms);
    }
}

#[test]
fn duration_minutes_match_float_formatting() {
    for ms in 60_000..400_000u64 {
        assert_eq!(format_duration_ms(ms), reference(ms), "ms = {}", ms);
    }
    let mut ms: u64 = 400_000;
    while ms < u64::MAX / 3 {
        for d in 0..40u64 {
            let v = ms + d;
            assert_eq!(format_duration_ms(v), reference(v), "ms = {}", v);
        }
        ms = ms / 2 * 3 + 7;
    }
    for v in [u64::MAX, u64::MAX - 1, (1u64 << 53) - 1, 1u64 << 53, (1u64 << 53) + 1, (1u64 << 53) + 3, (1u64 << 63) + 1025] {
        assert_eq!(format_duration_ms(v), reference(v), "ms = {}", v);
    }
}

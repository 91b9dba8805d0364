use tempo_cli::duration_bound::duration_bound;

#[test]
fn bounds_of_duration_texts() {
    assert_eq!(duration_bound("1h"), (3600, false));
    assert_eq!(duration_bound("1h 30m"), (5400, false));
    assert_eq!(duration_bound("1.5h"), (7200, false));
    assert_eq!(duration_bound("250ms"), (1, false));
    assert_eq!(duration_bound("2d"), (172800, false));
    assert_eq!(duration_bound("1704067200"), (0, false));
    assert_eq!(duration_bound("2024-01-01T00:00:00Z"), (0, true));
    assert_eq!(duration_bound("5x 99999999999999y"), (0, true));
    assert_eq!(duration_bound("18446744073709551615s"), (u64::MAX, false));
    assert_eq!(duration_bound("18446744073709551615s 1000000000ns"), (u64::MAX, true));
    assert_eq!(duration_bound("18446744073709551615s x"), (u64::MAX, true));
    assert_eq!(duration_bound("99999999999999999999s"), (0, true));
}

#[test]
fn bound_covers_humantime() {
    for input in ["1h", "2h 37min", "4.2s", "32ms", "1y 2M 3w 4d 5h 6m 7s 8ms 9us 10ns", "1 0 s", "3 h", "1.5 h", "7\u{b5}s"] {
        let d = humantime::parse_duration(input).unwrap();
        assert!(d.as_secs() <= duration_bound(input).0, "input {:?}", input);
    }
}

#[test]
fn certain_refusals_are_refused_by_humantime() {
    for input in ["5x", "1h !", "2024-01-01T00:00:00Z", "18446744073709551615s 1s", "18446744073709551615s x", "1.5.h", "5s m", ".5h", "1.h", "h"] {
        assert!(duration_bound(input).1, "input {:?}", input);
        assert!(humantime::parse_duration(input).is_err(), "input {:?}", input);
    }
}

#[test]
fn bound_covers_every_humantime_unit() {
    let units = [
        "nanos", "nsec", "ns", "usec", "us", "\u{b5}s", "millis", "msec", "ms", "seconds", "second", "secs", "sec", "s",
        "minutes", "minute", "min", "mins", "m", "hours", "hour", "hr", "hrs", "h", "days", "day", "d", "weeks", "week",
        "wk", "wks", "w", "months", "month", "M", "years", "year", "yr", "yrs", "y",
    ];
    for unit in units {
        for number in ["7", "1.5", "999999999", "2.25"] {
            let input = format!("{}{}", number, unit);
            let (bound, refused) = duration_bound(&input);
            match humantime::parse_duration(&input) {
                Ok(d) => assert!(d.as_secs() <= bound && !refused, "input {:?}", input),
                Err(_) => {},
            }
        }
    }
}

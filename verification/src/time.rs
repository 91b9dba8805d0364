//! Resolution of the `--start` / `--end` arguments to Unix timestamps.
//!
//! An argument is `now`, a Unix timestamp (an integer, passed on as
//! written), a relative duration before now (`1h`, `30m`, `2d`), or an
//! RFC 3339 date-time, tried in that order; the result is the decimal text
//! of the Unix timestamp in seconds.
use vstd::prelude::*;
use crate::text::{decimal_int, i64_to_decimal, parse_i64, parse_i64_spec, str_equals};
use crate::client::{opt_ref_view, opt_string_view};
use crate::duration_bound::{duration_bound, duration_certainly_refused, duration_seconds_bound};
use vstd::string::StringExecFns;

verus! {

/// Why a time argument was refused.
#[derive(Debug)]
pub enum TimeError {
    /// The argument is none of the accepted forms.
    InvalidFormat { input: String },
    /// The duration is too long for chrono, or reaches before the earliest
    /// time it represents.
    OutOfRange,
}

/// A `TimeError` with its text as a sequence of characters.
pub enum TimeErrorView {
    InvalidFormat(Seq<char>),
    OutOfRange,
}

impl View for TimeError {
    type V = TimeErrorView;

    open spec fn view(&self) -> TimeErrorView {
        match self {
            TimeError::InvalidFormat { input } => TimeErrorView::InvalidFormat(input@),
            TimeError::OutOfRange => TimeErrorView::OutOfRange,
        }
    }
}

/// The message of a refused time argument.
pub open spec fn time_error_message(e: TimeErrorView) -> Seq<char> {
    match e {
        TimeErrorView::InvalidFormat(input) => "Invalid time format: "@ + input
            + ". Use 'now', duration (1h, 30m), RFC3339, or Unix timestamp"@,
        TimeErrorView::OutOfRange => "Source duration value is out of range for the target type"@,
    }
}

impl TimeError {
    /// The message shown for this error.
    pub fn message(&self) -> (s: String)
        ensures
            s@ == time_error_message(self@),
    {
        match self {
            TimeError::InvalidFormat { input } => {
                let mut s = String::from_str("Invalid time format: ");
                s.append(input.as_str());
                s.append(". Use 'now', duration (1h, 30m), RFC3339, or Unix timestamp");
                s
            },
            TimeError::OutOfRange => String::from_str(
                "Source duration value is out of range for the target type",
            ),
        }
    }
}

/// A resolved time, or why it was refused, as values.
pub open spec fn time_result_view(r: Result<String, TimeError>) -> Result<Seq<char>, TimeErrorView> {
    match r {
        Ok(s) => Ok(s@),
        Err(e) => Err(e@),
    }
}

/// What `humantime::parse_duration` gives for a text: whole seconds and
/// nanoseconds, or nothing where it refuses the text.
pub uninterp spec fn humantime_duration(s: Seq<char>) -> Option<(u64, u32)>;

/// The Unix timestamp (whole seconds) of the instant `secs.nanos` seconds
/// before the instant `now_secs.now_nanos`, as chrono computes it, or nothing
/// where chrono cannot represent a value on the way.
pub uninterp spec fn chrono_seconds_before(now_secs: i64, now_nanos: u32, secs: u64, nanos: u32) -> Option<i64>;

/// The Unix timestamp (seconds) of an RFC 3339 date-time text, as chrono
/// parses it, or nothing where chrono refuses the text.
pub uninterp spec fn rfc3339_seconds(s: Seq<char>) -> Option<i64>;

/// `chrono::Utc::now()`, as its Unix timestamp and nanoseconds past it.
/// chrono builds it from the system clock's time since the Unix epoch (and
/// panics when the clock reads before the epoch), so the seconds are not
/// negative and the nanoseconds are below one second. Which instant comes
/// back is not stated: it is the clock's.
#[verifier::external_body]
fn utc_now() -> (r: (i64, u32))
    ensures
        0 <= r.0,
        r.1 < 1_000_000_000,
{
    let now = chrono::Utc::now();
    (now.timestamp(), now.timestamp_subsec_nanos())
}

/// `humantime::parse_duration(s)`, as whole seconds and nanoseconds. The
/// result is named, not stated: the grammar of durations is humantime's.
/// What is stated is that a `std::time::Duration` keeps its nanoseconds
/// below one second. humantime panics when its running seconds reach
/// `u64::MAX` with a carry of one whole second from the nanoseconds; the
/// `requires` keeps to texts whose `duration_seconds_bound` (an upper bound
/// on those running seconds) is below `u64::MAX`.
#[verifier::external_body]
fn parse_duration(s: &str) -> (r: Option<(u64, u32)>)
    requires
        duration_seconds_bound(s@) < u64::MAX,
    ensures
        r == humantime_duration(s@),
        r matches Some(d) ==> d.1 < 1_000_000_000,
{
    match humantime::parse_duration(s) {
        Ok(d) => Some((d.as_secs(), d.subsec_nanos())),
        Err(_) => None,
    }
}

/// The floor of `(now_secs.now_nanos) - (secs.nanos)` in whole seconds.
pub open spec fn floor_seconds_before(now_secs: int, now_nanos: int, secs: int, nanos: int) -> int {
    (now_secs * 1_000_000_000 + now_nanos - secs * 1_000_000_000 - nanos) / 1_000_000_000
}

/// `DateTime::<Utc>::checked_sub_signed` of `TimeDelta::from_std(secs.nanos)`
/// on the instant `now_secs.now_nanos`, then `timestamp()`. Stated: when a
/// value comes back it is the floor of the difference in seconds, and it is
/// not before -262143-01-01T00:00:00Z (timestamp -8334601228800), chrono's
/// earliest date; `from_std` refuses more seconds than `TimeDelta::MAX`
/// holds (`i64::MAX` milliseconds); and for instants from 1970 to 2^35
/// seconds after it and durations up to 2^53 seconds, a value comes back
/// exactly when that floor is not before chrono's earliest date.
#[verifier::external_body]
fn seconds_before(now_secs: i64, now_nanos: u32, secs: u64, nanos: u32) -> (r: Option<i64>)
    requires
        nanos < 1_000_000_000,
    ensures
        r == chrono_seconds_before(now_secs, now_nanos, secs, nanos),
        now_nanos < 1_000_000_000 ==> (r matches Some(t) ==> t == floor_seconds_before(
            now_secs as int,
            now_nanos as int,
            secs as int,
            nanos as int,
        )),
        r matches Some(t) ==> t >= -8_334_601_228_800,
        secs > 9_223_372_036_854_775 ==> r is None,
        0 <= now_secs <= 0x8_0000_0000 && now_nanos < 1_000_000_000 && secs <= 0x20_0000_0000_0000
            ==> (r is Some <==> floor_seconds_before(
            now_secs as int,
            now_nanos as int,
            secs as int,
            nanos as int,
        ) >= -8_334_601_228_800),
{
    let now = chrono::DateTime::from_timestamp(now_secs, now_nanos)?;
    let delta = chrono::TimeDelta::from_std(std::time::Duration::new(secs, nanos)).ok()?;
    match now.checked_sub_signed(delta) {
        Some(t) => Some(t.timestamp()),
        None => None,
    }
}

/// `chrono::DateTime::parse_from_rfc3339(s)`, then `timestamp()`. The
/// result is named, not stated: the grammar of RFC 3339 is chrono's.
#[verifier::external_body]
fn parse_rfc3339(s: &str) -> (r: Option<i64>)
    ensures
        r == rfc3339_seconds(s@),
{
    match chrono::DateTime::parse_from_rfc3339(s) {
        Ok(dt) => Some(dt.timestamp()),
        Err(_) => None,
    }
}

/// Whether a text is taken as a duration too long for chrono: its bound
/// reaches `u64::MAX` while humantime is not certain to refuse it. humantime
/// is not asked about such a text, since it could panic on it; where it
/// would have answered, its answer is at least `u64::MAX` seconds (beyond
/// `TimeDelta::from_std`) or a refusal the scan does not foresee (an inexact
/// fraction, a stray non-ASCII character).
pub open spec fn overlong_duration(input: Seq<char>) -> bool {
    duration_seconds_bound(input) >= u64::MAX && !duration_certainly_refused(input)
}

/// humantime's reading of a text as a duration, where it is asked: for texts
/// whose bound stays below `u64::MAX` (the others humantime refuses, or
/// `overlong_duration` answers for).
pub open spec fn duration_reading(input: Seq<char>) -> Option<(u64, u32)> {
    if duration_seconds_bound(input) < u64::MAX {
        humantime_duration(input)
    } else {
        None
    }
}

/// The resolution of a time argument at the instant `now_secs.now_nanos`.
pub open spec fn parse_time_spec(input: Seq<char>, now_secs: i64, now_nanos: u32) -> Result<
    Seq<char>,
    TimeErrorView,
> {
    if input == "now"@ {
        Ok(decimal_int(now_secs as int))
    } else if parse_i64_spec(input) is Some {
        Ok(input)
    } else if overlong_duration(input) {
        Err(TimeErrorView::OutOfRange)
    } else {
        match duration_reading(input) {
            Some(d) => match chrono_seconds_before(now_secs, now_nanos, d.0, d.1) {
                Some(_) => Ok(
                    decimal_int(floor_seconds_before(now_secs as int, now_nanos as int, d.0 as int, d.1 as int)),
                ),
                None => Err(TimeErrorView::OutOfRange),
            },
            None => match rfc3339_seconds(input) {
                Some(t) => Ok(decimal_int(t as int)),
                None => Err(TimeErrorView::InvalidFormat(input)),
            },
        }
    }
}

/// A resolved time is the decimal text of an `i64`.
pub open spec fn resolves_to_i64(r: Result<Seq<char>, TimeErrorView>) -> bool {
    r matches Ok(x) ==> parse_i64_spec(x) is Some
}

/// The resolutions a time argument can have, one for each instant the clock
/// may read.
pub open spec fn is_time_outcome(input: Seq<char>, r: Result<Seq<char>, TimeErrorView>) -> bool {
    exists|s: i64, n: u32| 0 <= s && n < 1_000_000_000 && r == parse_time_spec(input, s, n)
}

/// Resolves a time argument to a Unix timestamp, taking "now" to be the
/// instant `now_secs.now_nanos`.
pub fn parse_time_at(input: &str, now_secs: i64, now_nanos: u32) -> (r: Result<String, TimeError>)
    requires
        now_nanos < 1_000_000_000,
    ensures
        time_result_view(r) == parse_time_spec(input@, now_secs, now_nanos),
        resolves_to_i64(time_result_view(r)),
        input@ != "now"@ && parse_i64_spec(input@) is None ==> (duration_reading(input@) matches Some(d)
            ==> (0 <= now_secs <= 0x8_0000_0000 && d.0 <= 0x2_0000_0000 ==> r is Ok)),
{
    if str_equals(input, "now") {
        proof {
            crate::text::decimal_round_trip_i64(now_secs);
        }
        return Ok(i64_to_decimal(now_secs));
    }
    if parse_i64(input).is_some() {
        return Ok(String::from_str(input));
    }
    let (bound, refused) = duration_bound(input);
    if bound == u64::MAX && !refused {
        return Err(TimeError::OutOfRange);
    }
    if bound < u64::MAX {
        if let Some(d) = parse_duration(input) {
            return match seconds_before(now_secs, now_nanos, d.0, d.1) {
                Some(t) => {
                    proof {
                        crate::text::decimal_round_trip_i64(t);
                    }
                    Ok(i64_to_decimal(t))
                },
                None => Err(TimeError::OutOfRange),
            };
        }
    }
    if let Some(t) = parse_rfc3339(input) {
        proof {
            crate::text::decimal_round_trip_i64(t);
        }
        return Ok(i64_to_decimal(t));
    }
    Err(TimeError::InvalidFormat { input: String::from_str(input) })
}

/// Resolves a time argument to a Unix timestamp against the system clock.
pub fn parse_time(input: &str) -> (r: Result<String, TimeError>)
    ensures
        is_time_outcome(input@, time_result_view(r)),
        resolves_to_i64(time_result_view(r)),
        parse_i64_spec(input@) is Some ==> time_result_view(r) == Ok::<Seq<char>, TimeErrorView>(input@),
        input@ != "now"@ && duration_reading(input@) is None ==> time_result_view(r) == parse_time_spec(
            input@,
            0,
            0,
        ),
{
    let (now_secs, now_nanos) = utc_now();
    proof {
        if parse_i64_spec(input@) is Some {
            unix_timestamp_passes_through(input@, now_secs, now_nanos);
        }
    }
    parse_time_at(input, now_secs, now_nanos)
}

/// Resolutions of an optional time argument, as values.
pub open spec fn optional_time_view(r: Result<Option<String>, TimeError>) -> Result<
    Option<Seq<char>>,
    TimeErrorView,
> {
    match r {
        Ok(Some(s)) => Ok(Some(s@)),
        Ok(None) => Ok(None),
        Err(e) => Err(e@),
    }
}

/// The resolutions an optional time argument can have: none for an absent
/// argument, else those of `is_time_outcome`.
pub open spec fn is_optional_time_outcome(
    input: Option<Seq<char>>,
    r: Result<Option<Seq<char>>, TimeErrorView>,
) -> bool {
    match input {
        None => r == Ok::<Option<Seq<char>>, TimeErrorView>(None),
        Some(s) => match r {
            Ok(Some(t)) => is_time_outcome(s, Ok(t)),
            Ok(None) => false,
            Err(e) => is_time_outcome(s, Err(e)),
        },
    }
}

/// Resolves an optional time argument; an absent one stays absent.
pub fn parse_optional_time(input: Option<&str>) -> (r: Result<Option<String>, TimeError>)
    ensures
        is_optional_time_outcome(opt_ref_view(input), optional_time_view(r)),
        optional_time_view(r) matches Ok(Some(x)) ==> parse_i64_spec(x) is Some,
        input matches Some(s) ==> (parse_i64_spec(s@) is Some ==> optional_time_view(r) == Ok::<
            Option<Seq<char>>,
            TimeErrorView,
        >(Some(s@))),
{
    match input {
        Some(s) => match parse_time(s) {
            Ok(t) => Ok(Some(t)),
            Err(e) => Err(e),
        },
        None => Ok(None),
    }
}

/// The first refusal among the resolutions of a window's start and end, or
/// both resolutions.
pub open spec fn window_outcome(
    start: Result<Option<Seq<char>>, TimeErrorView>,
    end: Result<Option<Seq<char>>, TimeErrorView>,
) -> Result<(Option<Seq<char>>, Option<Seq<char>>), TimeErrorView> {
    match start {
        Err(e) => Err(e),
        Ok(s) => match end {
            Err(e) => Err(e),
            Ok(t) => Ok((s, t)),
        },
    }
}

/// The resolutions a time window `start..end` can have: the start is
/// resolved first, and a refused start is the window's refusal.
pub open spec fn resolves_window(
    start: Option<Seq<char>>,
    end: Option<Seq<char>>,
    w: Result<(Option<Seq<char>>, Option<Seq<char>>), TimeErrorView>,
) -> bool {
    exists|so: Result<Option<Seq<char>>, TimeErrorView>, eo: Result<Option<Seq<char>>, TimeErrorView>|
        #[trigger] is_optional_time_outcome(start, so) && #[trigger] is_optional_time_outcome(end, eo)
            && w == window_outcome(so, eo)
}

pub open spec fn window_view(r: Result<(Option<String>, Option<String>), TimeError>) -> Result<
    (Option<Seq<char>>, Option<Seq<char>>),
    TimeErrorView,
> {
    match r {
        Ok((s, e)) => Ok((opt_string_view(s), opt_string_view(e))),
        Err(e) => Err(e@),
    }
}

proof fn lemma_some_time_outcome(input: Option<Seq<char>>) -> (r: Result<Option<Seq<char>>, TimeErrorView>)
    ensures
        is_optional_time_outcome(input, r),
{
    match input {
        None => Ok(None),
        Some(s) => {
            let o = parse_time_spec(s, 0, 0);
            assert(is_time_outcome(s, o)) by {
                assert(0 <= 0i64 && 0u32 < 1_000_000_000 && o == parse_time_spec(s, 0i64, 0u32));
            }
            match o {
                Ok(t) => Ok(Some(t)),
                Err(e) => Err(e),
            }
        },
    }
}

/// Resolves the start, then the end, of a time window.
pub fn resolve_window(start: Option<&str>, end: Option<&str>) -> (r: Result<(Option<String>, Option<String>), TimeError>)
    ensures
        resolves_window(opt_ref_view(start), opt_ref_view(end), window_view(r)),
        window_view(r) matches Ok(w) ==> ((w.0 matches Some(x) ==> parse_i64_spec(x) is Some) && (
        w.1 matches Some(x) ==> parse_i64_spec(x) is Some)),
{
    let s = parse_optional_time(start);
    let ghost so = optional_time_view(s);
    match s {
        Err(e) => {
            let ghost eo = lemma_some_time_outcome(opt_ref_view(end));
            assert(window_view(Err(e)) == window_outcome(so, eo));
            Err(e)
        },
        Ok(s) => {
            let t = parse_optional_time(end);
            let ghost eo = optional_time_view(t);
            match t {
                Err(e) => {
                    assert(window_view(Err(e)) == window_outcome(so, eo));
                    Err(e)
                },
                Ok(t) => {
                    let r = Ok((s, t));
                    assert(window_view(r) == window_outcome(so, eo));
                    r
                },
            }
        },
    }
}

/// `now` resolves to the clock's Unix timestamp in whole seconds.
pub proof fn now_is_the_clock(now_secs: i64, now_nanos: u32)
    ensures
        parse_time_spec("now"@, now_secs, now_nanos) == Ok::<Seq<char>, TimeErrorView>(
            decimal_int(now_secs as int),
        ),
{
}

/// A relative duration resolves to the timestamp that far before now,
/// rounded down to whole seconds, wherever chrono can represent it.
pub proof fn duration_counts_back_from_now(
    input: Seq<char>,
    now_secs: i64,
    now_nanos: u32,
    secs: u64,
    nanos: u32,
)
    requires
        input != "now"@,
        parse_i64_spec(input) is None,
        duration_seconds_bound(input) < u64::MAX,
        humantime_duration(input) == Some((secs, nanos)),
        chrono_seconds_before(now_secs, now_nanos, secs, nanos) is Some,
    ensures
        parse_time_spec(input, now_secs, now_nanos) == Ok::<Seq<char>, TimeErrorView>(
            decimal_int(floor_seconds_before(now_secs as int, now_nanos as int, secs as int, nanos as int)),
        ),
{
}

proof fn lemma_floor_antitone(now: int, a: int, b: int)
    requires
        a <= b,
    ensures
        (now - b) / 1_000_000_000 <= (now - a) / 1_000_000_000,
{
    vstd::arithmetic::div_mod::lemma_div_is_ordered(now - b, now - a, 1_000_000_000);
}

/// At the same clock reading, a longer duration never resolves to a later
/// time.
pub proof fn longer_duration_is_not_later(
    a: Seq<char>,
    b: Seq<char>,
    now_secs: i64,
    now_nanos: u32,
    da: (u64, u32),
    db: (u64, u32),
)
    requires
        a != "now"@,
        b != "now"@,
        parse_i64_spec(a) is None,
        parse_i64_spec(b) is None,
        duration_seconds_bound(a) < u64::MAX,
        duration_seconds_bound(b) < u64::MAX,
        humantime_duration(a) == Some(da),
        humantime_duration(b) == Some(db),
        da.0 * 1_000_000_000 + da.1 <= db.0 * 1_000_000_000 + db.1,
        chrono_seconds_before(now_secs, now_nanos, da.0, da.1) is Some,
        chrono_seconds_before(now_secs, now_nanos, db.0, db.1) is Some,
    ensures
        parse_time_spec(a, now_secs, now_nanos) == Ok::<Seq<char>, TimeErrorView>(
            decimal_int(floor_seconds_before(now_secs as int, now_nanos as int, da.0 as int, da.1 as int)),
        ),
        parse_time_spec(b, now_secs, now_nanos) == Ok::<Seq<char>, TimeErrorView>(
            decimal_int(floor_seconds_before(now_secs as int, now_nanos as int, db.0 as int, db.1 as int)),
        ),
        floor_seconds_before(now_secs as int, now_nanos as int, db.0 as int, db.1 as int)
            <= floor_seconds_before(now_secs as int, now_nanos as int, da.0 as int, da.1 as int),
{
    let now = now_secs * 1_000_000_000 + now_nanos;
    lemma_floor_antitone(now, da.0 * 1_000_000_000 + da.1, db.0 * 1_000_000_000 + db.1);
    assert(now - (da.0 * 1_000_000_000 + da.1) == now_secs * 1_000_000_000 + now_nanos - da.0
        * 1_000_000_000 - da.1);
    assert(now - (db.0 * 1_000_000_000 + db.1) == now_secs * 1_000_000_000 + now_nanos - db.0
        * 1_000_000_000 - db.1);
}

/// Apart from `now` and relative durations, the resolution of an argument
/// does not depend on the clock.
pub proof fn absolute_times_ignore_the_clock(input: Seq<char>, s1: i64, n1: u32, s2: i64, n2: u32)
    requires
        input != "now"@,
        parse_i64_spec(input) is Some || duration_reading(input) is None,
    ensures
        parse_time_spec(input, s1, n1) == parse_time_spec(input, s2, n2),
{
}

proof fn lemma_not_now(s: Seq<char>)
    requires
        s.len() > 0,
        crate::text::is_digit(s[0]) || s[0] == '-' || s[0] == '+',
    ensures
        s != "now"@,
{
    reveal_strlit("now");
    if s == "now"@ {
        assert(s[0] == 'n');
    }
}

/// A Unix timestamp (an integer that fits in an `i64`) is passed on as
/// written, whatever else it could be read as; `0` is the epoch.
pub proof fn unix_timestamp_passes_through(input: Seq<char>, now_secs: i64, now_nanos: u32)
    requires
        parse_i64_spec(input) is Some,
    ensures
        parse_time_spec(input, now_secs, now_nanos) == Ok::<Seq<char>, TimeErrorView>(input),
{
    let body = crate::text::signed_body(input);
    assert(body.len() > 0 && crate::text::all_digits(body));
    assert(input.len() > 0);
    if !(input[0] == '+' || input[0] == '-') {
        assert(body == input);
        assert(crate::text::is_digit(body[0]));
    }
    lemma_not_now(input);
}

/// Every timestamp a time argument resolves to resolves to itself again.
pub proof fn resolved_times_are_fixed_points(t: i64, now_secs: i64, now_nanos: u32)
    ensures
        parse_time_spec(decimal_int(t as int), now_secs, now_nanos) == Ok::<Seq<char>, TimeErrorView>(
            decimal_int(t as int),
        ),
{
    crate::text::decimal_round_trip_i64(t);
    unix_timestamp_passes_through(decimal_int(t as int), now_secs, now_nanos);
}

/// A text that is neither `now`, an integer, nor a duration resolves to its
/// RFC 3339 time; failing that, it is refused as an invalid format naming
/// the text, with the message that lists the accepted forms.
pub proof fn rfc3339_then_refusal(input: Seq<char>, now_secs: i64, now_nanos: u32)
    requires
        input != "now"@,
        parse_i64_spec(input) is None,
        !overlong_duration(input),
        duration_reading(input) is None,
    ensures
        rfc3339_seconds(input) matches Some(t) ==> parse_time_spec(input, now_secs, now_nanos) == Ok::<
            Seq<char>,
            TimeErrorView,
        >(decimal_int(t as int)),
        rfc3339_seconds(input) is None ==> parse_time_spec(input, now_secs, now_nanos) == Err::<
            Seq<char>,
            TimeErrorView,
        >(TimeErrorView::InvalidFormat(input)),
        time_error_message(TimeErrorView::InvalidFormat(input)) == "Invalid time format: "@ + input
            + ". Use 'now', duration (1h, 30m), RFC3339, or Unix timestamp"@,
{
}

/// A text read as a duration longer than `u64::MAX` seconds is out of
/// range, whatever the clock reads.
pub proof fn overlong_duration_is_out_of_range(input: Seq<char>, now_secs: i64, now_nanos: u32)
    requires
        input != "now"@,
        parse_i64_spec(input) is None,
        overlong_duration(input),
    ensures
        parse_time_spec(input, now_secs, now_nanos) == Err::<Seq<char>, TimeErrorView>(
            TimeErrorView::OutOfRange,
        ),
{
}

/// A window's start is resolved first: a refused start is the window's
/// error even when the end is refused too; with a good start, a refused end
/// is the error; otherwise both resolutions, start first.
pub proof fn window_start_decides_first(
    s: Option<Seq<char>>,
    e: Option<Seq<char>>,
    es: TimeErrorView,
    ee: TimeErrorView,
)
    ensures
        window_outcome(Err(es), Err(ee)) == Err::<(Option<Seq<char>>, Option<Seq<char>>), TimeErrorView>(es),
        window_outcome(Err(es), Ok(e)) == Err::<(Option<Seq<char>>, Option<Seq<char>>), TimeErrorView>(es),
        window_outcome(Ok(s), Err(ee)) == Err::<(Option<Seq<char>>, Option<Seq<char>>), TimeErrorView>(ee),
        window_outcome(Ok(s), Ok(e)) == Ok::<(Option<Seq<char>>, Option<Seq<char>>), TimeErrorView>((s, e)),
{
}

} // verus!

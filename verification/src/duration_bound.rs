//! An upper bound on the whole seconds that humantime's duration parser can
//! accumulate for a text.
//!
//! humantime reads a duration as terms `<number>[.<fraction>]<unit>`; it
//! adds each term to a running `std::time::Duration` and stops at the first
//! error. Where the running seconds reach `u64::MAX` with a carry of exactly
//! one second from the nanoseconds, it builds a `Duration` that overflows
//! and panics. The bound below scans the text the way humantime splits it
//! and adds, for every term that humantime could add before an error it is
//! certain to meet, at least what that term is worth in seconds. While the
//! bound stays below `u64::MAX`, humantime's running seconds do too, and it
//! cannot panic. The scan also tells where humantime is certain not to
//! accept a text: an error it is sure to meet, or terms whose integer parts
//! alone are worth more than `u64::MAX` seconds.
//!
//! The unit names and the way terms are split follow humantime 2.4.0, the
//! version this crate builds with.
use vstd::prelude::*;
use crate::text::{push_char, str_equals};

verus! {

/// One more than `u64::MAX`: bounds at or above it are all "too large".
pub open spec fn bound_cap() -> nat {
    18446744073709551616
}

/// How a humantime unit converts to seconds: a whole number of seconds per
/// unit, or a fraction of a second (the number of units per second).
pub enum UnitScale {
    Whole(nat),
    PerSecond(nat),
}

/// The humantime unit named by a run of letters, or nothing for an unknown
/// name.
pub open spec fn unit_scale(w: Seq<char>) -> Option<UnitScale> {
    if w == "nanos"@ || w == "nsec"@ || w == "ns"@ {
        Some(UnitScale::PerSecond(1_000_000_000))
    } else if w == "usec"@ || w == "us"@ || w == "\u{b5}s"@ {
        Some(UnitScale::PerSecond(1_000_000))
    } else if w == "millis"@ || w == "msec"@ || w == "ms"@ {
        Some(UnitScale::PerSecond(1_000))
    } else if w == "seconds"@ || w == "second"@ || w == "secs"@ || w == "sec"@ || w == "s"@ {
        Some(UnitScale::Whole(1))
    } else if w == "minutes"@ || w == "minute"@ || w == "min"@ || w == "mins"@ || w == "m"@ {
        Some(UnitScale::Whole(60))
    } else if w == "hours"@ || w == "hour"@ || w == "hr"@ || w == "hrs"@ || w == "h"@ {
        Some(UnitScale::Whole(3600))
    } else if w == "days"@ || w == "day"@ || w == "d"@ {
        Some(UnitScale::Whole(86400))
    } else if w == "weeks"@ || w == "week"@ || w == "wk"@ || w == "wks"@ || w == "w"@ {
        Some(UnitScale::Whole(604800))
    } else if w == "months"@ || w == "month"@ || w == "M"@ {
        Some(UnitScale::Whole(2_630_016))
    } else if w == "years"@ || w == "year"@ || w == "yr"@ || w == "yrs"@ || w == "y"@ {
        Some(UnitScale::Whole(31_557_600))
    } else {
        None
    }
}

/// Where the scan stands: the bound so far and the least the terms so far
/// are worth (both capped at `bound_cap()`), the integer part of the current
/// term and whether it has digits, whether it has a fraction and whether
/// that has digits, the letters of its unit so far, and whether humantime is
/// certain to have stopped.
pub struct ScanState {
    pub total: nat,
    pub least: nat,
    pub number: nat,
    pub digits: bool,
    pub fraction: bool,
    pub fraction_digits: bool,
    pub letters: Seq<char>,
    pub stopped: bool,
}

pub open spec fn scan_start() -> ScanState {
    ScanState {
        total: 0,
        least: 0,
        number: 0,
        digits: false,
        fraction: false,
        fraction_digits: false,
        letters: Seq::empty(),
        stopped: false,
    }
}

pub open spec fn capped(n: nat) -> nat {
    if n < bound_cap() {
        n
    } else {
        bound_cap()
    }
}

/// Ends the current term at the end of its unit: adds what it is worth (a
/// fraction counts as one more unit, part of a second as one second), or
/// stops where humantime refuses the unit or overflows multiplying by it.
pub open spec fn end_term(st: ScanState) -> ScanState {
    match unit_scale(st.letters) {
        None => ScanState { stopped: true, ..st },
        Some(UnitScale::Whole(w)) => if st.number * w > u64::MAX {
            ScanState { stopped: true, ..st }
        } else {
            ScanState {
                total: capped(st.total + st.number * w + if st.fraction {
                    w
                } else {
                    0
                }),
                least: capped(st.least + st.number * w),
                number: 0,
                digits: false,
                fraction: false,
                fraction_digits: false,
                letters: Seq::empty(),
                stopped: false,
            }
        },
        Some(UnitScale::PerSecond(p)) => ScanState {
            total: capped(st.total + st.number / p + 1 + if st.fraction {
                1nat
            } else {
                0nat
            }),
            least: capped(st.least + st.number / p),
            number: 0,
            digits: false,
            fraction: false,
            fraction_digits: false,
            letters: Seq::empty(),
            stopped: false,
        },
    }
}

pub open spec fn is_unit_letter(c: char) -> bool {
    ('a' <= c && c <= 'z') || ('A' <= c && c <= 'Z') || c == '\u{b5}'
}

pub open spec fn is_ascii_space(c: char) -> bool {
    c == ' ' || c == '\t' || c == '\n' || c == '\r' || c == '\x0B' || c == '\x0C'
}

/// The scan after one more character.
pub open spec fn scan_step(st: ScanState, c: char) -> ScanState {
    if st.stopped {
        st
    } else if '0' <= c && c <= '9' {
        let s1 = if st.letters.len() > 0 {
            end_term(st)
        } else {
            st
        };
        if s1.stopped {
            s1
        } else if s1.fraction {
            ScanState { fraction_digits: true, ..s1 }
        } else if s1.number * 10 + ((c as nat) - 48) > u64::MAX {
            ScanState { stopped: true, ..s1 }
        } else {
            ScanState { number: (s1.number * 10 + ((c as nat) - 48)) as nat, digits: true, ..s1 }
        }
    } else if is_unit_letter(c) {
        if st.letters.len() == 0 && (!st.digits || (st.fraction && !st.fraction_digits)) {
            ScanState { stopped: true, ..st }
        } else {
            ScanState { letters: st.letters.push(c), ..st }
        }
    } else if c == '.' {
        if st.letters.len() > 0 || st.fraction || !st.digits {
            ScanState { stopped: true, ..st }
        } else {
            ScanState { fraction: true, ..st }
        }
    } else if is_ascii_space(c) || (c as nat) >= 128 {
        if st.letters.len() > 0 {
            end_term(st)
        } else {
            st
        }
    } else {
        ScanState { stopped: true, ..st }
    }
}

/// The scan of a whole prefix.
pub open spec fn scan(s: Seq<char>) -> ScanState
    decreases s.len(),
{
    if s.len() == 0 {
        scan_start()
    } else {
        scan_step(scan(s.drop_last()), s.last())
    }
}

/// The scan of a whole text, with a unit that reaches the end of the text
/// ending its term.
pub open spec fn scan_text(s: Seq<char>) -> ScanState {
    let st = scan(s);
    if !st.stopped && st.letters.len() > 0 {
        end_term(st)
    } else {
        st
    }
}

/// The upper bound for a text (capped at `bound_cap()`).
pub open spec fn duration_seconds_bound(s: Seq<char>) -> nat {
    scan_text(s).total
}

/// Whether humantime is certain not to accept the text: the scan met an
/// error humantime meets too, or the whole seconds that the text's terms are
/// at least worth (integer parts times their units) pass `u64::MAX`, more
/// than a `Duration` from humantime's checked additions can hold.
pub open spec fn duration_certainly_refused(s: Seq<char>) -> bool {
    scan_text(s).stopped || scan_text(s).least > u64::MAX
}

struct Scanner {
    total: u128,
    least: u128,
    number: u64,
    digits: bool,
    fraction: bool,
    fraction_digits: bool,
    letters: String,
    stopped: bool,
}

impl Scanner {
    spec fn state(&self) -> ScanState {
        ScanState {
            total: self.total as nat,
            least: self.least as nat,
            number: self.number as nat,
            digits: self.digits,
            fraction: self.fraction,
            fraction_digits: self.fraction_digits,
            letters: self.letters@,
            stopped: self.stopped,
        }
    }

    spec fn inv(&self) -> bool {
        self.total <= bound_cap() && self.least <= bound_cap()
    }
}

fn scale_of(w: &str) -> (r: Option<(bool, u64)>)
    ensures
        unit_scale(w@) is None <==> r is None,
        r matches Some(x) ==> unit_scale(w@) == if x.0 {
            Some(UnitScale::Whole(x.1 as nat))
        } else {
            Some(UnitScale::PerSecond(x.1 as nat))
        },
        r matches Some(x) ==> 1 <= x.1 <= 1_000_000_000,
{
    if str_equals(w, "nanos") || str_equals(w, "nsec") || str_equals(w, "ns") {
        Some((false, 1_000_000_000))
    } else if str_equals(w, "usec") || str_equals(w, "us") || str_equals(w, "\u{b5}s") {
        Some((false, 1_000_000))
    } else if str_equals(w, "millis") || str_equals(w, "msec") || str_equals(w, "ms") {
        Some((false, 1_000))
    } else if str_equals(w, "seconds") || str_equals(w, "second") || str_equals(w, "secs")
        || str_equals(w, "sec") || str_equals(w, "s") {
        Some((true, 1))
    } else if str_equals(w, "minutes") || str_equals(w, "minute") || str_equals(w, "min")
        || str_equals(w, "mins") || str_equals(w, "m") {
        Some((true, 60))
    } else if str_equals(w, "hours") || str_equals(w, "hour") || str_equals(w, "hr") || str_equals(
        w,
        "hrs",
    ) || str_equals(w, "h") {
        Some((true, 3600))
    } else if str_equals(w, "days") || str_equals(w, "day") || str_equals(w, "d") {
        Some((true, 86400))
    } else if str_equals(w, "weeks") || str_equals(w, "week") || str_equals(w, "wk") || str_equals(
        w,
        "wks",
    ) || str_equals(w, "w") {
        Some((true, 604800))
    } else if str_equals(w, "months") || str_equals(w, "month") || str_equals(w, "M") {
        Some((true, 2_630_016))
    } else if str_equals(w, "years") || str_equals(w, "year") || str_equals(w, "yr") || str_equals(
        w,
        "yrs",
    ) || str_equals(w, "y") {
        Some((true, 31_557_600))
    } else {
        None
    }
}

fn cap_u128(n: u128) -> (r: u128)
    ensures
        r == capped(n as nat),
{
    if n < 18446744073709551616u128 {
        n
    } else {
        18446744073709551616u128
    }
}

fn end_term_exec(sc: &mut Scanner)
    requires
        old(sc).inv(),
        !old(sc).stopped,
    ensures
        final(sc).inv(),
        final(sc).state() == end_term(old(sc).state()),
{
    match scale_of(sc.letters.as_str()) {
        None => {
            sc.stopped = true;
        },
        Some((whole, k)) => {
            if whole {
                assert((sc.number as u128) * (k as u128) <= 0xffff_ffff_ffff_ffff * 1_000_000_000) by (nonlinear_arith)
                    requires
                        sc.number <= 0xffff_ffff_ffff_ffff,
                        k <= 1_000_000_000,
                ;
                let prod: u128 = (sc.number as u128) * (k as u128);
                if prod > 18446744073709551615u128 {
                    sc.stopped = true;
                    return;
                }
                let extra: u128 = if sc.fraction {
                    k as u128
                } else {
                    0
                };
                sc.total = cap_u128(sc.total + prod + extra);
                sc.least = cap_u128(sc.least + prod);
            } else {
                let extra: u128 = if sc.fraction {
                    1
                } else {
                    0
                };
                sc.total = cap_u128(sc.total + (sc.number / k) as u128 + 1 + extra);
                sc.least = cap_u128(sc.least + (sc.number / k) as u128);
            }
            sc.number = 0;
            sc.digits = false;
            sc.fraction = false;
            sc.fraction_digits = false;
            sc.letters = String::new();
            assert(sc.state().letters =~= Seq::<char>::empty());

        },
    }
}

fn is_ascii_space_exec(c: char) -> (r: bool)
    ensures
        r == is_ascii_space(c),
{
    c == ' ' || c == '\t' || c == '\n' || c == '\r' || c == '\x0B' || c == '\x0C'
}

fn step_exec(sc: &mut Scanner, c: char)
    requires
        old(sc).inv(),
    ensures
        final(sc).inv(),
        final(sc).state() == scan_step(old(sc).state(), c),
{
    if sc.stopped {
        return;
    }
    if '0' <= c && c <= '9' {
        if sc.letters.unicode_len() > 0 {
            end_term_exec(sc);
        }
        if sc.stopped {
            return;
        }
        if sc.fraction {
            sc.fraction_digits = true;
            return;
        }
        let d: u64 = (c as u32 - 48u32) as u64;
        match sc.number.checked_mul(10) {
            None => {
                sc.stopped = true;
            },
            Some(t) => match t.checked_add(d) {
                None => {
                    sc.stopped = true;
                },
                Some(v) => {
                    sc.number = v;
                    sc.digits = true;
                },
            },
        }
    } else if ('a' <= c && c <= 'z') || ('A' <= c && c <= 'Z') || c == '\u{b5}' {
        if sc.letters.unicode_len() == 0 && (!sc.digits || (sc.fraction && !sc.fraction_digits)) {
            sc.stopped = true;
        } else {
            push_char(&mut sc.letters, c);
        }
    } else if c == '.' {
        if sc.letters.unicode_len() > 0 || sc.fraction || !sc.digits {
            sc.stopped = true;
        } else {
            sc.fraction = true;
        }
    } else if is_ascii_space_exec(c) || (c as u32) >= 128 {
        if sc.letters.unicode_len() > 0 {
            end_term_exec(sc);
        }
    } else {
        sc.stopped = true;
    }
}

/// `duration_seconds_bound(s@)` (or `u64::MAX` where it is at least that),
/// and whether humantime is certain to refuse the text.
pub fn duration_bound(s: &str) -> (r: (u64, bool))
    ensures
        r.0 == if duration_seconds_bound(s@) < u64::MAX {
            duration_seconds_bound(s@)
        } else {
            u64::MAX as nat
        },
        r.1 == duration_certainly_refused(s@),
{
    let mut sc = Scanner {
        total: 0,
        least: 0,
        number: 0,
        digits: false,
        fraction: false,
        fraction_digits: false,
        letters: String::new(),
        stopped: false,
    };
    let n = s.unicode_len();
    let mut i: usize = 0;
    assert(s@.take(0) =~= Seq::<char>::empty());
    assert(sc.state() == scan_start());
    while i < n
        invariant
            n == s@.len(),
            i <= n,
            sc.inv(),
            sc.state() == scan(s@.take(i as int)),
        decreases n - i,
    {
        let c = s.get_char(i);
        step_exec(&mut sc, c);
        assert(s@.take(i + 1).drop_last() =~= s@.take(i as int));
        i = i + 1;
    }
    assert(s@.take(n as int) =~= s@);
    if !sc.stopped && sc.letters.unicode_len() > 0 {
        end_term_exec(&mut sc);
    }
    let refused = sc.stopped || sc.least > 18446744073709551615u128;
    if sc.total < 18446744073709551615u128 {
        (sc.total as u64, refused)
    } else {
        (u64::MAX, refused)
    }
}

} // verus!

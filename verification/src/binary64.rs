//! Exact integer model of the IEEE 754 binary64 values that a quotient of
//! integers rounds to, and of their text with one decimal.
//!
//! A quotient `p / q` of integers with `1 <= p / q < 2^53` rounds (to nearest,
//! ties to even) to `significand / 2^scale`, where `scale` is the least `k`
//! with `2^52 <= p * 2^k / q`, and `significand` is `p * 2^scale / q`
//! rounded. Printed with one decimal, that value is rounded to tenths, ties
//! to even, on its exact binary value.
use vstd::prelude::*;
use vstd::arithmetic::power2::{pow2, lemma_pow2_unfold, lemma_pow2_adds, lemma2_to64, lemma2_to64_rest};
use crate::text::{decimal, digit_char, write_decimal, push_char};

verus! {

/// `a / b` rounded to the nearest integer, ties to the even one.
pub open spec fn round_half_even(a: nat, b: nat) -> nat {
    let q = a / b;
    let r = a % b;
    if 2 * r > b {
        q + 1
    } else if 2 * r < b {
        q
    } else if q % 2 == 0 {
        q
    } else {
        q + 1
    }
}

/// The least `k >= from` (capped at 64) with `2^52 * q <= p * 2^k`.
pub open spec fn binary_scale(p: nat, q: nat, from: nat) -> nat
    decreases 64 - from,
{
    if from >= 64 || pow2(52) * q <= p * pow2(from) {
        from
    } else {
        binary_scale(p, q, from + 1)
    }
}

/// Significand of the binary64 value nearest to `p / q`; the value is the
/// significand divided by `2^binary_scale(p, q, 0)`.
pub open spec fn nearest_significand(p: nat, q: nat) -> nat {
    round_half_even(p * pow2(binary_scale(p, q, 0)), q)
}

/// The least `e >= from` (capped at 64) with `n < 2^(53 + e)`.
pub open spec fn excess_bits(n: nat, from: nat) -> nat
    decreases 64 - from,
{
    if from >= 64 || n < pow2(53 + from) {
        from
    } else {
        excess_bits(n, from + 1)
    }
}

/// The binary64 value of `n as f64` for `n < 2^64`: `n` rounded to 53
/// significant bits, ties to even.
pub open spec fn u64_as_binary64(n: nat) -> nat {
    let e = excess_bits(n, 0);
    round_half_even(n, pow2(e)) * pow2(e)
}

/// The binary64 value nearest to `p / q`, rounded to tenths (ties to even):
/// the number of tenths.
pub open spec fn nearest_tenths(p: nat, q: nat) -> nat {
    round_half_even(nearest_significand(p, q) * 10, pow2(binary_scale(p, q, 0)))
}

/// The text `{:.1}` gives for the binary64 value nearest to `p / q`.
pub open spec fn one_decimal_text(p: nat, q: nat) -> Seq<char> {
    let t = nearest_tenths(p, q);
    decimal(t / 10) + seq!['.', digit_char(t % 10)]
}

proof fn lemma_div_bounds(a: nat, b: nat, c: nat)
    requires
        b > 0,
    ensures
        a < c * b ==> a / b < c,
        a >= c * b ==> a / b >= c,
        a / b <= a,
{
    let d = a / b;
    let r = a % b;
    assert(a == d * b + r) by (nonlinear_arith)
        requires
            b > 0,
            d == a / b,
            r == a % b,
    ;
    assert(0 <= r < b);
    if a < c * b {
        assert(d < c) by (nonlinear_arith)
            requires
                a == d * b + r,
                0 <= r,
                a < c * b,
                b > 0,
        ;
    }
    if a >= c * b {
        assert(d >= c) by (nonlinear_arith)
            requires
                a == d * b + r,
                r < b,
                a >= c * b,
                b > 0,
        ;
    }
    assert(d <= a) by (nonlinear_arith)
        requires
            a == d * b + r,
            0 <= r,
            b > 0,
            d >= 0,
    ;
}

proof fn lemma_round_bounds(a: nat, b: nat)
    requires
        b > 0,
    ensures
        a / b <= round_half_even(a, b) <= a / b + 1,
{
}

/// `round_half_even(a, b)`.
fn round_half_even_exec(a: u128, b: u128) -> (r: u128)
    requires
        b > 0,
        a < u128::MAX,
    ensures
        r == round_half_even(a as nat, b as nat),
{
    let q = a / b;
    let rem = a % b;
    proof {
        lemma_div_bounds(a as nat, b as nat, 0);
    }
    if rem > b - rem {
        q + 1
    } else if rem < b - rem {
        q
    } else if q % 2 == 0 {
        q
    } else {
        q + 1
    }
}

proof fn lemma_pow2_facts()
    ensures
        pow2(0) == 1,
        pow2(52) == 0x10000000000000,
        pow2(53) == 0x20000000000000,
        pow2(64) == 0x10000000000000000,
        forall|e: nat| e > 0 ==> #[trigger] pow2(e) == 2 * pow2((e - 1) as nat),
{
    lemma2_to64();
    lemma2_to64_rest();
    assert forall|e: nat| e > 0 implies #[trigger] pow2(e) == 2 * pow2((e - 1) as nat) by {
        lemma_pow2_unfold(e);
    }
}

/// The significand of the binary64 value nearest to `p / q`, with `2^scale`.
fn nearest(p: u128, q: u128) -> (res: (u128, u128))
    requires
        1 <= q <= p,
        p <= 0x10000000000000000,
        q <= 0x10000000000000000,
        p < pow2(53) * q,
    ensures
        res.0 == nearest_significand(p as nat, q as nat),
        res.1 == pow2(binary_scale(p as nat, q as nat, 0)),
        res.0 <= pow2(53),
        res.1 >= 1,
        res.1 <= pow2(52),
{
    proof {
        lemma_pow2_facts();
    }
    let target: u128 = 0x10000000000000u128 * q;
    let mut k: u32 = 0;
    let mut pw: u128 = 1;
    let mut scaled: u128 = p;
    while scaled < target
        invariant
            1 <= q <= p,
            p <= 0x10000000000000000,
            target == pow2(52) * q,
            k <= 52,
            pw == pow2(k as nat),
            pw <= pow2(52),
            scaled == p * pw,
            scaled < 2 * target,
            binary_scale(p as nat, q as nat, 0) == binary_scale(p as nat, q as nat, k as nat),
            forall|e: nat| e > 0 ==> #[trigger] pow2(e) == 2 * pow2((e - 1) as nat),
            pow2(52) == 0x10000000000000,
        decreases 52 - k,
    {
        if k == 52 {
            assert(scaled >= target) by (nonlinear_arith)
                requires
                    scaled == p * pw,
                    pw == 0x10000000000000,
                    target == 0x10000000000000 * q,
                    q <= p,
            ;
        }
        assert(pow2((k + 1) as nat) == 2 * pow2(k as nat));
        assert(pow2((k + 1) as nat) <= pow2(52)) by {
            lemma_pow2_monotone((k + 1) as nat, 52);
        }
        assert(2 * scaled == p * (2 * pw)) by (nonlinear_arith)
            requires
                scaled == p * pw,
        ;
        assert(p * (2 * pw) <= 0x10000000000000000 * 0x10000000000000) by (nonlinear_arith)
            requires
                p <= 0x10000000000000000,
                2 * pw <= 0x10000000000000,
        ;
        scaled = scaled * 2;
        pw = pw * 2;
        k = k + 1;
    }
    let m = round_half_even_exec(scaled, q);
    proof {
        lemma_div_bounds(scaled as nat, q as nat, pow2(53));
        lemma_round_bounds(scaled as nat, q as nat);
    }
    (m, pw)
}

proof fn lemma_pow2_monotone(a: nat, b: nat)
    requires
        a <= b,
    ensures
        pow2(a) <= pow2(b),
    decreases b - a,
{
    if a < b {
        lemma_pow2_monotone(a, (b - 1) as nat);
        lemma_pow2_unfold(b);
    }
}

proof fn lemma_excess_step(n: nat, e: nat, div: nat)
    requires
        div == pow2(e),
        e <= 11,
        n < 0x10000000000000000,
        n >= 0x20000000000000 * div,
    ensures
        e < 11,
        div <= 1024,
        2 * div == pow2(e + 1),
        excess_bits(n, e) == excess_bits(n, e + 1),
{
    lemma2_to64();
    lemma2_to64_rest();
    lemma_pow2_adds(53, e);
    lemma_pow2_unfold(e + 1);
    if e == 11 {
        assert(false);
    }
    lemma_pow2_monotone(e, 10);
}

/// `n as f64`, as an exact integer.
pub fn u64_to_binary64(n: u64) -> (r: u128)
    ensures
        r == u64_as_binary64(n as nat),
        n < pow2(53) ==> r == n,
        n >= pow2(53) ==> r >= pow2(53),
        r <= pow2(64),
{
    proof {
        lemma_pow2_facts();
    }
    let mut e: u32 = 0;
    let mut div: u128 = 1;
    while (n as u128) >= 0x20000000000000u128 * div
        invariant
            div == pow2(e as nat),
            e <= 11,
            1 <= div <= 2048,
            excess_bits(n as nat, 0) == excess_bits(n as nat, e as nat),
            e > 0 ==> n >= 0x10000000000000 * div,
        decreases 11 - e,
    {
        proof {
            lemma_excess_step(n as nat, e as nat, div as nat);
        }
        div = div * 2;
        e = e + 1;
    }
    proof {
        lemma_pow2_adds(53, e as nat);
    }
    let m = round_half_even_exec(n as u128, div);
    proof {
        lemma_div_bounds(n as nat, div as nat, pow2(53));
        lemma_div_bounds(n as nat, div as nat, pow2(52));
        lemma_round_bounds(n as nat, div as nat);
        assert(m * div <= pow2(53) * 2048) by (nonlinear_arith)
            requires
                m <= pow2(53),
                div <= 2048,
        ;
        if n >= pow2(53) {
            assert(e > 0);
            assert(m * div >= pow2(53)) by (nonlinear_arith)
                requires
                    m >= pow2(52),
                    div >= 2,
                    pow2(53) == 2 * pow2(52),
            ;
        }
    }
    m * div
}

/// Appends the text `{:.1}` gives for the binary64 value nearest to `p / q`.
pub fn write_one_decimal(out: &mut String, p: u128, q: u128)
    requires
        1 <= q <= p,
        p <= 0x10000000000000000,
        q <= 0x10000000000000000,
        p < pow2(53) * q,
    ensures
        final(out)@ == old(out)@ + one_decimal_text(p as nat, q as nat),
{
    let (m, pw) = nearest(p, q);
    proof {
        lemma_pow2_facts();
    }
    let t = round_half_even_exec(m * 10, pw);
    proof {
        lemma_div_bounds((m * 10) as nat, pw as nat, 0);
        lemma_round_bounds((m * 10) as nat, pw as nat);
    }
    let whole: u64 = (t / 10) as u64;
    let digit: u64 = (t % 10) as u64;
    write_decimal(out, whole);
    push_char(out, '.');
    let c: char = ((48u8 + digit as u8) as char);
    push_char(out, c);
    proof {
        assert(c == digit_char(digit as nat));
        assert(out@ =~= old(out)@ + one_decimal_text(p as nat, q as nat));
    }
}

proof fn lemma_round_close(a: nat, b: nat)
    requires
        b > 0,
    ensures
        2 * (round_half_even(a, b) * b - a) <= b,
        2 * (a - round_half_even(a, b) * b) <= b,
{
    let d = a / b;
    let r = a % b;
    assert(a == d * b + r) by (nonlinear_arith)
        requires
            b > 0,
            d == a / b,
            r == a % b,
    ;
    assert(0 <= r < b);
    let m = round_half_even(a, b);
    if m == d {
        assert(2 * r <= b);
        assert(m * b == d * b);
    } else {
        assert(m == d + 1);
        assert(2 * r >= b);
        assert(m * b == d * b + b) by (nonlinear_arith)
            requires
                m == d + 1,
        ;
    }
}

proof fn lemma_scale_reaches(p: nat, q: nat, from: nat)
    requires
        1 <= q <= p,
        from <= 52,
    ensures
        binary_scale(p, q, from) <= 52,
        pow2(52) * q <= p * pow2(binary_scale(p, q, from)),
    decreases 52 - from,
{
    if pow2(52) * q <= p * pow2(from) {
    } else {
        if from == 52 {
            assert(pow2(52) * q <= p * pow2(52)) by (nonlinear_arith)
                requires
                    q <= p,
            ;
        }
        lemma_scale_reaches(p, q, from + 1);
    }
}

/// The text with one decimal names the nearest tenth to `p / q`: its number
/// of tenths `t` is within half a tenth of `10 * p / q`, up to the binary64
/// rounding before it (`10 / 2^k` tenths at most, with `2^k` the scale).
pub proof fn one_decimal_is_nearest_tenth(p: nat, q: nat)
    requires
        1 <= q <= p,
    ensures
        ({
            let t = nearest_tenths(p, q);
            let pw = pow2(binary_scale(p, q, 0));
            &&& one_decimal_text(p, q) == decimal(t / 10) + seq!['.', digit_char(t % 10)]
            &&& t % 10 < 10
            &&& pw >= 1
            &&& 2 * pw * (t * q - 10 * p) <= q * pw + 10 * q
            &&& 2 * pw * (10 * p - t * q) <= q * pw + 10 * q
        }),
{
    let k = binary_scale(p, q, 0);
    let pw = pow2(k);
    vstd::arithmetic::power2::lemma_pow2_pos(k);
    let a = p * pw;
    let m = round_half_even(a, q);
    lemma_round_close(a, q);
    let t = round_half_even(m * 10, pw);
    lemma_round_close(m * 10, pw);
    assert(t == nearest_tenths(p, q));
    let x: int = t * pw - 10 * m;
    let y: int = m * q - a;
    assert(2 * x <= pw && -pw <= 2 * x);
    assert(2 * y <= q && -q <= 2 * y);
    assert(pw * (t * q - 10 * p) == q * x + 10 * y) by (nonlinear_arith)
        requires
            x == t * pw - 10 * m,
            y == m * q - a,
            a == p * pw,
    ;
    assert(2 * pw * (t * q - 10 * p) <= q * pw + 10 * q) by (nonlinear_arith)
        requires
            pw * (t * q - 10 * p) == q * x + 10 * y,
            2 * x <= pw,
            2 * y <= q,
            q >= 1,
    ;
    assert(2 * pw * (10 * p - t * q) <= q * pw + 10 * q) by (nonlinear_arith)
        requires
            pw * (t * q - 10 * p) == q * x + 10 * y,
            -pw <= 2 * x,
            -q <= 2 * y,
            q >= 1,
    ;
}

/// For a quotient with `10 * p * q < 2^52` (for instance milliseconds
/// below a minute over 1000), the text with one decimal is the quotient to
/// the nearest tenth: `t` tenths with `|10 p - t q| <= q / 2`.
pub proof fn one_decimal_of_small_quotient(p: nat, q: nat)
    requires
        1 <= q <= p,
        10 * p * q < pow2(52),
    ensures
        2 * (nearest_tenths(p, q) * q - 10 * p) <= q,
        2 * (10 * p - nearest_tenths(p, q) * q) <= q,
{
    one_decimal_is_nearest_tenth(p, q);
    lemma_scale_reaches(p, q, 0);
    let k = binary_scale(p, q, 0);
    let pw = pow2(k);
    let t = nearest_tenths(p, q);
    assert(pw > 10 * q) by {
        assert(pow2(52) * q <= p * pw);
        assert(10 * p * q * q < p * pw) by (nonlinear_arith)
            requires
                10 * p * q < pow2(52),
                pow2(52) * q <= p * pw,
                q >= 1,
        ;
        assert(10 * q * q < pw) by (nonlinear_arith)
            requires
                10 * p * q * q < p * pw,
                p >= 1,
        ;
        assert(10 * q <= 10 * q * q) by (nonlinear_arith)
            requires
                q >= 1,
        ;
    }
    let d: int = t * q - 10 * p;
    assert(2 * d <= q) by (nonlinear_arith)
        requires
            2 * pw * d <= q * pw + 10 * q,
            pw > 10 * q,
            q >= 1,
    ;
    assert(-2 * d <= q) by (nonlinear_arith)
        requires
            2 * pw * (-d) <= q * pw + 10 * q,
            pw > 10 * q,
            q >= 1,
    ;
}

} // verus!

//! Decimal text of integers, and parsing of decimal integers as `str::parse`
//! does for `u64` and `i64`.
use vstd::prelude::*;

verus! {

/// The character of the decimal digit `d` (`d < 10`).
pub open spec fn digit_char(d: nat) -> char {
    (d + 48) as char
}

/// Decimal text of a natural number, without sign or leading zeros.
pub open spec fn decimal(n: nat) -> Seq<char>
    decreases n,
{
    if n < 10 {
        seq![digit_char(n)]
    } else {
        decimal(n / 10).push(digit_char(n % 10))
    }
}

/// Decimal text of an integer: a `-` before the digits of a negative one.
pub open spec fn decimal_int(n: int) -> Seq<char> {
    if n < 0 {
        seq!['-'] + decimal((-n) as nat)
    } else {
        decimal(n as nat)
    }
}

pub open spec fn is_digit(c: char) -> bool {
    '0' <= c && c <= '9'
}

pub open spec fn all_digits(s: Seq<char>) -> bool {
    forall|i: int| 0 <= i < s.len() ==> is_digit(#[trigger] s[i])
}

/// Value of a string of decimal digits (0 for the empty string).
pub open spec fn digits_value(s: Seq<char>) -> nat
    decreases s.len(),
{
    if s.len() == 0 {
        0
    } else {
        digits_value(s.drop_last()) * 10 + ((s.last() as nat) - 48) as nat
    }
}

/// The digits of a `u64` text: what follows an optional leading `+`.
pub open spec fn unsigned_body(s: Seq<char>) -> Seq<char> {
    if s.len() > 0 && s[0] == '+' {
        s.drop_first()
    } else {
        s
    }
}

/// What `s.parse::<u64>()` gives: an optional `+`, then one or more digits
/// whose value fits in a `u64`.
pub open spec fn parse_u64_spec(s: Seq<char>) -> Option<u64> {
    let body = unsigned_body(s);
    if body.len() > 0 && all_digits(body) && digits_value(body) <= u64::MAX {
        Some(digits_value(body) as u64)
    } else {
        None
    }
}

/// The digits of an `i64` text: what follows an optional leading `+` or `-`.
pub open spec fn signed_body(s: Seq<char>) -> Seq<char> {
    if s.len() > 0 && (s[0] == '+' || s[0] == '-') {
        s.drop_first()
    } else {
        s
    }
}

pub open spec fn is_negative_text(s: Seq<char>) -> bool {
    s.len() > 0 && s[0] == '-'
}

/// What `s.parse::<i64>()` gives: an optional sign, then one or more digits
/// whose signed value fits in an `i64`.
pub open spec fn parse_i64_spec(s: Seq<char>) -> Option<i64> {
    let body = signed_body(s);
    let v: int = if is_negative_text(s) {
        -digits_value(body)
    } else {
        digits_value(body) as int
    };
    if body.len() > 0 && all_digits(body) && i64::MIN <= v <= i64::MAX {
        Some(v as i64)
    } else {
        None
    }
}

/// Whether two strings hold the same characters.
pub fn str_equals(a: &str, b: &str) -> (r: bool)
    ensures
        r == (a@ == b@),
{
    let n = a.unicode_len();
    if n != b.unicode_len() {
        return false;
    }
    let mut i: usize = 0;
    while i < n
        invariant
            n == a@.len(),
            n == b@.len(),
            i <= n,
            forall|j: int| 0 <= j < i ==> a@[j] == b@[j],
        decreases n - i,
    {
        if a.get_char(i) != b.get_char(i) {
            return false;
        }
        i = i + 1;
    }
    assert(a@ =~= b@);
    true
}

/// Appends one character (`String::push`).
#[verifier::external_body]
pub(crate) fn push_char(s: &mut String, c: char)
    ensures
        final(s)@ == old(s)@.push(c),
{
    s.push(c);
}

fn digit_to_char(d: u64) -> (c: char)
    requires
        d < 10,
    ensures
        c == digit_char(d as nat),
{
    let b: u8 = 48u8 + (d as u8);
    b as char
}

/// Appends the decimal text of `n`.
pub fn write_decimal(out: &mut String, n: u64)
    ensures
        final(out)@ == old(out)@ + decimal(n as nat),
    decreases n,
{
    if n >= 10 {
        write_decimal(out, n / 10);
    }
    let c = digit_to_char(n % 10);
    push_char(out, c);
    proof {
        if n >= 10 {
            assert(decimal(n as nat) == decimal((n / 10) as nat).push(digit_char((n % 10) as nat)));
        }
    }
}

/// Decimal text of a `u64` (as `u64::to_string`).
pub fn u64_to_decimal(n: u64) -> (s: String)
    ensures
        s@ == decimal(n as nat),
{
    let mut s = String::new();
    write_decimal(&mut s, n);
    s
}

/// Decimal text of an `i64` (as `i64::to_string`).
pub fn i64_to_decimal(n: i64) -> (s: String)
    ensures
        s@ == decimal_int(n as int),
{
    let mut s = String::new();
    if n < 0 {
        push_char(&mut s, '-');
        let m: u64 = if n == i64::MIN {
            9223372036854775808u64
        } else {
            (-n) as u64
        };
        write_decimal(&mut s, m);
    } else {
        write_decimal(&mut s, n as u64);
    }
    s
}

proof fn lemma_digits_value_push(s: Seq<char>, c: char)
    ensures
        digits_value(s.push(c)) == digits_value(s) * 10 + ((c as nat) - 48) as nat,
{
    assert(s.push(c).drop_last() =~= s);
}

proof fn lemma_digits_value_monotone(s: Seq<char>, k: int)
    requires
        0 <= k <= s.len(),
        all_digits(s),
    ensures
        digits_value(s.take(k)) <= digits_value(s),
    decreases s.len() - k,
{
    if k < s.len() {
        lemma_digits_value_monotone(s, k + 1);
        assert(s.take(k + 1) =~= s.take(k).push(s[k]));
        lemma_digits_value_push(s.take(k), s[k]);
    } else {
        assert(s.take(k) =~= s);
    }
}

/// Value of the digits `s[start..]`, accumulated with overflow checks.
fn digits_from(s: &str, start: usize, len: usize) -> (r: Option<u64>)
    requires
        len == s@.len(),
        start <= len,
    ensures
        r == (if start < len && all_digits(s@.skip(start as int)) && digits_value(
            s@.skip(start as int),
        ) <= u64::MAX {
            Some(digits_value(s@.skip(start as int)) as u64)
        } else {
            None::<u64>
        }),
{
    if start == len {
        return None;
    }
    let ghost body = s@.skip(start as int);
    let mut acc: u64 = 0;
    let mut i: usize = start;
    while i < len
        invariant
            len == s@.len(),
            start <= i <= len,
            body == s@.skip(start as int),
            all_digits(body.take(i - start)),
            acc as nat == digits_value(body.take(i - start)),
        decreases len - i,
    {
        let c = s.get_char(i);
        assert(body[i - start] == c);
        assert(body.take(i - start + 1) =~= body.take(i - start).push(c));
        if !('0' <= c && c <= '9') {
            assert(!all_digits(body)) by {
                assert(!is_digit(body[i - start]));
            }
            return None;
        }
        proof {
            lemma_digits_value_push(body.take(i - start), c);
        }
        let d: u64 = (c as u32 - 48u32) as u64;
        match acc.checked_mul(10) {
            None => {
                proof {
                    if all_digits(body) {
                        lemma_digits_value_monotone(body, i - start + 1);
                    }
                }
                return None;
            },
            Some(t) => match t.checked_add(d) {
                None => {
                    proof {
                        if all_digits(body) {
                            lemma_digits_value_monotone(body, i - start + 1);
                        }
                    }
                    return None;
                },
                Some(v) => {
                    acc = v;
                },
            },
        }
        i = i + 1;
    }
    assert(body.take(i - start) =~= body);
    Some(acc)
}

/// `s.parse::<u64>().ok()`.
pub fn parse_u64(s: &str) -> (r: Option<u64>)
    ensures
        r == parse_u64_spec(s@),
{
    let len = s.unicode_len();
    if len > 0 && s.get_char(0) == '+' {
        assert(s@.skip(1) =~= s@.drop_first());
        digits_from(s, 1, len)
    } else {
        assert(s@.skip(0) =~= s@);
        digits_from(s, 0, len)
    }
}

/// `s.parse::<i64>().ok()`.
pub fn parse_i64(s: &str) -> (r: Option<i64>)
    ensures
        r == parse_i64_spec(s@),
{
    let len = s.unicode_len();
    let negative = len > 0 && s.get_char(0) == '-';
    let start: usize = if len > 0 && (s.get_char(0) == '+' || s.get_char(0) == '-') {
        1
    } else {
        0
    };
    assert(s@.skip(start as int) =~= signed_body(s@));
    match digits_from(s, start, len) {
        None => {
            None
        },
        Some(v) => {
            if negative {
                if v <= 9223372036854775808u64 {
                    if v == 9223372036854775808u64 {
                        Some(i64::MIN)
                    } else {
                        Some(-(v as i64))
                    }
                } else {
                    None
                }
            } else {
                if v <= 9223372036854775807u64 {
                    Some(v as i64)
                } else {
                    None
                }
            }
        },
    }
}

proof fn lemma_decimal_digits(n: nat)
    ensures
        all_digits(decimal(n)),
        digits_value(decimal(n)) == n,
        decimal(n).len() > 0,
        is_digit(decimal(n)[0]),
    decreases n,
{
    assert((digit_char(n % 10) as nat) == n % 10 + 48);
    if n < 10 {
        assert(decimal(n) =~= seq![digit_char(n)]);
        assert(seq![digit_char(n)].drop_last() =~= Seq::<char>::empty());
        assert(digits_value(seq![digit_char(n)]) == digits_value(Seq::<char>::empty()) * 10 + ((
        digit_char(n) as nat) - 48) as nat);
    } else {
        lemma_decimal_digits(n / 10);
        let s = decimal(n / 10);
        lemma_digits_value_push(s, digit_char(n % 10));
        assert forall|i: int| 0 <= i < decimal(n).len() implies is_digit(#[trigger] decimal(n)[i]) by {
            if i < s.len() {
                assert(decimal(n)[i] == s[i]);
            }
        }
    }
}

/// Reading back the decimal text of a `u64` gives the number again.
pub proof fn decimal_round_trip_u64(n: u64)
    ensures
        parse_u64_spec(decimal(n as nat)) == Some(n),
{
    lemma_decimal_digits(n as nat);
}

/// Reading back the decimal text of an `i64` gives the number again.
pub proof fn decimal_round_trip_i64(n: i64)
    ensures
        parse_i64_spec(decimal_int(n as int)) == Some(n),
{
    if n < 0 {
        let d = decimal((-n) as nat);
        lemma_decimal_digits((-n) as nat);
        assert((seq!['-'] + d).drop_first() =~= d);
        assert((seq!['-'] + d)[0] == '-');
    } else {
        lemma_decimal_digits(n as nat);
    }
}

proof fn lemma_decimal_leading(n: nat)
    ensures
        n > 0 ==> decimal(n)[0] != '0',
        n == 0 ==> decimal(n) == seq!['0'],
    decreases n,
{
    if n >= 10 {
        lemma_decimal_leading(n / 10);
        lemma_decimal_digits(n / 10);
        assert(decimal(n)[0] == decimal(n / 10)[0]);
    } else {
        assert((digit_char(n) as nat) == n + 48);
    }
}

/// The decimal text of a number is its usual notation: digits only, read
/// back (most significant first) as the number, with no leading zero.
pub proof fn decimal_is_usual_notation(n: nat)
    ensures
        decimal(n).len() > 0,
        all_digits(decimal(n)),
        digits_value(decimal(n)) == n,
        n > 0 ==> decimal(n)[0] != '0',
        n == 0 ==> decimal(n) == seq!['0'],
{
    lemma_decimal_digits(n);
    lemma_decimal_leading(n);
}

/// `parse::<u64>` accepts exactly an optional `+` then one or more digits
/// whose value fits in a `u64`, and gives that value; a `-` sign, an empty
/// text and a lone `+` are refused.
pub proof fn parse_u64_reads_digits(s: Seq<char>)
    ensures
        parse_u64_spec(s) matches Some(v) ==> ({
            let body = if s.len() > 0 && s[0] == '+' { s.drop_first() } else { s };
            &&& body.len() > 0
            &&& forall|i: int| 0 <= i < body.len() ==> '0' <= #[trigger] body[i] <= '9'
            &&& digits_value(body) == v
        }),
        (s.len() > 0 && (forall|i: int| 0 <= i < s.len() ==> '0' <= #[trigger] s[i] <= '9') && digits_value(s)
            <= u64::MAX) ==> parse_u64_spec(s) == Some(digits_value(s) as u64),
        s.len() > 0 && s[0] == '-' ==> parse_u64_spec(s) is None,
        s.len() == 0 ==> parse_u64_spec(s) is None,
        s == seq!['+'] ==> parse_u64_spec(s) is None,
{
    if s.len() > 0 && s[0] == '-' {
        assert(!is_digit(s[0]));
    }
    if s == seq!['+'] {
        assert(s.drop_first().len() == 0);
    }
}

/// `parse::<i64>` accepts exactly an optional `+` or `-` then one or more
/// digits whose signed value fits in an `i64`, and gives that value; an
/// empty text and a lone sign are refused.
pub proof fn parse_i64_reads_signed_digits(s: Seq<char>)
    ensures
        parse_i64_spec(s) matches Some(v) ==> ({
            let body = if s.len() > 0 && (s[0] == '+' || s[0] == '-') { s.drop_first() } else { s };
            &&& body.len() > 0
            &&& forall|i: int| 0 <= i < body.len() ==> '0' <= #[trigger] body[i] <= '9'
            &&& v == if s.len() > 0 && s[0] == '-' { -digits_value(body) } else { digits_value(body) as int }
        }),
        (s.len() > 0 && (forall|i: int| 0 <= i < s.len() ==> '0' <= #[trigger] s[i] <= '9') && digits_value(s)
            <= i64::MAX) ==> parse_i64_spec(s) == Some(digits_value(s) as i64),
        s.len() == 0 ==> parse_i64_spec(s) is None,
        s == seq!['+'] || s == seq!['-'] ==> parse_i64_spec(s) is None,
{
    if s.len() > 0 && (forall|i: int| 0 <= i < s.len() ==> '0' <= #[trigger] s[i] <= '9') {
        assert(is_digit(s[0]));
    }
    if s == seq!['+'] || s == seq!['-'] {
        assert(s.drop_first().len() == 0);
    }
}

} // verus!

use crate::params::NetworkInfo;
use vstd::arithmetic::div_mod::lemma_mod_multiples_basic;
use vstd::prelude::*;

verus! {

/// The period of the hardware byte counters.
pub const COUNTER_WRAP: i128 = 4294967296;

pub open spec fn wrap() -> int {
    COUNTER_WRAP as int
}

/// The raw counter `raw` lifted by whole periods until it is at least `prev`:
/// the least value `raw + k * 2^32`, `k >= 0`, that is not below `prev`.
pub open spec fn corrected(raw: int, prev: int) -> int {
    if raw >= prev {
        raw
    } else {
        raw + ((prev - raw + wrap() - 1) / wrap()) * wrap()
    }
}

/// Corrects each raw value of `raws` against the corrected value before it,
/// the first one against `prev`.
pub open spec fn corrected_series(prev: int, raws: Seq<int>) -> Seq<int>
    decreases raws.len(),
{
    if raws.len() == 0 {
        Seq::empty()
    } else {
        let s = corrected_series(prev, raws.drop_last());
        let p = if s.len() == 0 { prev } else { s.last() };
        s.push(corrected(raws.last(), p))
    }
}

/// The corrected value is the least lift of the raw value by whole periods
/// that does not fall below the previous corrected value.
pub proof fn lemma_corrected(raw: int, prev: int)
    ensures
        corrected(raw, prev) >= prev,
        corrected(raw, prev) >= raw,
        (corrected(raw, prev) - raw) % wrap() == 0,
        corrected(raw, prev) > raw ==> corrected(raw, prev) - wrap() < prev,
{
    if raw < prev {
        let d = prev - raw;
        let k = (d + wrap() - 1) / wrap();
        assert(k * wrap() >= d && (k - 1) * wrap() < d) by (nonlinear_arith)
            requires
                d > 0,
                k == (d + 4294967296 - 1) / 4294967296,
                wrap() == 4294967296,
        ;
        lemma_mod_multiples_basic(k, wrap());
        assert(corrected(raw, prev) - raw == k * wrap());
    } else {
        lemma_mod_multiples_basic(0, wrap());
    }
}

/// Corrected counters never decrease, whatever the raw values: each is at
/// least the one before it, and the first is at least `prev`.
pub proof fn lemma_corrected_series_monotone(prev: int, raws: Seq<int>)
    ensures
        corrected_series(prev, raws).len() == raws.len(),
        raws.len() > 0 ==> corrected_series(prev, raws)[0] >= prev,
        forall|i: int|
            0 < i < raws.len() ==> corrected_series(prev, raws)[i - 1]
                <= #[trigger] corrected_series(prev, raws)[i],
    decreases raws.len(),
{
    if raws.len() > 0 {
        let s = corrected_series(prev, raws.drop_last());
        lemma_corrected_series_monotone(prev, raws.drop_last());
        let p = if s.len() == 0 { prev } else { s.last() };
        lemma_corrected(raws.last(), p);
        let t = corrected_series(prev, raws);
        assert(t == s.push(corrected(raws.last(), p)));
        assert forall|i: int| 0 < i < raws.len() implies t[i - 1] <= #[trigger] t[i] by {
            if i < s.len() {
                assert(t[i - 1] == s[i - 1] && t[i] == s[i]);
            }
        }
        if s.len() > 0 {
            assert(t[0] == s[0]);
        }
    }
}

/// Lifts `raw` past `prev` by whole periods of the hardware counter; `None`
/// when the lifted value does not fit in an `i64`.
pub fn correct_counter(raw: i64, prev: i64) -> (r: Option<i64>)
    ensures
        r is Some <==> corrected(raw as int, prev as int) <= i64::MAX,
        r is Some ==> r.unwrap() == corrected(raw as int, prev as int),
{
    if raw >= prev {
        return Some(raw);
    }
    let d: i128 = prev as i128 - raw as i128;
    let k: i128 = (d + COUNTER_WRAP - 1) / COUNTER_WRAP;
    assert(k <= 4294967296) by (nonlinear_arith)
        requires
            0 < d <= 18446744073709551615,
            k == (d + 4294967296 - 1) / 4294967296,
    ;
    let v: i128 = raw as i128 + k * COUNTER_WRAP;
    if v <= i64::MAX as i128 {
        Some(v as i64)
    } else {
        None
    }
}

/// `n / d` rounded to the nearest integer, halves away from zero.
pub open spec fn round_div(n: int, d: int) -> int {
    if n >= 0 {
        (2 * n + d) / (2 * d)
    } else {
        -((-2 * n + d) / (2 * d))
    }
}

pub open spec fn clamp_i64(x: int) -> int {
    if x > i64::MAX {
        i64::MAX as int
    } else if x < i64::MIN {
        i64::MIN as int
    } else {
        x
    }
}

/// A counter difference over one refresh period of `refresh_ms`
/// milliseconds, as a per-second rate rounded to the nearest integer and
/// held to the range of `i64`; a zero period gives the extreme of the
/// difference's sign, or zero.
pub open spec fn rate(delta: int, refresh_ms: int) -> int {
    if refresh_ms == 0 {
        if delta > 0 {
            i64::MAX as int
        } else if delta < 0 {
            i64::MIN as int
        } else {
            0
        }
    } else {
        clamp_i64(round_div(delta * 1000, refresh_ms))
    }
}

/// The rate of a difference between two `i64` counters.
pub fn throughput(delta: i128, refresh_ms: u64) -> (r: i64)
    requires
        -36893488147419103232 <= delta <= 36893488147419103232,
    ensures
        r == rate(delta as int, refresh_ms as int),
{
    if refresh_ms == 0 {
        return if delta > 0 {
            i64::MAX
        } else if delta < 0 {
            i64::MIN
        } else {
            0
        };
    }
    let n: i128 = delta * 1000;
    let d: i128 = refresh_ms as i128;
    let q: i128 = if n >= 0 {
        (2 * n + d) / (2 * d)
    } else {
        -((-2 * n + d) / (2 * d))
    };
    if q > i64::MAX as i128 {
        i64::MAX
    } else if q < i64::MIN as i128 {
        i64::MIN
    } else {
        q as i64
    }
}

/// The bytes before the first space or newline.
pub open spec fn first_field(s: Seq<u8>) -> Seq<u8>
    decreases s.len(),
{
    if s.len() == 0 || s[0] == 32u8 || s[0] == 10u8 {
        Seq::empty()
    } else {
        seq![s[0]].add(first_field(s.drop_first()))
    }
}

pub open spec fn is_digit(b: u8) -> bool {
    48u8 <= b <= 57u8
}

pub open spec fn all_digits(d: Seq<u8>) -> bool {
    d.len() > 0 && forall|i: int| 0 <= i < d.len() ==> #[trigger] is_digit(d[i])
}

/// The value of a string of decimal digits.
pub open spec fn digits_value(d: Seq<u8>) -> int
    decreases d.len(),
{
    if d.len() == 0 {
        0
    } else {
        digits_value(d.drop_last()) * 10 + (d.last() - 48u8)
    }
}

/// The integer that a field spells: an optional `+` or `-`, then one or
/// more decimal digits.
pub open spec fn field_value(f: Seq<u8>) -> Option<int> {
    if f.len() > 0 && f[0] == 45u8 && all_digits(f.drop_first()) {
        Some(-digits_value(f.drop_first()))
    } else if f.len() > 0 && f[0] == 43u8 && all_digits(f.drop_first()) {
        Some(digits_value(f.drop_first()))
    } else if all_digits(f) {
        Some(digits_value(f))
    } else {
        None
    }
}

/// The counter that a statistics file holds: the integer in its first
/// field, if it spells one that fits in an `i64`.
pub open spec fn counter_value(text: Seq<u8>) -> Option<i64> {
    match field_value(first_field(text)) {
        Some(v) => if i64::MIN <= v <= i64::MAX {
            Some(v as i64)
        } else {
            None
        },
        None => None,
    }
}

proof fn lemma_first_field(s: Seq<u8>, k: int)
    requires
        0 <= k <= s.len(),
        forall|i: int| 0 <= i < k ==> s[i] != 32u8 && s[i] != 10u8,
        k == s.len() || s[k] == 32u8 || s[k] == 10u8,
    ensures
        first_field(s) == s.subrange(0, k),
    decreases k,
{
    if k > 0 {
        lemma_first_field(s.drop_first(), k - 1);
        assert(seq![s[0]].add(s.drop_first().subrange(0, k - 1)) == s.subrange(0, k));
    }
}

proof fn lemma_digits_grow(d: Seq<u8>, k: int)
    requires
        0 <= k <= d.len(),
        forall|i: int| 0 <= i < d.len() ==> #[trigger] is_digit(d[i]),
    ensures
        digits_value(d.subrange(0, k)) <= digits_value(d),
    decreases d.len() - k,
{
    if k < d.len() {
        lemma_digits_grow(d, k + 1);
        let p = d.subrange(0, k);
        let q = d.subrange(0, k + 1);
        assert(q.drop_last() == p);
        assert(is_digit(d[k]));
        lemma_digits_nonneg(d, k);
    } else {
        assert(d.subrange(0, k) == d);
    }
}

proof fn lemma_digits_nonneg(d: Seq<u8>, k: int)
    requires
        0 <= k <= d.len(),
        forall|i: int| 0 <= i < d.len() ==> #[trigger] is_digit(d[i]),
    ensures
        0 <= digits_value(d.subrange(0, k)),
    decreases k,
{
    if k > 0 {
        lemma_digits_nonneg(d, k - 1);
        assert(d.subrange(0, k).drop_last() == d.subrange(0, k - 1));
        assert(is_digit(d[k - 1]));
    }
}

/// Reads the digits `f[start..]` while their value stays within `limit`;
/// `None` when one is not a digit or the value passes `limit`.
fn digits_upto(f: &[u8], start: usize, limit: i128) -> (r: Option<i128>)
    requires
        start <= f@.len(),
        0 <= limit <= 9223372036854775808,
    ensures
        r is Some <==> (all_digits(f@.subrange(start as int, f@.len() as int)) && digits_value(
            f@.subrange(start as int, f@.len() as int),
        ) <= limit),
        r is Some ==> r.unwrap() == digits_value(f@.subrange(start as int, f@.len() as int)),
        r is Some ==> 0 <= r.unwrap() <= limit,
{
    let ghost d = f@.subrange(start as int, f@.len() as int);
    if start == f.len() {
        return None;
    }
    let mut acc: i128 = 0;
    let mut i: usize = start;
    while i < f.len()
        invariant
            start <= i <= f@.len(),
            d == f@.subrange(start as int, f@.len() as int),
            0 <= limit <= 9223372036854775808,
            forall|j: int| start <= j < i ==> #[trigger] is_digit(f@[j]),
            acc == digits_value(d.subrange(0, i - start)),
            0 <= acc <= limit,
        decreases f@.len() - i,
    {
        let b = f[i];
        if b < 48u8 || b > 57u8 {
            assert(!is_digit(d[i - start]));
            return None;
        }
        assert(d.subrange(0, i + 1 - start).drop_last() == d.subrange(0, i - start));
        acc = acc * 10 + (b - 48u8) as i128;
        if acc > limit {
            proof {
                if all_digits(d) {
                    lemma_digits_grow(d, i + 1 - start);
                }
            }
            return None;
        }
        i = i + 1;
    }
    assert(d.subrange(0, f@.len() - start) == d);
    Some(acc)
}

/// The counter in the first field of `text`: the bytes before the first
/// space or newline, read as an optionally signed decimal `i64`.
pub fn parse_counter(text: &[u8]) -> (r: Option<i64>)
    ensures
        r == counter_value(text@),
{
    let mut k: usize = 0;
    while k < text.len() && text[k] != 32u8 && text[k] != 10u8
        invariant
            k <= text@.len(),
            forall|i: int| 0 <= i < k ==> text@[i] != 32u8 && text@[i] != 10u8,
        decreases text@.len() - k,
    {
        k = k + 1;
    }
    proof {
        lemma_first_field(text@, k as int);
    }
    let f = slice_prefix(text, k);
    let ghost fs = f@;
    if f.len() > 0 && f[0] == 45u8 {
        assert(fs.drop_first() == fs.subrange(1, fs.len() as int));
        assert(!is_digit(fs[0]));
        match digits_upto(f, 1, 9223372036854775808) {
            Some(v) => Some((-v) as i64),
            None => {
                proof {
                    if all_digits(fs.drop_first()) {
                        assert(digits_value(fs.drop_first()) > 9223372036854775808);
                    }
                }
                None
            },
        }
    } else if f.len() > 0 && f[0] == 43u8 {
        assert(fs.drop_first() == fs.subrange(1, fs.len() as int));
        assert(!is_digit(fs[0]));
        match digits_upto(f, 0 + 1, 9223372036854775807) {
            Some(v) => Some(v as i64),
            None => None,
        }
    } else {
        assert(fs == fs.subrange(0, fs.len() as int));
        if f.len() > 0 && f[0] >= 48u8 && f[0] <= 57u8 {
            match digits_upto(f, 0, 9223372036854775807) {
                Some(v) => Some(v as i64),
                None => None,
            }
        } else {
            proof {
                if fs.len() > 0 {
                    assert(!is_digit(fs[0]));
                }
            }
            None
        }
    }
}

/// The first `n` elements of `s`.
fn slice_prefix(s: &[u8], n: usize) -> (r: &[u8])
    requires
        n <= s@.len(),
    ensures
        r@ == s@.subrange(0, n as int),
{
    let (a, _) = s.split_at(n);
    a
}

/// The sample that two statistics files spell, if both hold a counter.
pub fn parse_net_sample(tx_text: &[u8], rx_text: &[u8]) -> (r: Option<NetworkInfo>)
    ensures
        r is Some <==> (counter_value(tx_text@) is Some && counter_value(rx_text@) is Some),
        r is Some ==> r.unwrap().tx_bytes == counter_value(tx_text@).unwrap()
            && r.unwrap().rx_bytes == counter_value(rx_text@).unwrap(),
{
    match (parse_counter(tx_text), parse_counter(rx_text)) {
        (Some(tx), Some(rx)) => Some(NetworkInfo::new(tx, rx)),
        _ => None,
    }
}

} // verus!

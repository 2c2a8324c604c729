//! Conversion of an elapsed time and a byte count into a rate.
//!
//! Rates are in decimal megabytes (1,000,000 bytes) per second and keep
//! three significant digits, truncated: the exact rate is
//! `bytes * 1000 / nanos` MB/s, taken at the fewest decimals that give it
//! three digits, or cut to its three leading digits when it has more.
use vstd::prelude::*;

verus! {

/// Decimals enough for the smallest non-zero rate: one byte over the
/// longest duration a `u128` of nanoseconds can hold still has three
/// digits at this many decimals.
pub const SCALE_BOUND: u8 = 39;

/// A measured rate.
#[derive(PartialEq, Eq, Structural, Clone, Copy, Debug)]
pub enum Throughput {
    /// The operation took no measurable time: no finite rate can be given.
    Unbounded,
    /// `digits / 10^scale` megabytes per second.
    Rate { digits: u128, scale: u8 },
}

pub open spec fn pow10(j: nat) -> nat
    decreases j,
{
    if j == 0 {
        1
    } else {
        10 * pow10((j - 1) as nat)
    }
}

/// The rate in units of `10^-s` MB/s, truncated: bytes/10^6 megabytes over
/// nanos/10^9 seconds.
pub open spec fn scaled_rate(nanos: int, bytes: int, s: nat) -> int
    recommends
        nanos > 0,
{
    (bytes * 1000 * pow10(s)) / nanos
}

/// The fewest decimals, from `s` on, at which the rate has at least three
/// digits.
pub open spec fn scale_from(nanos: int, bytes: int, s: nat) -> nat
    decreases SCALE_BOUND - s,
{
    if s >= SCALE_BOUND || scaled_rate(nanos, bytes, s) >= 100 {
        s
    } else {
        scale_from(nanos, bytes, s + 1)
    }
}

/// `q` with every digit after its three leading ones set to zero.
pub open spec fn keep_three(q: nat) -> nat
    decreases q,
{
    if q < 1000 {
        q
    } else {
        keep_three(q / 10) * 10
    }
}

/// What `throughput` reports for a duration in nanoseconds and a byte count.
pub open spec fn throughput_spec(nanos: int, bytes: int) -> Throughput {
    if nanos == 0 {
        Throughput::Unbounded
    } else if bytes == 0 {
        Throughput::Rate { digits: 0, scale: 0 }
    } else {
        let s = scale_from(nanos, bytes, 0);
        let q = scaled_rate(nanos, bytes, s);
        Throughput::Rate {
            digits: if s == 0 { keep_three(q as nat) as u128 } else { q as u128 },
            scale: s as u8,
        }
    }
}

proof fn lemma_bound_scale_enough(nanos: int, bytes: int)
    requires
        0 < nanos <= u128::MAX,
        bytes >= 1,
    ensures
        scaled_rate(nanos, bytes, SCALE_BOUND as nat) >= 100,
{
    reveal_with_fuel(pow10, 40);
    let p = pow10(39);
    assert(p == 1_000_000_000_000_000_000_000_000_000_000_000_000_000nat);
    let x = bytes * 1000 * p;
    assert(x >= 100 * nanos) by (nonlinear_arith)
        requires bytes >= 1, p == 1_000_000_000_000_000_000_000_000_000_000_000_000_000nat,
            x == bytes * 1000 * p, nanos <= u128::MAX;
    vstd::arithmetic::div_mod::lemma_fundamental_div_mod(x, nanos);
    let q = x / nanos;
    assert(q >= 100) by (nonlinear_arith)
        requires x == nanos * q + x % nanos, x % nanos < nanos, x >= 100 * nanos, nanos > 0;
}

proof fn lemma_keep_three_large(q: nat)
    requires
        q >= 100,
    ensures
        keep_three(q) >= 100,
    decreases q,
{
    if q >= 1000 {
        lemma_keep_three_large(q / 10);
    }
}

/// `10 * r` divided by `d`, for `r < d`, without forming `10 * r`.
fn times_ten_divmod(r: u128, d: u128) -> (res: (u128, u128))
    requires
        r < d,
    ensures
        10 * r == res.0 * d + res.1,
        res.1 < d,
        res.0 < 10,
{
    let mut q: u128 = 0;
    let mut t: u128 = 0;
    let mut k: u128 = 0;
    while k < 10
        invariant
            r < d,
            k <= 10,
            k * r == q * d + t,
            t < d,
            q <= k,
        decreases 10 - k,
    {
        let ghost q0 = q;
        let ghost t0 = t;
        if t >= d - r {
            t = t - (d - r);
            q = q + 1;
        } else {
            t = t + r;
        }
        assert((k + 1) * r == q * d + t) by (nonlinear_arith)
            requires k * r == q0 * d + t0,
                (q == q0 + 1 && t == t0 + r - d) || (q == q0 && t == t0 + r);
        k = k + 1;
    }
    assert(q < 10) by (nonlinear_arith)
        requires 10 * r == q * d + t, r < d, t >= 0, q >= 0;
    (q, t)
}

/// The rate at which `bytes` bytes were handled in `nanos` nanoseconds.
/// A zero duration gives `Unbounded` rather than a division by zero; any
/// other transfer of at least one byte gets exactly three significant
/// digits, so it never reads as zero.
pub fn throughput(nanos: u128, bytes: usize) -> (r: Throughput)
    ensures
        r == throughput_spec(nanos as int, bytes as int),
        nanos == 0 <==> r is Unbounded,
        nanos > 0 && bytes > 0 ==> (r matches Throughput::Rate { digits, scale }
            && 100 <= digits && (scale > 0 ==> digits < 1000)),
{
    if nanos == 0 {
        return Throughput::Unbounded;
    }
    if bytes == 0 {
        return Throughput::Rate { digits: 0, scale: 0 };
    }
    let b = bytes as u128;
    let num: u128 = b * 1000;
    let mut q: u128 = num / nanos;
    let mut rem: u128 = num % nanos;
    let mut s: u8 = 0;
    proof {
        vstd::arithmetic::div_mod::lemma_fundamental_div_mod(num as int, nanos as int);
        assert(pow10(0) == 1);
        assert(num * pow10(0) == q * nanos + rem) by (nonlinear_arith)
            requires pow10(0) == 1, num == nanos * q + rem;
    }
    while q < 100
        invariant
            nanos > 0,
            bytes >= 1,
            num == bytes * 1000,
            s <= SCALE_BOUND,
            num * pow10(s as nat) == q * nanos + rem,
            rem < nanos,
            s > 0 ==> q < 1000,
            q == scaled_rate(nanos as int, bytes as int, s as nat),
            scale_from(nanos as int, bytes as int, 0) == scale_from(nanos as int, bytes as int, s as nat),
        decreases SCALE_BOUND - s,
    {
        proof {
            if s == SCALE_BOUND {
                lemma_bound_scale_enough(nanos as int, bytes as int);
            }
        }
        let (d, t) = times_ten_divmod(rem, nanos);
        let ghost s1: nat = (s + 1) as nat;
        assert(num * pow10(s1) == (10 * q + d) * nanos + t) by (nonlinear_arith)
            requires num * pow10((s1 - 1) as nat) == q * nanos + rem, pow10(s1) == 10 * pow10((s1 - 1) as nat),
                10 * rem == d * nanos + t;
        proof {
            vstd::arithmetic::div_mod::lemma_fundamental_div_mod_converse(
                (num * pow10(s1)) as int, nanos as int, (10 * q + d) as int, t as int);
        }
        q = q * 10 + d;
        rem = t;
        s = s + 1;
    }
    if s > 0 {
        return Throughput::Rate { digits: q, scale: s };
    }
    proof { lemma_keep_three_large(q as nat); }
    let mut t: u128 = q;
    let mut m: u128 = 1;
    while t >= 1000
        invariant
            t * m <= q,
            m >= 1,
            keep_three(q as nat) == keep_three(t as nat) * m,
        decreases t,
    {
        assert((t / 10) * (m * 10) <= t * m) by (nonlinear_arith)
            requires t >= 0, m >= 1;
        assert(keep_three(t as nat) * m == keep_three((t / 10) as nat) * (m * 10)) by (nonlinear_arith)
            requires keep_three(t as nat) == keep_three((t / 10) as nat) * 10;
        assert(m * 10 <= t * m) by (nonlinear_arith)
            requires t >= 1000, m >= 1;
        t = t / 10;
        m = m * 10;
    }
    assert(keep_three(t as nat) == t);
    Throughput::Rate { digits: t * m, scale: 0 }
}

/// The place value of the last digit that `keep_three` keeps.
pub open spec fn kept_unit(q: nat) -> nat
    decreases q,
{
    if q < 1000 {
        1
    } else {
        10 * kept_unit(q / 10)
    }
}

proof fn lemma_keep_three_close(q: nat)
    requires
        q >= 100,
    ensures
        keep_three(q) <= q < keep_three(q) + kept_unit(q),
        100 * kept_unit(q) <= keep_three(q),
    decreases q,
{
    if q >= 1000 {
        let p = q / 10;
        lemma_keep_three_close(p);
        assert(keep_three(q) <= q < keep_three(q) + kept_unit(q)) by (nonlinear_arith)
            requires keep_three(p) <= p < keep_three(p) + kept_unit(p), p == q / 10,
                keep_three(q) == keep_three(p) * 10, kept_unit(q) == 10 * kept_unit(p);
    }
}

/// A reported rate of a non-empty transfer keeps three significant digits:
/// with `v = digits / 10^scale` and the exact rate `x = bytes * 1000 / nanos`
/// MB/s, `v <= x < v * 1.01`, so it is never off by 1% or more. Every
/// call reports in this one unit, decimal megabytes per second.
pub proof fn lemma_throughput_accuracy(nanos: int, bytes: int)
    requires
        0 < nanos <= u128::MAX,
        1 <= bytes <= u64::MAX,
    ensures
        throughput_spec(nanos, bytes) matches Throughput::Rate { digits, scale } && 100 <= digits
            && digits * nanos <= bytes * 1000 * pow10(scale as nat) && 100 * (bytes * 1000 * pow10(scale as nat))
            < 101 * (digits * nanos),
{
    let s = scale_from(nanos, bytes, 0);
    lemma_scale_found(nanos, bytes, 0);
    let x = bytes * 1000 * pow10(s);
    let q = x / nanos;
    vstd::arithmetic::div_mod::lemma_fundamental_div_mod(x, nanos);
    assert(q * nanos <= x < (q + 1) * nanos) by (nonlinear_arith)
        requires x == nanos * q + x % nanos, 0 <= x % nanos < nanos;
    assert(s <= SCALE_BOUND);
    if s == 0 {
        lemma_keep_three_close(q as nat);
        lemma_keep_three_large(q as nat);
        let k = keep_three(q as nat);
        assert(k * nanos <= x && 100 * x < 101 * (k * nanos)) by (nonlinear_arith)
            requires q * nanos <= x < (q + 1) * nanos, k <= q < k + kept_unit(q as nat),
                100 * kept_unit(q as nat) <= k, nanos > 0;
        assert(pow10(0) == 1);
        assert(x == bytes * 1000) by (nonlinear_arith)
            requires x == bytes * 1000 * pow10(s), pow10(s) == 1;
        assert(q <= x) by (nonlinear_arith)
            requires q * nanos <= x, nanos >= 1, q >= 0;
        assert(k <= u128::MAX);
    } else {
        assert(100 * x < 101 * (q * nanos)) by (nonlinear_arith)
            requires x < (q + 1) * nanos, q >= 100, nanos > 0;
        let y = bytes * 1000 * pow10((s - 1) as nat);
        assert(pow10(s) == 10 * pow10((s - 1) as nat));
        assert(x == 10 * y) by (nonlinear_arith)
            requires x == bytes * 1000 * pow10(s), y == bytes * 1000 * pow10((s - 1) as nat),
                pow10(s) == 10 * pow10((s - 1) as nat);
        vstd::arithmetic::div_mod::lemma_fundamental_div_mod(y, nanos);
        assert(q < 1000) by (nonlinear_arith)
            requires y / nanos < 100, y == nanos * (y / nanos) + y % nanos, 0 <= y % nanos < nanos,
                x == 10 * y, q * nanos <= x, nanos > 0;
    }
}

proof fn lemma_scale_found(nanos: int, bytes: int, s: nat)
    requires
        0 < nanos <= u128::MAX,
        bytes >= 1,
        s <= SCALE_BOUND,
    ensures
        scale_from(nanos, bytes, s) <= SCALE_BOUND,
        scaled_rate(nanos, bytes, scale_from(nanos, bytes, s)) >= 100,
        scale_from(nanos, bytes, s) > s ==> scaled_rate(
            nanos,
            bytes,
            (scale_from(nanos, bytes, s) - 1) as nat,
        ) < 100,
    decreases SCALE_BOUND - s,
{
    if s == SCALE_BOUND {
        lemma_bound_scale_enough(nanos, bytes);
    } else if scaled_rate(nanos, bytes, s) < 100 {
        lemma_scale_found(nanos, bytes, s + 1);
    }
}

proof fn lemma_pow10_positive(j: nat)
    ensures
        pow10(j) >= 1,
    decreases j,
{
    if j > 0 {
        lemma_pow10_positive((j - 1) as nat);
    }
}

/// The reported rate is linear in the byte count up to its three digits:
/// for a fixed non-zero duration, with `v1` the rate reported for `bytes`
/// and `v2` the one for `2 * bytes`, `2 * v1 / 1.01 < v2 < 2.02 * v1`; in
/// particular doubling the bytes never halves or keeps the rate.
pub proof fn lemma_throughput_doubling(nanos: int, bytes: int)
    requires
        0 < nanos <= u128::MAX,
        1 <= bytes,
        2 * bytes <= u64::MAX,
    ensures
        throughput_spec(nanos, bytes) matches Throughput::Rate { digits: d1, scale: s1 }
            && throughput_spec(nanos, 2 * bytes) matches Throughput::Rate { digits: d2, scale: s2 }
            && 100 * d2 * pow10(s1 as nat) < 202 * d1 * pow10(s2 as nat)
            && 200 * d1 * pow10(s2 as nat) < 101 * d2 * pow10(s1 as nat)
            && d1 * pow10(s2 as nat) != 2 * d2 * pow10(s1 as nat)
            && d2 * pow10(s1 as nat) != d1 * pow10(s2 as nat),
{
    lemma_throughput_accuracy(nanos, bytes);
    lemma_throughput_accuracy(nanos, 2 * bytes);
    let (d1, s1) = match throughput_spec(nanos, bytes) {
        Throughput::Rate { digits, scale } => (digits as int, scale as nat),
        Throughput::Unbounded => (0, 0),
    };
    let (d2, s2) = match throughput_spec(nanos, 2 * bytes) {
        Throughput::Rate { digits, scale } => (digits as int, scale as nat),
        Throughput::Unbounded => (0, 0),
    };
    let p1 = pow10(s1);
    let p2 = pow10(s2);
    lemma_pow10_positive(s1);
    lemma_pow10_positive(s2);
    let x1 = bytes * 1000 * p1;
    let x2 = 2 * bytes * 1000 * p2;
    let n = nanos;
    assert(x2 * p1 == 2 * x1 * p2) by (nonlinear_arith)
        requires x1 == bytes * 1000 * p1, x2 == 2 * bytes * 1000 * p2;
    // v2 < 2.02 v1
    assert(d2 * n * p1 <= x2 * p1) by (nonlinear_arith)
        requires d2 * n <= x2, p1 >= 1;
    assert(200 * x1 * p2 < 202 * (d1 * n) * p2) by (nonlinear_arith)
        requires 100 * x1 < 101 * (d1 * n), p2 >= 1;
    assert((100 * d2 * p1) * n < (202 * d1 * p2) * n) by (nonlinear_arith)
        requires d2 * n * p1 <= x2 * p1, x2 * p1 == 2 * x1 * p2,
            200 * x1 * p2 < 202 * (d1 * n) * p2;
    assert(100 * d2 * p1 < 202 * d1 * p2) by (nonlinear_arith)
        requires (100 * d2 * p1) * n < (202 * d1 * p2) * n, n > 0;
    // 2 v1 < 1.01 v2
    assert(d1 * n * p2 <= x1 * p2) by (nonlinear_arith)
        requires d1 * n <= x1, p2 >= 1;
    assert(100 * x2 * p1 < 101 * (d2 * n) * p1) by (nonlinear_arith)
        requires 100 * x2 < 101 * (d2 * n), p1 >= 1;
    assert((200 * d1 * p2) * n < (101 * d2 * p1) * n) by (nonlinear_arith)
        requires d1 * n * p2 <= x1 * p2, x2 * p1 == 2 * x1 * p2,
            100 * x2 * p1 < 101 * (d2 * n) * p1;
    assert(200 * d1 * p2 < 101 * d2 * p1) by (nonlinear_arith)
        requires (200 * d1 * p2) * n < (101 * d2 * p1) * n, n > 0;
    assert(d1 >= 100 && d2 >= 100);
    assert(d1 * p2 != 2 * d2 * p1 && d2 * p1 != d1 * p2) by (nonlinear_arith)
        requires 200 * d1 * p2 < 101 * d2 * p1, 100 * d2 * p1 < 202 * d1 * p2, d1 >= 100, d2 >= 100,
            p1 >= 1, p2 >= 1;
}

/// At any fixed number of decimals the rate is linear in the byte count up
/// to truncation: for a fixed non-zero duration, twice the bytes give twice
/// the rate, or one unit more.
pub proof fn lemma_throughput_linear(nanos: int, bytes: int, s: nat)
    requires
        nanos > 0,
        bytes >= 0,
    ensures
        2 * scaled_rate(nanos, bytes, s) <= scaled_rate(nanos, 2 * bytes, s)
            <= 2 * scaled_rate(nanos, bytes, s) + 1,
{
    let d = nanos;
    let a = bytes * 1000 * pow10(s);
    assert(2 * bytes * 1000 * pow10(s) == 2 * a) by (nonlinear_arith)
        requires a == bytes * 1000 * pow10(s);
    let q = a / d;
    let m = a % d;
    vstd::arithmetic::div_mod::lemma_fundamental_div_mod(a, d);
    assert(2 * a == (2 * q) * d + 2 * m) by (nonlinear_arith)
        requires a == d * q + m;
    if 2 * m < d {
        vstd::arithmetic::div_mod::lemma_fundamental_div_mod_converse(2 * a, d, 2 * q, 2 * m);
    } else {
        assert(2 * a == (2 * q + 1) * d + (2 * m - d)) by (nonlinear_arith)
            requires 2 * a == (2 * q) * d + 2 * m;
        vstd::arithmetic::div_mod::lemma_fundamental_div_mod_converse(2 * a, d, 2 * q + 1, 2 * m - d);
    }
}

/// A zero duration is reported as `Unbounded` whatever the byte count.
pub proof fn lemma_throughput_zero(bytes: int)
    ensures
        throughput_spec(0, bytes) is Unbounded,
{
}

} // verus!

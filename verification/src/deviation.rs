//! Population standard deviation of a whole series, rounded down.

use vstd::prelude::*;
use crate::error::IndicatorError;

verus! {

/// The sum of the first `k` samples of `s`.
pub open spec fn sum_to(s: Seq<u64>, k: nat) -> nat
    decreases k,
{
    if k == 0 {
        0
    } else {
        sum_to(s, (k - 1) as nat) + s[k - 1] as nat
    }
}

/// The sum of the squares of the first `k` samples of `s`.
pub open spec fn sum_sq_to(s: Seq<u64>, k: nat) -> nat
    decreases k,
{
    if k == 0 {
        0
    } else {
        sum_sq_to(s, (k - 1) as nat) + (s[k - 1] * s[k - 1]) as nat
    }
}

/// `k * (sum of squares) - (sum)^2` over the first `k` samples: the population
/// variance of those samples times `k^2`.
pub open spec fn spread_to(s: Seq<u64>, k: nat) -> int {
    k * sum_sq_to(s, k) - sum_to(s, k) * sum_to(s, k)
}

/// The population variance of `s` times the square of its length.
pub open spec fn spread(s: Seq<u64>) -> int {
    spread_to(s, s.len())
}

/// Whether `r` is the population standard deviation of `s`, which is
/// `sqrt(spread(s)) / s.len()`, rounded down.
pub open spec fn is_std(s: Seq<u64>, r: nat) -> bool {
    let n = s.len();
    (r * n) * (r * n) <= spread(s) < ((r + 1) * n) * ((r + 1) * n)
}

/// Whether `r` is the square root of `v`, rounded down.
pub open spec fn is_sqrt(v: nat, r: nat) -> bool {
    r * r <= v < (r + 1) * (r + 1)
}

/// The squared distances of the first `k` samples from any point `x` add up
/// to a sum that is not negative.
proof fn lemma_distance_nonneg(s: Seq<u64>, k: nat, x: int)
    requires
        k <= s.len(),
    ensures
        sum_sq_to(s, k) - 2 * x * sum_to(s, k) + k * x * x >= 0,
    decreases k,
{
    let qk = sum_sq_to(s, k) as int;
    let tk = sum_to(s, k) as int;
    if k > 0 {
        lemma_distance_nonneg(s, (k - 1) as nat, x);
        let q = sum_sq_to(s, (k - 1) as nat) as int;
        let t = sum_to(s, (k - 1) as nat) as int;
        let y = s[k - 1] as int;
        assert(y * y >= 0) by (nonlinear_arith);
        assert(qk == q + y * y);
        assert(tk == t + y);
        assert(qk - 2 * x * tk + k * x * x >= 0) by (nonlinear_arith)
            requires
                q - 2 * x * t + (k - 1) * x * x >= 0,
                qk == q + y * y,
                tk == t + y,
        ;
    } else {
        assert(qk - 2 * x * tk + k * x * x >= 0) by (nonlinear_arith)
            requires
                k == 0,
                qk == 0,
                tk == 0,
        ;
    }
}

/// The variance of any prefix of a series is not negative.
pub proof fn lemma_spread_nonneg(s: Seq<u64>, k: nat)
    requires
        k <= s.len(),
    ensures
        spread_to(s, k) >= 0,
    decreases k,
{
    if k > 0 {
        lemma_spread_nonneg(s, (k - 1) as nat);
        let y = s[k - 1] as int;
        lemma_distance_nonneg(s, (k - 1) as nat, y);
        let q = sum_sq_to(s, (k - 1) as nat) as int;
        let t = sum_to(s, (k - 1) as nat) as int;
        assert(k * (q + y * y) - (t + y) * (t + y) >= 0) by (nonlinear_arith)
            requires
                (k - 1) * q - t * t >= 0,
                q - 2 * y * t + (k - 1) * y * y >= 0,
        ;
    }
}

/// The sums grow with the prefix, and the plain sum stays under `k * 2^64`.
pub proof fn lemma_sums_grow(s: Seq<u64>, j: nat, k: nat)
    requires
        j <= k <= s.len(),
    ensures
        sum_sq_to(s, j) <= sum_sq_to(s, k),
        sum_to(s, j) <= sum_to(s, k),
        sum_to(s, k) <= k * u64::MAX,
    decreases k,
{
    if k > 0 {
        if j < k {
            lemma_sums_grow(s, j, (k - 1) as nat);
        } else {
            lemma_sums_grow(s, (k - 1) as nat, (k - 1) as nat);
        }
        assert(k * u64::MAX == (k - 1) * u64::MAX + u64::MAX) by (nonlinear_arith);
        assert(s[k - 1] * s[k - 1] >= 0) by (nonlinear_arith);
    }
}

/// No series has two standard deviations.
pub proof fn lemma_std_unique(s: Seq<u64>, a: nat, b: nat)
    requires
        s.len() > 0,
        is_std(s, a),
        is_std(s, b),
    ensures
        a == b,
{
    let n = s.len() as int;
    if a < b {
        assert(((a + 1) * n) * ((a + 1) * n) <= (b * n) * (b * n)) by (nonlinear_arith)
            requires
                0 <= a + 1 <= b,
                n > 0,
        ;
    }
    if b < a {
        assert(((b + 1) * n) * ((b + 1) * n) <= (a * n) * (a * n)) by (nonlinear_arith)
            requires
                0 <= b + 1 <= a,
                n > 0,
        ;
    }
}

/// The square root of `v`, rounded down.
pub fn isqrt(v: u128) -> (r: u64)
    ensures
        is_sqrt(v as nat, r as nat),
{
    let mut lo: u128 = 0;
    let mut hi: u128 = 0x1_0000_0000_0000_0000;
    assert(v < hi * hi) by (nonlinear_arith)
        requires
            hi == 0x1_0000_0000_0000_0000,
            v <= u128::MAX,
    ;
    while hi - lo > 1
        invariant
            lo < hi <= 0x1_0000_0000_0000_0000,
            lo * lo <= v < hi * hi,
        decreases hi - lo,
    {
        let mid: u128 = lo + (hi - lo) / 2;
        assert(mid * mid <= 0xffff_ffff_ffff_ffff * 0xffff_ffff_ffff_ffff) by (nonlinear_arith)
            requires
                0 <= mid <= 0xffff_ffff_ffff_ffff,
        ;
        if mid * mid <= v {
            lo = mid;
        } else {
            hi = mid;
        }
    }
    lo as u64
}

/// The population standard deviation of `series`, rounded down.
///
/// An empty series has none.  The computation keeps `n` times the sum of the
/// squares in 128 bits and gives up where that does not fit.
pub fn standard_deviation(series: &[u64]) -> (r: Result<u64, IndicatorError>)
    ensures
        match r {
            Ok(v) => series@.len() > 0 && is_std(series@, v as nat),
            Err(IndicatorError::NotReady) => series@.len() == 0,
            Err(IndicatorError::OutOfRange) => series@.len() > 0 && series@.len() * sum_sq_to(
                series@,
                series@.len(),
            ) > u128::MAX,
        },
        r is Ok <==> series@.len() > 0 && series@.len() * sum_sq_to(series@, series@.len())
            <= u128::MAX,
{
    let n: usize = series.len();
    if n == 0 {
        return Err(IndicatorError::NotReady);
    }
    let ghost total_sq: nat = sum_sq_to(series@, n as nat);
    let mut sum: u128 = 0;
    let mut sum_sq: u128 = 0;
    let mut i: usize = 0;
    while i < n
        invariant
            n == series@.len(),
            i <= n,
            n >= 1,
            sum == sum_to(series@, i as nat),
            sum_sq == sum_sq_to(series@, i as nat),
            total_sq == sum_sq_to(series@, n as nat),
        decreases n - i,
    {
        let x: u128 = series[i] as u128;
        proof {
            lemma_sums_grow(series@, (i + 1) as nat, n as nat);
            lemma_sums_grow(series@, (i + 1) as nat, (i + 1) as nat);
            assert((i + 1) * u64::MAX <= 0xffff_ffff_ffff_ffff * 0xffff_ffff_ffff_ffff)
                by (nonlinear_arith)
                requires
                    i + 1 <= 0xffff_ffff_ffff_ffff,
            ;
            assert(x * x <= 0xffff_ffff_ffff_ffff * 0xffff_ffff_ffff_ffff) by (nonlinear_arith)
                requires
                    0 <= x <= 0xffff_ffff_ffff_ffff,
            ;
        }
        sum = sum + x;
        match sum_sq.checked_add(x * x) {
            Some(next) => {
                sum_sq = next;
            },
            None => {
                proof {
                    assert(n * total_sq >= total_sq) by (nonlinear_arith)
                        requires
                            n >= 1,
                            total_sq >= 0,
                    ;
                }
                return Err(IndicatorError::OutOfRange);
            },
        }
        i = i + 1;
    }
    let scaled: u128 = match (n as u128).checked_mul(sum_sq) {
        Some(p) => p,
        None => {
            return Err(IndicatorError::OutOfRange);
        },
    };
    proof {
        lemma_spread_nonneg(series@, n as nat);
    }
    let v: u128 = scaled - sum * sum;
    let root: u64 = isqrt(v);
    let r: u64 = root / (n as u64);
    proof {
        let q = root as int;
        let m = n as int;
        let ri = r as int;
        assert(ri * m <= q < (ri + 1) * m) by (nonlinear_arith)
            requires
                ri == q / m,
                m > 0,
                q >= 0,
        ;
        assert((ri * m) * (ri * m) <= q * q) by (nonlinear_arith)
            requires
                0 <= ri * m <= q,
        ;
        assert((q + 1) * (q + 1) <= ((ri + 1) * m) * ((ri + 1) * m)) by (nonlinear_arith)
            requires
                0 <= q + 1 <= (ri + 1) * m,
        ;
    }
    Ok(r)
}

} // verus!

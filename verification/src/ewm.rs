//! Exponentially weighted moving average in fixed-point arithmetic.
//!
//! The mean at index `t` weighs sample `t - i` by `(com / (com + 1))^i`.  It is
//! kept in sub-units, `SUBUNITS` of them to one unit of the series, and
//! updated sample by sample with rounding towards zero.

use vstd::prelude::*;
use crate::error::IndicatorError;

verus! {

/// Sub-units per unit in a smoothing state.
pub const SUBUNITS: u64 = 1_000_000;

/// The sum of the weights of samples `0..=t`, in sub-units:
/// `1 + d + d^2 + ... + d^t` with `d = com / (com + 1)`.
pub open spec fn decay_weight(com: nat, t: nat) -> nat
    decreases t,
{
    if t == 0 {
        SUBUNITS as nat
    } else {
        (SUBUNITS + com * decay_weight(com, (t - 1) as nat) / (com + 1)) as nat
    }
}

/// One update of the mean: the old mean `prev` keeps the share
/// `(w - SUBUNITS) / w`, the new sample `x` gets the share `SUBUNITS / w`.
pub open spec fn blend(w: nat, prev: nat, x: nat) -> nat {
    (((w - SUBUNITS) * prev + SUBUNITS * (x * SUBUNITS)) / (w as int)) as nat
}

/// The weighted mean of samples `0..=t` of `s`, in sub-units.
pub open spec fn smoothed(s: Seq<u64>, com: nat, t: nat) -> nat
    decreases t,
{
    if t == 0 {
        (s[0] * SUBUNITS) as nat
    } else {
        blend(decay_weight(com, t), smoothed(s, com, (t - 1) as nat), s[t as int] as nat)
    }
}

/// The weighted mean of samples `0..=t` of `s`, in units of the series.
pub open spec fn ewm_value(s: Seq<u64>, com: nat, t: nat) -> nat {
    smoothed(s, com, t) / (SUBUNITS as nat)
}

/// Whether index `t` has seen at least `min_periods` samples.
pub open spec fn warmed_up(min_periods: nat, t: nat) -> bool {
    t + 1 >= min_periods
}

/// The weight sum lies between one and `com + 1`.
pub proof fn lemma_decay_weight_bounds(com: nat, t: nat)
    ensures
        SUBUNITS <= decay_weight(com, t) <= (com + 1) * SUBUNITS,
    decreases t,
{
    if t > 0 {
        lemma_decay_weight_bounds(com, (t - 1) as nat);
        let w = decay_weight(com, (t - 1) as nat);
        let p = SUBUNITS as nat;
        assert(0 <= com * w / (com + 1) <= com * p) by (nonlinear_arith)
            requires
                p <= w <= (com + 1) * p,
        ;
        assert((com + 1) * p == com * p + p) by (nonlinear_arith);
    }
}

/// A blend of a mean and a sample that both lie in `lo..=hi` lies there too.
pub proof fn lemma_blend_within(w: nat, prev: nat, x: nat, lo: nat, hi: nat)
    requires
        SUBUNITS <= w,
        lo * SUBUNITS <= prev <= hi * SUBUNITS,
        lo <= x <= hi,
    ensures
        lo * SUBUNITS <= blend(w, prev, x) <= hi * SUBUNITS,
{
    let p = SUBUNITS as int;
    let wi = w as int;
    let num = (wi - p) * prev + p * (x * p);
    assert(wi * (lo * p) <= num <= wi * (hi * p)) by (nonlinear_arith)
        requires
            0 < p <= wi,
            lo * p <= prev <= hi * p,
            lo <= x <= hi,
            num == (wi - p) * prev + p * (x * p),
    ;
    assert(lo * p <= num / wi <= hi * p) by (nonlinear_arith)
        requires
            0 < wi,
            wi * (lo * p) <= num <= wi * (hi * p),
    ;
}

/// The mean of samples that all lie in `lo..=hi` lies there too.
pub proof fn lemma_smoothed_within(s: Seq<u64>, com: nat, t: nat, lo: nat, hi: nat)
    requires
        t < s.len(),
        forall|i: int| 0 <= i <= t ==> lo <= #[trigger] s[i] <= hi,
    ensures
        lo * SUBUNITS <= smoothed(s, com, t) <= hi * SUBUNITS,
    decreases t,
{
    if t == 0 {
        assert(lo * SUBUNITS <= s[0] * SUBUNITS <= hi * SUBUNITS) by (nonlinear_arith)
            requires
                lo <= s[0] <= hi,
        ;
    } else {
        lemma_smoothed_within(s, com, (t - 1) as nat, lo, hi);
        lemma_decay_weight_bounds(com, t);
        lemma_blend_within(
            decay_weight(com, t),
            smoothed(s, com, (t - 1) as nat),
            s[t as int] as nat,
            lo,
            hi,
        );
    }
}

/// The mean of a constant series is that constant, at every index and for
/// every decay.
pub proof fn lemma_constant_series(s: Seq<u64>, com: nat, t: nat, c: u64)
    requires
        t < s.len(),
        forall|i: int| 0 <= i <= t ==> #[trigger] s[i] == c,
    ensures
        smoothed(s, com, t) == c * SUBUNITS,
        ewm_value(s, com, t) == c,
{
    lemma_smoothed_within(s, com, t, c as nat, c as nat);
    assert((c * SUBUNITS) / (SUBUNITS as int) == c) by (nonlinear_arith);
}

/// The smoothing state of every index of `series`.
pub fn ewm_states(series: &[u64], com: u16) -> (out: Vec<u128>)
    ensures
        out@.len() == series@.len(),
        forall|i: int| 0 <= i < out@.len() ==> out@[i] == smoothed(series@, com as nat, i as nat),
{
    let n: usize = series.len();
    let mut out: Vec<u128> = Vec::new();
    if n == 0 {
        return out;
    }
    let unit: u128 = SUBUNITS as u128;
    let c: u128 = com as u128;
    let mut w: u128 = unit;
    let mut prev: u128 = series[0] as u128 * unit;
    out.push(prev);
    proof {
        lemma_smoothed_within(series@, com as nat, 0, 0, u64::MAX as nat);
    }
    let mut i: usize = 1;
    while i < n
        invariant
            n == series@.len(),
            1 <= i <= n,
            unit == SUBUNITS,
            c == com,
            w == decay_weight(com as nat, (i - 1) as nat),
            prev == smoothed(series@, com as nat, (i - 1) as nat),
            prev <= u64::MAX * SUBUNITS,
            out@.len() == i,
            forall|k: int| 0 <= k < i ==> out@[k] == smoothed(series@, com as nat, k as nat),
        decreases n - i,
    {
        proof {
            lemma_decay_weight_bounds(com as nat, (i - 1) as nat);
            lemma_decay_weight_bounds(com as nat, i as nat);
            lemma_smoothed_within(series@, com as nat, i as nat, 0, u64::MAX as nat);
            assert(c * w <= 65535 * (65536 * 1_000_000)) by (nonlinear_arith)
                requires
                    c <= 65535,
                    w <= (c + 1) * 1_000_000,
            ;
        }
        w = unit + (c * w) / (c + 1);
        let x: u128 = series[i] as u128;
        proof {
            assert((w - unit) * prev <= 65536 * 1_000_000 * (0xffff_ffff_ffff_ffff * 1_000_000))
                by (nonlinear_arith)
                requires
                    unit == 1_000_000,
                    unit <= w <= 65536 * 1_000_000,
                    prev <= 0xffff_ffff_ffff_ffff * 1_000_000,
            ;
            assert(unit * (x * unit) <= 1_000_000 * (0xffff_ffff_ffff_ffff * 1_000_000))
                by (nonlinear_arith)
                requires
                    unit == 1_000_000,
                    x <= 0xffff_ffff_ffff_ffff,
            ;
            assert(x * unit <= 0xffff_ffff_ffff_ffff * 1_000_000) by (nonlinear_arith)
                requires
                    unit == 1_000_000,
                    x <= 0xffff_ffff_ffff_ffff,
            ;
        }
        prev = ((w - unit) * prev + unit * (x * unit)) / w;
        out.push(prev);
        i = i + 1;
    }
    out
}

/// The moving average of every index of `series`: nothing before
/// `min_periods` samples have been seen, the mean in units of the series from
/// then on.
pub fn ewm_mean_series(series: &[u64], com: u16, min_periods: usize) -> (out: Vec<Option<u64>>)
    ensures
        out@.len() == series@.len(),
        forall|i: int|
            0 <= i < out@.len() ==> if warmed_up(min_periods as nat, i as nat) {
                #[trigger] out@[i] matches Some(v) && v == ewm_value(series@, com as nat, i as nat)
            } else {
                out@[i] is None
            },
{
    let states: Vec<u128> = ewm_states(series, com);
    let n: usize = states.len();
    let mut out: Vec<Option<u64>> = Vec::new();
    let mut i: usize = 0;
    while i < n
        invariant
            n == series@.len(),
            n == states@.len(),
            i <= n,
            forall|k: int|
                0 <= k < n ==> states@[k] == smoothed(series@, com as nat, k as nat),
            out@.len() == i,
            forall|k: int|
                0 <= k < i ==> if warmed_up(min_periods as nat, k as nat) {
                    #[trigger] out@[k] matches Some(v) && v == ewm_value(
                        series@,
                        com as nat,
                        k as nat,
                    )
                } else {
                    out@[k] is None
                },
        decreases n - i,
    {
        proof {
            lemma_ewm_value_fits(series@, com as nat, i as nat);
        }
        if i + 1 >= min_periods {
            let v: u128 = states[i] / (SUBUNITS as u128);
            out.push(Some(v as u64));
        } else {
            out.push(None);
        }
        i = i + 1;
    }
    out
}

/// The mean in units of the series is no larger than the largest sample, so
/// it fits the sample type.
pub proof fn lemma_ewm_value_fits(s: Seq<u64>, com: nat, t: nat)
    requires
        t < s.len(),
    ensures
        ewm_value(s, com, t) <= u64::MAX,
{
    lemma_smoothed_within(s, com, t, 0, u64::MAX as nat);
    let v = smoothed(s, com, t) as int;
    let p = SUBUNITS as int;
    assert(v / p <= u64::MAX) by (nonlinear_arith)
        requires
            0 <= v <= u64::MAX * p,
            p > 0,
    ;
}

/// The moving average as of the last sample of `series`.
///
/// It is not ready while the series is empty or holds fewer than
/// `min_periods` samples.
pub fn ewm_mean(series: &[u64], com: u16, min_periods: usize) -> (r: Result<u64, IndicatorError>)
    ensures
        match r {
            Ok(v) => series@.len() > 0 && series@.len() >= min_periods && v == ewm_value(
                series@,
                com as nat,
                (series@.len() - 1) as nat,
            ),
            Err(e) => e == IndicatorError::NotReady && (series@.len() == 0 || series@.len()
                < min_periods),
        },
{
    let n: usize = series.len();
    if n == 0 || n < min_periods {
        return Err(IndicatorError::NotReady);
    }
    let states: Vec<u128> = ewm_states(series, com);
    proof {
        lemma_ewm_value_fits(series@, com as nat, (n - 1) as nat);
    }
    let v: u128 = states[n - 1] / (SUBUNITS as u128);
    Ok(v as u64)
}

} // verus!

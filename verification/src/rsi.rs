//! Relative strength index.
//!
//! The index compares the smoothed upward moves of a series with its smoothed
//! downward moves: `100 - 100 / (1 + up / down)`, which is
//! `100 * up / (up + down)`.  It is held in millionths of a point.

use vstd::prelude::*;
use crate::error::IndicatorError;
use crate::ewm::{ewm_states, smoothed, lemma_smoothed_within, SUBUNITS};

verus! {

/// Millionths per point of the index.
pub const RSI_SCALE: i64 = 1_000_000;

/// The largest value of the index: 100 points.
pub const RSI_MAX: i64 = 100_000_000;

/// Values under 10 points are noise.
pub const RSI_NOISE_FLOOR: i64 = 10_000_000;

/// What stands for a value that is noise or undefined: -1 point.
pub const RSI_UNRELIABLE: i64 = -1_000_000;

/// The upward part of each move of `s`: entry `i` is `s[i + 1] - s[i]` where
/// the series rises and zero where it does not.
pub open spec fn gains(s: Seq<u64>) -> Seq<u64> {
    Seq::new(
        if s.len() == 0 { 0nat } else { (s.len() - 1) as nat },
        |i: int| if s[i + 1] > s[i] { (s[i + 1] - s[i]) as u64 } else { 0u64 },
    )
}

/// The downward part of each move of `s`: entry `i` is `s[i] - s[i + 1]` where
/// the series falls and zero where it does not.
pub open spec fn losses(s: Seq<u64>) -> Seq<u64> {
    Seq::new(
        if s.len() == 0 { 0nat } else { (s.len() - 1) as nat },
        |i: int| if s[i + 1] < s[i] { (s[i] - s[i + 1]) as u64 } else { 0u64 },
    )
}

/// The index for an average gain `up` and an average loss `down`.
///
/// Without any move the ratio is undefined; under the noise floor it is not
/// trusted.  Both give `RSI_UNRELIABLE`.
pub open spec fn strength(up: nat, down: nat) -> int {
    if up + down == 0 {
        RSI_UNRELIABLE as int
    } else {
        let v = (RSI_MAX * up) / ((up + down) as int);
        if v < RSI_NOISE_FLOOR { RSI_UNRELIABLE as int } else { v }
    }
}

/// Whether the index at position `t` of a series rests on at least
/// `min_periods` moves.  Position 0 has no move before it.
pub open spec fn rsi_ready(min_periods: nat, t: nat) -> bool {
    t >= 1 && t >= min_periods
}

/// The index at position `t >= 1` of `s`.
pub open spec fn rsi_at(s: Seq<u64>, com: nat, t: nat) -> int {
    strength(
        smoothed(gains(s), com, (t - 1) as nat),
        smoothed(losses(s), com, (t - 1) as nat),
    )
}

/// What `rsi_series` holds at position `t`.
pub open spec fn rsi_entry(s: Seq<u64>, com: nat, min_periods: nat, t: nat) -> Option<i64> {
    if rsi_ready(min_periods, t) {
        Some(rsi_at(s, com, t) as i64)
    } else {
        None
    }
}

/// Whether `v` is a value that the index can take: the sentinel, or a value
/// from the noise floor up to 100 points.
pub open spec fn rsi_value_ok(v: int) -> bool {
    v == RSI_UNRELIABLE || RSI_NOISE_FLOOR <= v <= RSI_MAX
}

/// The index is the sentinel or lies between the noise floor and 100 points.
pub proof fn lemma_strength_range(up: nat, down: nat)
    ensures
        rsi_value_ok(strength(up, down)),
        -RSI_SCALE <= strength(up, down) <= 100 * RSI_SCALE,
{
    if up + down > 0 {
        let m = RSI_MAX as int;
        let d = (up + down) as int;
        assert((m * up) / d <= m) by (nonlinear_arith)
            requires
                0 <= up <= d,
                d > 0,
                m >= 0,
        ;
    }
}

/// The index is the sentinel or lies between the noise floor and 100 points,
/// at every position of every series.
pub proof fn lemma_rsi_range(s: Seq<u64>, com: nat, t: nat)
    ensures
        rsi_value_ok(rsi_at(s, com, t)),
        -RSI_SCALE <= rsi_at(s, com, t) <= 100 * RSI_SCALE,
{
    lemma_strength_range(
        smoothed(gains(s), com, (t - 1) as nat),
        smoothed(losses(s), com, (t - 1) as nat),
    );
}

/// The upward and the downward part of each move of `series`.
pub fn moves(series: &[u64]) -> (out: (Vec<u64>, Vec<u64>))
    ensures
        out.0@ == gains(series@),
        out.1@ == losses(series@),
{
    let n: usize = series.len();
    let mut up: Vec<u64> = Vec::new();
    let mut down: Vec<u64> = Vec::new();
    if n == 0 {
        assert(up@ =~= gains(series@));
        assert(down@ =~= losses(series@));
        return (up, down);
    }
    let mut i: usize = 0;
    while i + 1 < n
        invariant
            n == series@.len(),
            n >= 1,
            i + 1 <= n,
            up@.len() == i,
            down@.len() == i,
            forall|k: int| 0 <= k < i ==> up@[k] == gains(series@)[k],
            forall|k: int| 0 <= k < i ==> down@[k] == losses(series@)[k],
        decreases n - i,
    {
        let a: u64 = series[i];
        let b: u64 = series[i + 1];
        if b > a {
            up.push(b - a);
            down.push(0);
        } else {
            up.push(0);
            down.push(a - b);
        }
        i = i + 1;
    }
    assert(up@ =~= gains(series@));
    assert(down@ =~= losses(series@));
    (up, down)
}

/// The index for two smoothing states.
pub fn strength_of(up: u128, down: u128) -> (v: i64)
    requires
        up <= u64::MAX * SUBUNITS,
        down <= u64::MAX * SUBUNITS,
    ensures
        v == strength(up as nat, down as nat),
        rsi_value_ok(v as int),
{
    proof {
        lemma_strength_range(up as nat, down as nat);
    }
    if up == 0 && down == 0 {
        return RSI_UNRELIABLE;
    }
    let total: u128 = up + down;
    proof {
        assert(100_000_000 * up <= 100_000_000 * (0xffff_ffff_ffff_ffff * 1_000_000))
            by (nonlinear_arith)
            requires
                up <= 0xffff_ffff_ffff_ffff * 1_000_000,
        ;
        assert((100_000_000 * up) / (total as int) <= 100_000_000) by (nonlinear_arith)
            requires
                0 <= up <= total,
                total > 0,
        ;
    }
    let scaled: u128 = (100_000_000u128 * up) / total;
    if scaled < 10_000_000u128 {
        RSI_UNRELIABLE
    } else {
        scaled as i64
    }
}

/// The index at every position of `series`: nothing while fewer than
/// `min_periods` moves have been seen, the value from then on.
pub fn rsi_series(series: &[u64], com: u16, min_periods: usize) -> (out: Vec<Option<i64>>)
    ensures
        out@.len() == series@.len(),
        forall|t: int|
            0 <= t < out@.len() ==> #[trigger] out@[t] == rsi_entry(
                series@,
                com as nat,
                min_periods as nat,
                t as nat,
            ),
        forall|t: int|
            0 <= t < out@.len() ==> (#[trigger] out@[t] matches Some(v) ==> rsi_value_ok(v as int)),
{
    let n: usize = series.len();
    let (up, down) = moves(series);
    let up_states: Vec<u128> = ewm_states(up.as_slice(), com);
    let down_states: Vec<u128> = ewm_states(down.as_slice(), com);
    let mut out: Vec<Option<i64>> = Vec::new();
    let mut t: usize = 0;
    while t < n
        invariant
            n == series@.len(),
            t <= n,
            up@ == gains(series@),
            down@ == losses(series@),
            up_states@.len() == up@.len(),
            down_states@.len() == down@.len(),
            forall|k: int|
                0 <= k < up_states@.len() ==> up_states@[k] == smoothed(up@, com as nat, k as nat),
            forall|k: int|
                0 <= k < down_states@.len() ==> down_states@[k] == smoothed(
                    down@,
                    com as nat,
                    k as nat,
                ),
            out@.len() == t,
            forall|k: int|
                0 <= k < t ==> #[trigger] out@[k] == rsi_entry(
                    series@,
                    com as nat,
                    min_periods as nat,
                    k as nat,
                ),
            forall|k: int|
                0 <= k < t ==> (#[trigger] out@[k] matches Some(v) ==> rsi_value_ok(v as int)),
        decreases n - t,
    {
        if t >= 1 && t >= min_periods {
            proof {
                lemma_smoothed_within(up@, com as nat, (t - 1) as nat, 0, u64::MAX as nat);
                lemma_smoothed_within(down@, com as nat, (t - 1) as nat, 0, u64::MAX as nat);
            }
            let v: i64 = strength_of(up_states[t - 1], down_states[t - 1]);
            out.push(Some(v));
        } else {
            out.push(None);
        }
        t = t + 1;
    }
    out
}

/// The index as of the last sample of `series`.
///
/// It is not ready while the series holds fewer than `min_periods` moves,
/// that is unless it holds more than `min_periods` samples and at least two.
pub fn rsi(series: &[u64], com: u16, min_periods: usize) -> (r: Result<i64, IndicatorError>)
    ensures
        match r {
            Ok(v) => series@.len() >= 2 && series@.len() > min_periods && v == rsi_at(
                series@,
                com as nat,
                (series@.len() - 1) as nat,
            ) && rsi_value_ok(v as int),
            Err(e) => e == IndicatorError::NotReady && (series@.len() < 2 || series@.len()
                <= min_periods),
        },
{
    let n: usize = series.len();
    if n < 2 || n <= min_periods {
        return Err(IndicatorError::NotReady);
    }
    let all: Vec<Option<i64>> = rsi_series(series, com, min_periods);
    proof {
        lemma_rsi_range(series@, com as nat, (n - 1) as nat);
    }
    match all[n - 1] {
        Some(v) => Ok(v),
        None => Err(IndicatorError::NotReady),
    }
}

} // verus!

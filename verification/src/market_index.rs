//! The state of the whole market, read off its two leading assets.
//!
//! The first asset says how far the market stands from its own moving
//! average; both assets together say how strong it is.

use vstd::prelude::*;
use vstd::string::StringExecFns;
use crate::divergence::{RSI_COM, RSI_MIN_PERIODS};
use crate::error::UPBitError;
use crate::ewm::{ewm_states, lemma_smoothed_within, smoothed, SUBUNITS};
use crate::rsi::{gains, losses, moves, RSI_MAX};

verus! {

/// One reading of the market.
#[derive(Clone, Copy, Debug, PartialEq, Eq, Structural)]
pub struct MarketReading {
    /// How far the first asset stands from its moving average, weighted by
    /// two thirds, in thousandths of a percent.
    pub level: i128,
    /// The change of the level since the sample before.
    pub delta: i128,
    /// The strength of the market: the index of the first asset twice and
    /// that of the second once, averaged, in millionths of a point.
    pub strength: i64,
}

/// `num / den`, rounded towards zero.
pub open spec fn quotient_towards_zero(num: int, den: int) -> int {
    if num >= 0 {
        num / den
    } else {
        -((-num) / den)
    }
}

/// The level of the market at sample `t` of the first asset:
/// `2 * (price - mean) / (3 * mean)` in thousandths of a percent.
pub open spec fn level_at(s: Seq<u64>, t: nat) -> int {
    let mean = smoothed(s, RSI_COM as nat, t) as int;
    quotient_towards_zero(200_000 * (s[t as int] * SUBUNITS - mean), 3 * mean)
}

/// The index of strength without the noise floor: `100 * up / (up + down)`
/// in millionths of a point.
pub open spec fn plain_strength(up: nat, down: nat) -> int {
    (RSI_MAX * up) / ((up + down) as int)
}

/// The plain index of strength at sample `t >= 1` of `s`.
pub open spec fn plain_strength_at(s: Seq<u64>, t: nat) -> int {
    plain_strength(
        smoothed(gains(s), RSI_COM as nat, (t - 1) as nat),
        smoothed(losses(s), RSI_COM as nat, (t - 1) as nat),
    )
}

/// Whether `s` has moved at all up to sample `t >= 1`, as far as the
/// smoothing can tell.
pub open spec fn has_moved(s: Seq<u64>, t: nat) -> bool {
    smoothed(gains(s), RSI_COM as nat, (t - 1) as nat) + smoothed(
        losses(s),
        RSI_COM as nat,
        (t - 1) as nat,
    ) > 0
}

/// The sample that a reading `previous` samples before the latest refers to,
/// where the two series are taken as far as both reach.
pub open spec fn reading_sample(first: Seq<u64>, second: Seq<u64>, previous: nat) -> int {
    (if first.len() <= second.len() { first.len() } else { second.len() }) - 1 - previous
}

/// Whether the market can be read at sample `t`: the indicators are warmed
/// up, the average of the first asset is not zero there nor one sample
/// before, and both assets have moved.
pub open spec fn readable(first: Seq<u64>, second: Seq<u64>, t: int) -> bool {
    &&& t >= RSI_MIN_PERIODS
    &&& t < first.len()
    &&& t < second.len()
    &&& smoothed(first, RSI_COM as nat, t as nat) > 0
    &&& smoothed(first, RSI_COM as nat, (t - 1) as nat) > 0
    &&& has_moved(first, t as nat)
    &&& has_moved(second, t as nat)
}

/// The reading of the market at sample `t`.
pub open spec fn reading_at(first: Seq<u64>, second: Seq<u64>, t: nat) -> MarketReading {
    MarketReading {
        level: level_at(first, t) as i128,
        delta: (level_at(first, t) - level_at(first, (t - 1) as nat)) as i128,
        strength: ((2 * plain_strength_at(first, t) + plain_strength_at(second, t)) / 3) as i64,
    }
}

/// The level for a price and its smoothing state.
fn level_of(price: u64, mean: u128) -> (level: i128)
    requires
        0 < mean <= u64::MAX * SUBUNITS,
    ensures
        level == quotient_towards_zero(200_000 * (price * SUBUNITS - mean), 3 * mean),
        -0x1_0000_0000_0000_0000_0000_0000_0000 < level < 0x1_0000_0000_0000_0000_0000_0000_0000,
{
    let scaled: u128 = price as u128 * (SUBUNITS as u128);
    let den: u128 = 3 * mean;
    if scaled >= mean {
        let num: u128 = 200_000 * (scaled - mean);
        let q: u128 = num / den;
        assert(q <= num) by (nonlinear_arith)
            requires
                q == num / den,
                den >= 1,
                num >= 0,
        ;
        q as i128
    } else {
        let num: u128 = 200_000 * (mean - scaled);
        let q: u128 = num / den;
        assert(q <= num) by (nonlinear_arith)
            requires
                q == num / den,
                den >= 1,
                num >= 0,
        ;
        -(q as i128)
    }
}

/// The plain index of strength for two smoothing states.
fn plain_strength_of(up: u128, down: u128) -> (v: i64)
    requires
        up <= u64::MAX * SUBUNITS,
        down <= u64::MAX * SUBUNITS,
        up + down > 0,
    ensures
        v == plain_strength(up as nat, down as nat),
        0 <= v <= RSI_MAX,
{
    let total: u128 = up + down;
    assert((100_000_000 * up) / (total as int) <= 100_000_000) by (nonlinear_arith)
        requires
            0 <= up <= total,
            total > 0,
    ;
    ((100_000_000u128 * up) / total) as i64
}

/// The smoothing states of the gains and of the losses of `series`.
fn strength_states(series: &[u64]) -> (out: (Vec<u128>, Vec<u128>))
    ensures
        out.0@.len() == gains(series@).len(),
        out.1@.len() == losses(series@).len(),
        forall|k: int|
            0 <= k < out.0@.len() ==> out.0@[k] == smoothed(gains(series@), RSI_COM as nat, k as nat)
                && out.0@[k] <= u64::MAX * SUBUNITS,
        forall|k: int|
            0 <= k < out.1@.len() ==> out.1@[k] == smoothed(
                losses(series@),
                RSI_COM as nat,
                k as nat,
            ) && out.1@[k] <= u64::MAX * SUBUNITS,
{
    let (up, down) = moves(series);
    let ups: Vec<u128> = ewm_states(up.as_slice(), RSI_COM);
    let downs: Vec<u128> = ewm_states(down.as_slice(), RSI_COM);
    proof {
        assert forall|k: int| 0 <= k < ups@.len() implies ups@[k] <= u64::MAX * SUBUNITS by {
            lemma_smoothed_within(up@, RSI_COM as nat, k as nat, 0, u64::MAX as nat);
        }
        assert forall|k: int| 0 <= k < downs@.len() implies downs@[k] <= u64::MAX * SUBUNITS by {
            lemma_smoothed_within(down@, RSI_COM as nat, k as nat, 0, u64::MAX as nat);
        }
    }
    (ups, downs)
}

/// The reading of the market `previous` samples before the latest, from the
/// prices of its two leading assets, oldest first.
///
/// There is none where the market cannot be read at that sample.
pub fn btc_eth_indicator(first: &[u64], second: &[u64], previous: u8) -> (r: Result<
    MarketReading,
    UPBitError,
>)
    ensures
        match r {
            Ok(reading) => {
                let t = reading_sample(first@, second@, previous as nat);
                readable(first@, second@, t) && reading == reading_at(first@, second@, t as nat)
            },
            Err(e) => {
                &&& !readable(first@, second@, reading_sample(first@, second@, previous as nat))
                &&& e matches UPBitError::OtherError(text) && text@
                    == "the market cannot be read yet"@
            },
        },
{
    let n: usize = if first.len() <= second.len() { first.len() } else { second.len() };
    if n < 1 + previous as usize || n - 1 - (previous as usize) < RSI_MIN_PERIODS {
        return Err(UPBitError::OtherError(String::from_str("the market cannot be read yet")));
    }
    let t: usize = n - 1 - previous as usize;
    let means: Vec<u128> = ewm_states(first, RSI_COM);
    let (first_up, first_down) = strength_states(first);
    let (second_up, second_down) = strength_states(second);
    proof {
        lemma_smoothed_within(first@, RSI_COM as nat, t as nat, 0, u64::MAX as nat);
        lemma_smoothed_within(first@, RSI_COM as nat, (t - 1) as nat, 0, u64::MAX as nat);
    }
    if means[t] == 0 || means[t - 1] == 0 || (first_up[t - 1] == 0 && first_down[t - 1] == 0) || (
    second_up[t - 1] == 0 && second_down[t - 1] == 0) {
        return Err(UPBitError::OtherError(String::from_str("the market cannot be read yet")));
    }
    let level: i128 = level_of(first[t], means[t]);
    let before: i128 = level_of(first[t - 1], means[t - 1]);
    let a: i64 = plain_strength_of(first_up[t - 1], first_down[t - 1]);
    let b: i64 = plain_strength_of(second_up[t - 1], second_down[t - 1]);
    Ok(MarketReading { level, delta: level - before, strength: (2 * a + b) / 3 })
}

} // verus!

//! Divergence between a price series and its relative strength index, and
//! the breaking of a peak of the index.

use vstd::prelude::*;
use crate::ewm::{lemma_smoothed_within, smoothed};
use crate::rsi::{gains, losses, rsi_at, rsi_entry, rsi_series, RSI_MAX};

verus! {

/// Which extrema of the index a divergence is looked for at.
#[derive(Clone, Copy, Debug, PartialEq, Eq, Structural)]
pub enum RsiDivergenceCheckMode {
    /// Local maxima above the bound: the market is overbought.
    Peak,
    /// Local minima below the bound: the market is oversold.
    Minpoint,
}

/// Smoothing constant of the index that the detectors on a bare price series use.
pub const RSI_COM: u16 = 13;

/// Warm-up window of the index that the detectors on a bare price series use.
pub const RSI_MIN_PERIODS: usize = 14;

/// Whether position `i` of `rsi` is a strict local extremum beyond `bound`:
/// both neighbours have a value, and the value at `i` is above both and above
/// the bound (`Peak`), or below both and below the bound (`Minpoint`).
pub open spec fn is_extremum(
    mode: RsiDivergenceCheckMode,
    rsi: Seq<Option<i64>>,
    bound: i64,
    i: int,
) -> bool {
    &&& 0 < i < rsi.len() - 1
    &&& rsi[i - 1] is Some
    &&& rsi[i] is Some
    &&& rsi[i + 1] is Some
    &&& match mode {
        RsiDivergenceCheckMode::Peak => {
            &&& rsi[i - 1]->0 < rsi[i]->0
            &&& rsi[i + 1]->0 < rsi[i]->0
            &&& rsi[i]->0 > bound
        },
        RsiDivergenceCheckMode::Minpoint => {
            &&& rsi[i - 1]->0 > rsi[i]->0
            &&& rsi[i + 1]->0 > rsi[i]->0
            &&& rsi[i]->0 < bound
        },
    }
}

/// Whether position `i` is an extremum among the last `lookback` samples.
pub open spec fn qualifies(
    mode: RsiDivergenceCheckMode,
    rsi: Seq<Option<i64>>,
    bound: i64,
    lookback: nat,
    i: int,
) -> bool {
    is_extremum(mode, rsi, bound, i) && i + lookback >= rsi.len()
}

/// The largest position below `end` that is an extremum, or -1 if there is none.
pub open spec fn latest_extremum(
    mode: RsiDivergenceCheckMode,
    rsi: Seq<Option<i64>>,
    bound: i64,
    end: int,
) -> int
    decreases end,
{
    if end <= 0 {
        -1
    } else if is_extremum(mode, rsi, bound, end - 1) {
        end - 1
    } else {
        latest_extremum(mode, rsi, bound, end - 1)
    }
}

/// Whether index and price moved in opposite directions from the extremum at
/// `left` to the one at `right`: at peaks the index did not rise and the price
/// did not fall, at minima the index did not fall and the price did not rise.
pub open spec fn moved_apart(
    mode: RsiDivergenceCheckMode,
    left_rsi: i64,
    right_rsi: i64,
    left_price: u64,
    right_price: u64,
) -> bool {
    match mode {
        RsiDivergenceCheckMode::Peak => left_rsi >= right_rsi && left_price <= right_price,
        RsiDivergenceCheckMode::Minpoint => left_rsi <= right_rsi && left_price >= right_price,
    }
}

/// Whether the prices before position `left` confirm a reversal.
///
/// The trend of those prices is the mean of their first differences, which has
/// the sign of `prices[left - 1] - prices[0]`.  A divergence at peaks is
/// confirmed by a negative trend, one at minima by a positive trend.  Fewer
/// than two earlier prices have no trend.
pub open spec fn trend_confirms(mode: RsiDivergenceCheckMode, prices: Seq<u64>, left: int) -> bool {
    &&& 2 <= left <= prices.len()
    &&& match mode {
        RsiDivergenceCheckMode::Peak => prices[left - 1] < prices[0],
        RsiDivergenceCheckMode::Minpoint => prices[left - 1] > prices[0],
    }
}

/// Whether `prices` and `rsi` show a divergence.
///
/// `right` and `left` are the two latest extrema of the index.  Both must lie
/// among the last `lookback` samples, index and price must have moved apart
/// between them, and the trend before `left` must confirm the reversal.
pub open spec fn divergence_spec(
    prices: Seq<u64>,
    rsi: Seq<Option<i64>>,
    mode: RsiDivergenceCheckMode,
    bound: i64,
    lookback: nat,
) -> bool {
    let right = latest_extremum(mode, rsi, bound, rsi.len() as int);
    let left = latest_extremum(mode, rsi, bound, right);
    &&& prices.len() == rsi.len()
    &&& left >= 0
    &&& left + lookback >= rsi.len()
    &&& moved_apart(mode, rsi[left]->0, rsi[right]->0, prices[left], prices[right])
    &&& trend_confirms(mode, prices, left)
}

/// The index of a price series with the detectors' smoothing constant and
/// warm-up window.
pub open spec fn rsi_of(prices: Seq<u64>) -> Seq<Option<i64>> {
    Seq::new(
        prices.len(),
        |t: int| rsi_entry(prices, RSI_COM as nat, RSI_MIN_PERIODS as nat, t as nat),
    )
}

/// The latest extremum below `end`, where there is one, is an extremum below
/// `end` with no extremum between it and `end`.
pub proof fn lemma_latest_extremum(
    mode: RsiDivergenceCheckMode,
    rsi: Seq<Option<i64>>,
    bound: i64,
    end: int,
)
    ensures
        -1 <= latest_extremum(mode, rsi, bound, end),
        latest_extremum(mode, rsi, bound, end) >= 0 ==> {
            &&& latest_extremum(mode, rsi, bound, end) < end
            &&& is_extremum(mode, rsi, bound, latest_extremum(mode, rsi, bound, end))
        },
        forall|j: int|
            latest_extremum(mode, rsi, bound, end) < j < end ==> !is_extremum(mode, rsi, bound, j),
    decreases end,
{
    if end > 0 && !is_extremum(mode, rsi, bound, end - 1) {
        lemma_latest_extremum(mode, rsi, bound, end - 1);
    }
}

/// With fewer than two extrema among the last `lookback` samples there is no
/// divergence.
pub proof fn lemma_divergence_needs_two_extrema(
    prices: Seq<u64>,
    rsi: Seq<Option<i64>>,
    mode: RsiDivergenceCheckMode,
    bound: i64,
    lookback: nat,
)
    requires
        forall|i: int, j: int|
            qualifies(mode, rsi, bound, lookback, i) && qualifies(mode, rsi, bound, lookback, j)
                ==> i == j,
    ensures
        !divergence_spec(prices, rsi, mode, bound, lookback),
{
    let right = latest_extremum(mode, rsi, bound, rsi.len() as int);
    let left = latest_extremum(mode, rsi, bound, right);
    lemma_latest_extremum(mode, rsi, bound, rsi.len() as int);
    lemma_latest_extremum(mode, rsi, bound, right);
    if left >= 0 && left + lookback >= rsi.len() {
        assert(qualifies(mode, rsi, bound, lookback, left));
        assert(qualifies(mode, rsi, bound, lookback, right));
    }
}

/// Whether every sample of `s` is larger than the one before.
pub open spec fn strictly_rising(s: Seq<u64>) -> bool {
    forall|i: int, j: int| 0 <= i < j < s.len() ==> s[i] < s[j]
}

/// In a series that only rises the index stands at 100 points wherever it
/// is defined.
pub proof fn lemma_rsi_of_rising_series(s: Seq<u64>, com: nat, t: nat)
    requires
        strictly_rising(s),
        1 <= t < s.len(),
    ensures
        rsi_at(s, com, t) == RSI_MAX,
{
    let up = gains(s);
    let down = losses(s);
    assert forall|i: int| 0 <= i <= t - 1 implies 1 <= #[trigger] up[i] <= u64::MAX by {
        assert(s[i] < s[i + 1]);
    }
    assert forall|i: int| 0 <= i <= t - 1 implies 0 <= #[trigger] down[i] <= 0 by {
        assert(s[i] < s[i + 1]);
    }
    lemma_smoothed_within(up, com, (t - 1) as nat, 1, u64::MAX as nat);
    lemma_smoothed_within(down, com, (t - 1) as nat, 0, 0);
    let u = smoothed(up, com, (t - 1) as nat) as int;
    let m = RSI_MAX as int;
    assert((m * u) / u == m) by (nonlinear_arith)
        requires
            u > 0,
    ;
}

/// A series that only rises shows no divergence, at peaks or at minima, for
/// any bound and any lookback.
pub proof fn lemma_no_divergence_in_rising_series(
    s: Seq<u64>,
    mode: RsiDivergenceCheckMode,
    bound: i64,
    lookback: nat,
)
    requires
        strictly_rising(s),
    ensures
        !divergence_spec(s, rsi_of(s), mode, bound, lookback),
{
    let index = rsi_of(s);
    let right = latest_extremum(mode, index, bound, index.len() as int);
    lemma_latest_extremum(mode, index, bound, index.len() as int);
    if right >= 0 {
        assert(is_extremum(mode, index, bound, right));
        lemma_rsi_of_rising_series(s, RSI_COM as nat, (right - 1) as nat);
        lemma_rsi_of_rising_series(s, RSI_COM as nat, right as nat);
        lemma_rsi_of_rising_series(s, RSI_COM as nat, (right + 1) as nat);
    } else {
        lemma_latest_extremum(mode, index, bound, right);
    }
}

/// Whether position `i` of `rsi` is an extremum.
pub fn extremum_at(mode: RsiDivergenceCheckMode, rsi: &[Option<i64>], bound: i64, i: usize) -> (r:
    bool)
    ensures
        r == is_extremum(mode, rsi@, bound, i as int),
{
    let n: usize = rsi.len();
    if i == 0 || n < 2 || i >= n - 1 {
        return false;
    }
    match (rsi[i - 1], rsi[i], rsi[i + 1]) {
        (Some(before), Some(here), Some(after)) => match mode {
            RsiDivergenceCheckMode::Peak => before < here && after < here && here > bound,
            RsiDivergenceCheckMode::Minpoint => before > here && after > here && here < bound,
        },
        _ => false,
    }
}

/// The largest position below `end` that is an extremum.
pub fn find_latest_extremum(
    mode: RsiDivergenceCheckMode,
    rsi: &[Option<i64>],
    bound: i64,
    end: usize,
) -> (r: Option<usize>)
    ensures
        match r {
            Some(i) => i == latest_extremum(mode, rsi@, bound, end as int),
            None => latest_extremum(mode, rsi@, bound, end as int) == -1,
        },
{
    let mut k: usize = end;
    while k > 0
        invariant
            k <= end,
            latest_extremum(mode, rsi@, bound, end as int) == latest_extremum(
                mode,
                rsi@,
                bound,
                k as int,
            ),
        decreases k,
    {
        if extremum_at(mode, rsi, bound, k - 1) {
            return Some(k - 1);
        }
        k = k - 1;
    }
    None
}

/// Whether `prices` and the index `rsi` of the same samples show a divergence.
pub fn divergence_of(
    prices: &[u64],
    rsi: &[Option<i64>],
    mode: RsiDivergenceCheckMode,
    rsi_bound: i64,
    lookback: usize,
) -> (r: bool)
    ensures
        r == divergence_spec(prices@, rsi@, mode, rsi_bound, lookback as nat),
{
    let n: usize = rsi.len();
    if prices.len() != n {
        return false;
    }
    let right: usize = match find_latest_extremum(mode, rsi, rsi_bound, n) {
        Some(i) => i,
        None => {
            return false;
        },
    };
    let left: usize = match find_latest_extremum(mode, rsi, rsi_bound, right) {
        Some(i) => i,
        None => {
            return false;
        },
    };
    proof {
        lemma_latest_extremum(mode, rsi@, rsi_bound, n as int);
        lemma_latest_extremum(mode, rsi@, rsi_bound, right as int);
    }
    if lookback < n && left < n - lookback {
        return false;
    }
    let (left_rsi, right_rsi) = match (rsi[left], rsi[right]) {
        (Some(a), Some(b)) => (a, b),
        _ => {
            return false;
        },
    };
    let apart: bool = match mode {
        RsiDivergenceCheckMode::Peak => left_rsi >= right_rsi && prices[left] <= prices[right],
        RsiDivergenceCheckMode::Minpoint => left_rsi <= right_rsi && prices[left] >= prices[right],
    };
    if !apart || left < 2 {
        return false;
    }
    match mode {
        RsiDivergenceCheckMode::Peak => prices[left - 1] < prices[0],
        RsiDivergenceCheckMode::Minpoint => prices[left - 1] > prices[0],
    }
}

/// Whether a price series and its own index show a divergence.
pub fn divergence(
    series: &[u64],
    mode: RsiDivergenceCheckMode,
    rsi_bound: i64,
    lookback: usize,
) -> (r: bool)
    ensures
        r == divergence_spec(series@, rsi_of(series@), mode, rsi_bound, lookback as nat),
{
    let rsi: Vec<Option<i64>> = rsi_series(series, RSI_COM, RSI_MIN_PERIODS);
    assert(rsi@ =~= rsi_of(series@));
    divergence_of(series, rsi.as_slice(), mode, rsi_bound, lookback)
}

/// Whether the index stands above `bound` at position `i` and is strictly
/// lower at the next position.
pub open spec fn breaks_at(rsi: Seq<Option<i64>>, bound: i64, i: int) -> bool {
    &&& 0 <= i < rsi.len() - 1
    &&& rsi[i] is Some
    &&& rsi[i + 1] is Some
    &&& rsi[i]->0 > bound
    &&& rsi[i + 1]->0 < rsi[i]->0
}

/// Whether the index breaks a peak at one of the last `count` positions, the
/// very last left out.
pub open spec fn breaking_peak_spec(rsi: Seq<Option<i64>>, count: nat, bound: i64) -> bool {
    exists|i: int| i + count >= rsi.len() && #[trigger] breaks_at(rsi, bound, i)
}

/// Whether the index `rsi` breaks a peak above `rsi_bound` within its last
/// `count` samples.  The count is at least 3 and at most the number of
/// samples.
pub fn breaking_peak_of(rsi: &[Option<i64>], count: usize, rsi_bound: i64) -> (r: bool)
    requires
        3 <= count <= rsi@.len(),
    ensures
        r == breaking_peak_spec(rsi@, count as nat, rsi_bound),
{
    let n: usize = rsi.len();
    let start: usize = n - count;
    let mut i: usize = start;
    while i < n - 1
        invariant
            n == rsi@.len(),
            n >= 2,
            start <= i,
            start + count == n,
            forall|k: int| start <= k < i ==> !breaks_at(rsi@, rsi_bound, k),
        decreases n - i,
    {
        let found: bool = match (rsi[i], rsi[i + 1]) {
            (Some(here), Some(next)) => here > rsi_bound && next < here,
            _ => false,
        };
        if found {
            assert(breaks_at(rsi@, rsi_bound, i as int));
            return true;
        }
        i = i + 1;
    }
    false
}

/// Whether the index of a price series breaks a peak above `rsi_bound` within
/// the last `count` samples.  The count is at least 3 and at most the number
/// of samples.
pub fn breaking_peak(series: &[u64], count: usize, rsi_bound: i64) -> (r: bool)
    requires
        3 <= count <= series@.len(),
    ensures
        r == breaking_peak_spec(rsi_of(series@), count as nat, rsi_bound),
{
    let rsi: Vec<Option<i64>> = rsi_series(series, RSI_COM, RSI_MIN_PERIODS);
    assert(rsi@ =~= rsi_of(series@));
    breaking_peak_of(rsi.as_slice(), count, rsi_bound)
}

} // verus!

//! The indicators of a run of candles.
//!
//! Each function reads the closing prices in the order of time and applies
//! the indicator with a smoothing constant of 13 and a warm-up of 14.

use vstd::prelude::*;
use crate::deviation::{is_std, standard_deviation, sum_sq_to};
use crate::divergence::{
    breaking_peak_of,
    breaking_peak_spec,
    divergence_of,
    divergence_spec,
    rsi_of,
    RsiDivergenceCheckMode,
    RSI_COM,
    RSI_MIN_PERIODS,
};
use crate::error::IndicatorError;
use crate::ewm::{ewm_mean, ewm_value};
use crate::response::{as_dataframe, closes, CandleData, PriceFrame};
use crate::rsi::{rsi, rsi_at, rsi_series, rsi_value_ok};

verus! {

/// The index at every candle, oldest first.
pub fn get_rsi_series(candle_data: &[CandleData]) -> (out: Vec<Option<i64>>)
    ensures
        out@ == rsi_of(closes(candle_data@)),
        forall|t: int|
            0 <= t < out@.len() ==> (#[trigger] out@[t] matches Some(v) ==> rsi_value_ok(v as int)),
{
    let frame: PriceFrame = as_dataframe(candle_data);
    let out: Vec<Option<i64>> = rsi_series(frame.prices.as_slice(), RSI_COM, RSI_MIN_PERIODS);
    assert(out@ =~= rsi_of(closes(candle_data@)));
    out
}

/// The index as of the newest candle.  It takes 15 candles to be ready.
pub fn get_rsi(candle_data: &[CandleData]) -> (r: Result<i64, IndicatorError>)
    ensures
        match r {
            Ok(v) => candle_data@.len() > RSI_MIN_PERIODS && v == rsi_at(
                closes(candle_data@),
                RSI_COM as nat,
                (candle_data@.len() - 1) as nat,
            ) && rsi_value_ok(v as int),
            Err(e) => e == IndicatorError::NotReady && candle_data@.len() <= RSI_MIN_PERIODS,
        },
{
    let frame: PriceFrame = as_dataframe(candle_data);
    rsi(frame.prices.as_slice(), RSI_COM, RSI_MIN_PERIODS)
}

/// The moving average of the closing prices as of the newest candle.  It
/// takes 14 candles to be ready.
pub fn get_ewm_mean(candle_data: &[CandleData]) -> (r: Result<u64, IndicatorError>)
    ensures
        match r {
            Ok(v) => candle_data@.len() >= RSI_MIN_PERIODS && v == ewm_value(
                closes(candle_data@),
                RSI_COM as nat,
                (candle_data@.len() - 1) as nat,
            ),
            Err(e) => e == IndicatorError::NotReady && candle_data@.len() < RSI_MIN_PERIODS,
        },
{
    let frame: PriceFrame = as_dataframe(candle_data);
    ewm_mean(frame.prices.as_slice(), RSI_COM, RSI_MIN_PERIODS)
}

/// The population standard deviation of all closing prices, rounded down.
pub fn get_std(candle_data: &[CandleData]) -> (r: Result<u64, IndicatorError>)
    ensures
        match r {
            Ok(v) => candle_data@.len() > 0 && is_std(closes(candle_data@), v as nat),
            Err(IndicatorError::NotReady) => candle_data@.len() == 0,
            Err(IndicatorError::OutOfRange) => candle_data@.len() > 0 && candle_data@.len()
                * sum_sq_to(closes(candle_data@), candle_data@.len()) > u128::MAX,
        },
        r is Ok <==> candle_data@.len() > 0 && candle_data@.len() * sum_sq_to(
            closes(candle_data@),
            candle_data@.len(),
        ) <= u128::MAX,
{
    let frame: PriceFrame = as_dataframe(candle_data);
    standard_deviation(frame.prices.as_slice())
}

/// Whether the closing prices and their index show a divergence at the two
/// latest extrema of the index beyond `rsi_bound`, both among the last
/// `recent_data_bound` candles.
pub fn check_rsi_divergence(
    candle_data: &[CandleData],
    divergence_check_mode: &RsiDivergenceCheckMode,
    rsi_bound: i64,
    recent_data_bound: usize,
) -> (r: bool)
    ensures
        r == divergence_spec(
            closes(candle_data@),
            rsi_of(closes(candle_data@)),
            *divergence_check_mode,
            rsi_bound,
            recent_data_bound as nat,
        ),
{
    let frame: PriceFrame = as_dataframe(candle_data);
    let index: Vec<Option<i64>> = rsi_series(frame.prices.as_slice(), RSI_COM, RSI_MIN_PERIODS);
    assert(index@ =~= rsi_of(closes(candle_data@)));
    divergence_of(
        frame.prices.as_slice(),
        index.as_slice(),
        *divergence_check_mode,
        rsi_bound,
        recent_data_bound,
    )
}

/// Whether the index stood above `rsi_bound` and fell on the next candle,
/// somewhere among the last `count` candles, the newest left out.  The count
/// is at least 3 and at most the number of candles.
pub fn check_rsi_breaking_peak(candle_data: &[CandleData], count: usize, rsi_bound: i64) -> (r:
    bool)
    requires
        3 <= count <= candle_data@.len(),
    ensures
        r == breaking_peak_spec(rsi_of(closes(candle_data@)), count as nat, rsi_bound),
{
    let frame: PriceFrame = as_dataframe(candle_data);
    let index: Vec<Option<i64>> = rsi_series(frame.prices.as_slice(), RSI_COM, RSI_MIN_PERIODS);
    assert(index@ =~= rsi_of(closes(candle_data@)));
    breaking_peak_of(index.as_slice(), count, rsi_bound)
}

/// The indicators of a market as of one candle.
#[derive(Clone, Copy, Debug, PartialEq, Eq, Structural)]
pub struct IndicatorSnapshot {
    /// The relative strength index, in millionths of a point.
    pub rsi: i64,
    /// The moving average of the closing prices.
    pub ewm_mean: u64,
    /// The population standard deviation of the closing prices.
    pub std: u64,
}

/// Whether `snapshot` holds the indicators of `prices` as of their last entry.
pub open spec fn is_snapshot(prices: Seq<u64>, snapshot: IndicatorSnapshot) -> bool {
    &&& snapshot.rsi == rsi_at(prices, RSI_COM as nat, (prices.len() - 1) as nat)
    &&& snapshot.ewm_mean == ewm_value(prices, RSI_COM as nat, (prices.len() - 1) as nat)
    &&& is_std(prices, snapshot.std as nat)
}

/// Whether the index went from under `bound` to over it between two
/// snapshots.  An unreliable value on either side is no crossing.
pub open spec fn rose_through(previous: i64, current: i64, bound: i64) -> bool {
    0 <= previous < bound && current > bound
}

/// Whether the index went from over `bound` to under it between two
/// snapshots.  An unreliable value on either side is no crossing.
pub open spec fn fell_through(previous: i64, current: i64, bound: i64) -> bool {
    previous > bound && 0 <= current < bound
}

impl IndicatorSnapshot {
    /// Whether the index has risen through `bound` since `previous`.
    pub fn rsi_rose_through(&self, previous: &IndicatorSnapshot, bound: i64) -> (r: bool)
        ensures
            r == rose_through(previous.rsi, self.rsi, bound),
    {
        0 <= previous.rsi && previous.rsi < bound && self.rsi > bound
    }

    /// Whether the index has fallen through `bound` since `previous`.
    pub fn rsi_fell_through(&self, previous: &IndicatorSnapshot, bound: i64) -> (r: bool)
        ensures
            r == fell_through(previous.rsi, self.rsi, bound),
    {
        previous.rsi > bound && 0 <= self.rsi && self.rsi < bound
    }
}

/// The indicators as of the newest candle.
///
/// They are not ready before there are 15 candles, and out of range where
/// the standard deviation is.
pub fn snapshot(candle_data: &[CandleData]) -> (r: Result<IndicatorSnapshot, IndicatorError>)
    ensures
        match r {
            Ok(s) => candle_data@.len() > RSI_MIN_PERIODS && is_snapshot(closes(candle_data@), s),
            Err(IndicatorError::NotReady) => candle_data@.len() <= RSI_MIN_PERIODS,
            Err(IndicatorError::OutOfRange) => candle_data@.len() > RSI_MIN_PERIODS
                && candle_data@.len() * sum_sq_to(closes(candle_data@), candle_data@.len())
                > u128::MAX,
        },
{
    let rsi: i64 = match get_rsi(candle_data) {
        Ok(v) => v,
        Err(_) => {
            return Err(IndicatorError::NotReady);
        },
    };
    let ewm_mean: u64 = match get_ewm_mean(candle_data) {
        Ok(v) => v,
        Err(_) => {
            return Err(IndicatorError::NotReady);
        },
    };
    match get_std(candle_data) {
        Ok(std) => Ok(IndicatorSnapshot { rsi, ewm_mean, std }),
        Err(e) => Err(e),
    }
}

/// The indicators as of the candle before the newest: the snapshot that is
/// kept to tell what has changed with the newest candle.
pub fn previous_snapshot(candle_data: &[CandleData]) -> (r: Result<
    IndicatorSnapshot,
    IndicatorError,
>)
    ensures
        match r {
            Ok(s) => candle_data@.len() > RSI_MIN_PERIODS + 1 && is_snapshot(
                closes(candle_data@).drop_last(),
                s,
            ),
            Err(IndicatorError::NotReady) => candle_data@.len() <= RSI_MIN_PERIODS + 1,
            Err(IndicatorError::OutOfRange) => candle_data@.len() > RSI_MIN_PERIODS + 1 && (
            candle_data@.len() - 1) * sum_sq_to(
                closes(candle_data@).drop_last(),
                (candle_data@.len() - 1) as nat,
            ) > u128::MAX,
        },
{
    let n: usize = candle_data.len();
    if n == 0 {
        return Err(IndicatorError::NotReady);
    }
    let earlier: &[CandleData] = vstd::slice::slice_subrange(candle_data, 1, n);
    assert(closes(earlier@) =~= closes(candle_data@).drop_last());
    snapshot(earlier)
}

/// The indicators as methods of a run of candles, newest first.
pub trait CandleDataOperation {
    /// The candles of the run.
    spec fn candles(&self) -> Seq<CandleData>;

    /// The time stamps, closing prices and volumes, oldest first.
    fn as_dataframe(&self) -> (frame: PriceFrame)
        ensures
            frame.timestamps@ == crate::response::stamps(self.candles()),
            frame.prices@ == closes(self.candles()),
            frame.volumes@ == crate::response::traded(self.candles()),
    ;

    /// The index as of the newest candle.
    fn get_rsi(&self) -> (r: Result<i64, IndicatorError>)
        ensures
            match r {
                Ok(v) => self.candles().len() > RSI_MIN_PERIODS && v == rsi_at(
                    closes(self.candles()),
                    RSI_COM as nat,
                    (self.candles().len() - 1) as nat,
                ) && rsi_value_ok(v as int),
                Err(e) => e == IndicatorError::NotReady && self.candles().len()
                    <= RSI_MIN_PERIODS,
            },
    ;

    /// The moving average of the closing prices as of the newest candle.
    fn get_ewm_mean(&self) -> (r: Result<u64, IndicatorError>)
        ensures
            match r {
                Ok(v) => self.candles().len() >= RSI_MIN_PERIODS && v == ewm_value(
                    closes(self.candles()),
                    RSI_COM as nat,
                    (self.candles().len() - 1) as nat,
                ),
                Err(e) => e == IndicatorError::NotReady && self.candles().len() < RSI_MIN_PERIODS,
            },
    ;

    /// The population standard deviation of all closing prices, rounded down.
    fn get_std(&self) -> (r: Result<u64, IndicatorError>)
        ensures
            match r {
                Ok(v) => self.candles().len() > 0 && is_std(closes(self.candles()), v as nat),
                Err(IndicatorError::NotReady) => self.candles().len() == 0,
                Err(IndicatorError::OutOfRange) => self.candles().len() > 0
                    && self.candles().len() * sum_sq_to(
                    closes(self.candles()),
                    self.candles().len(),
                ) > u128::MAX,
            },
    ;

    /// The current price: the closing price of the newest candle.
    fn get_last_price(&self) -> (r: Result<u64, IndicatorError>)
        ensures
            match r {
                Ok(p) => self.candles().len() > 0 && p == self.candles()[0].trade_price && p
                    == closes(self.candles()).last(),
                Err(e) => e == IndicatorError::NotReady && self.candles().len() == 0,
            },
    ;

    /// Whether the closing prices and their index show a divergence.
    fn check_rsi_divergence(
        &self,
        divergence_check_mode: &RsiDivergenceCheckMode,
        rsi_bound: i64,
        recent_data_bound: usize,
    ) -> (r: bool)
        ensures
            r == divergence_spec(
                closes(self.candles()),
                rsi_of(closes(self.candles())),
                *divergence_check_mode,
                rsi_bound,
                recent_data_bound as nat,
            ),
    ;
}

impl CandleDataOperation for Vec<CandleData> {
    open spec fn candles(&self) -> Seq<CandleData> {
        self@
    }

    fn as_dataframe(&self) -> (frame: PriceFrame) {
        as_dataframe(self.as_slice())
    }

    fn get_rsi(&self) -> (r: Result<i64, IndicatorError>) {
        get_rsi(self.as_slice())
    }

    fn get_ewm_mean(&self) -> (r: Result<u64, IndicatorError>) {
        get_ewm_mean(self.as_slice())
    }

    fn get_std(&self) -> (r: Result<u64, IndicatorError>) {
        get_std(self.as_slice())
    }

    fn get_last_price(&self) -> (r: Result<u64, IndicatorError>) {
        crate::response::get_last_price(self.as_slice())
    }

    fn check_rsi_divergence(
        &self,
        divergence_check_mode: &RsiDivergenceCheckMode,
        rsi_bound: i64,
        recent_data_bound: usize,
    ) -> (r: bool) {
        check_rsi_divergence(self.as_slice(), divergence_check_mode, rsi_bound, recent_data_bound)
    }
}

impl CandleDataOperation for &[CandleData] {
    open spec fn candles(&self) -> Seq<CandleData> {
        (*self)@
    }

    fn as_dataframe(&self) -> (frame: PriceFrame) {
        as_dataframe(*self)
    }

    fn get_rsi(&self) -> (r: Result<i64, IndicatorError>) {
        get_rsi(*self)
    }

    fn get_ewm_mean(&self) -> (r: Result<u64, IndicatorError>) {
        get_ewm_mean(*self)
    }

    fn get_std(&self) -> (r: Result<u64, IndicatorError>) {
        get_std(*self)
    }

    fn get_last_price(&self) -> (r: Result<u64, IndicatorError>) {
        crate::response::get_last_price(*self)
    }

    fn check_rsi_divergence(
        &self,
        divergence_check_mode: &RsiDivergenceCheckMode,
        rsi_bound: i64,
        recent_data_bound: usize,
    ) -> (r: bool) {
        check_rsi_divergence(*self, divergence_check_mode, rsi_bound, recent_data_bound)
    }
}

} // verus!

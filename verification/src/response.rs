//! Records that the exchange reports, with amounts as fixed-point integers.

use vstd::prelude::*;
use crate::error::IndicatorError;

verus! {

/// One account balance.
#[derive(Clone, Debug)]
pub struct Balance {
    pub currency: String,
    /// The free amount.
    pub balance: u64,
    /// The amount locked in open orders.
    pub locked: u64,
    pub avg_buy_price: u64,
    pub avg_buy_price_modified: bool,
    pub unit_currency: String,
}

/// One candle of a market.
#[derive(Clone, Debug)]
pub struct CandleData {
    pub market: String,
    pub candle_date_time_utc: String,
    pub candle_date_time_kst: String,
    pub opening_price: u64,
    pub high_price: u64,
    pub low_price: u64,
    /// The closing price.
    pub trade_price: u64,
    pub timestamp: i64,
    pub candle_acc_trade_price: u64,
    pub candle_acc_trade_volume: u64,
    pub unit: i32,
}

/// One market of the exchange.
#[derive(Clone, Debug)]
pub struct Ticker {
    pub market: String,
    pub korean_name: String,
    pub english_name: String,
}

/// The columns of a run of candles that the indicators read, oldest first.
#[derive(Clone, Debug)]
pub struct PriceFrame {
    pub timestamps: Vec<i64>,
    pub prices: Vec<u64>,
    pub volumes: Vec<u64>,
}

/// The closing prices of `candles`, which the exchange reports newest first,
/// in the order of time.
pub open spec fn closes(candles: Seq<CandleData>) -> Seq<u64> {
    Seq::new(candles.len(), |i: int| candles[candles.len() - 1 - i].trade_price)
}

/// The time stamps of `candles` in the order of time.
pub open spec fn stamps(candles: Seq<CandleData>) -> Seq<i64> {
    Seq::new(candles.len(), |i: int| candles[candles.len() - 1 - i].timestamp)
}

/// The accumulated volumes of `candles` in the order of time.
pub open spec fn traded(candles: Seq<CandleData>) -> Seq<u64> {
    Seq::new(candles.len(), |i: int| candles[candles.len() - 1 - i].candle_acc_trade_volume)
}

/// The time stamps, closing prices and volumes of `candles`, oldest first.
pub fn as_dataframe(candles: &[CandleData]) -> (frame: PriceFrame)
    ensures
        frame.timestamps@ == stamps(candles@),
        frame.prices@ == closes(candles@),
        frame.volumes@ == traded(candles@),
{
    let n: usize = candles.len();
    let mut timestamps: Vec<i64> = Vec::new();
    let mut prices: Vec<u64> = Vec::new();
    let mut volumes: Vec<u64> = Vec::new();
    let mut i: usize = 0;
    while i < n
        invariant
            n == candles@.len(),
            i <= n,
            timestamps@.len() == i,
            prices@.len() == i,
            volumes@.len() == i,
            forall|k: int| 0 <= k < i ==> timestamps@[k] == candles@[n - 1 - k].timestamp,
            forall|k: int| 0 <= k < i ==> prices@[k] == candles@[n - 1 - k].trade_price,
            forall|k: int|
                0 <= k < i ==> volumes@[k] == candles@[n - 1 - k].candle_acc_trade_volume,
        decreases n - i,
    {
        let candle: &CandleData = &candles[n - 1 - i];
        timestamps.push(candle.timestamp);
        prices.push(candle.trade_price);
        volumes.push(candle.candle_acc_trade_volume);
        i = i + 1;
    }
    assert(timestamps@ =~= stamps(candles@));
    assert(prices@ =~= closes(candles@));
    assert(volumes@ =~= traded(candles@));
    PriceFrame { timestamps, prices, volumes }
}

/// The current price: the closing price of the newest candle, which is the
/// first of the slice and the last of the closing prices in the order of time.
pub fn get_last_price(candles: &[CandleData]) -> (r: Result<u64, IndicatorError>)
    ensures
        match r {
            Ok(p) => candles@.len() > 0 && p == candles@[0].trade_price && p == closes(
                candles@,
            ).last(),
            Err(e) => e == IndicatorError::NotReady && candles@.len() == 0,
        },
{
    if candles.len() == 0 {
        Err(IndicatorError::NotReady)
    } else {
        Ok(candles[0].trade_price)
    }
}

} // verus!

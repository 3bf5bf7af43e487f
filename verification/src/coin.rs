//! One market that the client follows: its window of candles, and the
//! decision to buy.

use vstd::prelude::*;
use vstd::string::StringExecFns;
use crate::divergence::{rsi_of, RSI_COM, RSI_MIN_PERIODS};
use crate::ewm::{ewm_mean, ewm_value};
use crate::ops::rose_through;
use crate::ranking::{is_stable_order, stable_order};
use crate::realtime::PriceBook;
use crate::rsi::rsi_series;

verus! {

/// One candle in the window of a coin.
#[derive(Debug)]
pub struct CandleRow {
    pub timestamp: i64,
    pub candle_date_time_kst: String,
    pub high_price: u64,
    pub low_price: u64,
    pub opening_price: u64,
    pub trade_price: u64,
}

/// A market and its window of candles, oldest first.
#[derive(Debug)]
pub struct Coin {
    pub ticker: String,
    pub dataframe: Vec<CandleRow>,
}

/// Why an operation on a coin failed.
#[derive(Debug)]
pub enum CoinError {
    /// The rows handed in are not of the right shape.
    WrongDataFrameError(String),
    /// The coin has no candles yet.
    DataFrameNotInitializedError,
    /// The window is too short for the index at the candle asked for.
    IndicatorNotReadyError,
}

/// Over this value of the index an asset that is held is sold: 60 points.
pub const SELL_BOUND: i64 = 60_000_000;

/// The index has to cross this value upwards for a buy: 35 points.
pub const REBOUND_BOUND: i64 = 35_000_000;

/// The key by which a time stamp is ordered: the stamp moved into the
/// unsigned numbers.
pub open spec fn stamp_key(timestamp: i64) -> u128 {
    (timestamp + 0x8000_0000_0000_0000) as u128
}

/// The keys of `rows`.
pub open spec fn stamp_keys(rows: Seq<CandleRow>) -> Seq<u128> {
    Seq::new(rows.len(), |i: int| stamp_key(rows[i].timestamp))
}

/// Whether `frame` holds the rows of `rows` by rising time stamp, rows with
/// equal stamps in the order in which they came.
pub open spec fn in_time_order(rows: Seq<CandleRow>, frame: Seq<CandleRow>) -> bool {
    exists|order: Seq<usize>|
        {
            &&& #[trigger] is_stable_order(stamp_keys(rows), rows.len() as int, order)
            &&& frame.len() == rows.len()
            &&& forall|k: int| 0 <= k < frame.len() ==> frame[k] == rows[order[k] as int]
        }
}

/// The closing prices of `rows`.
pub open spec fn trade_prices(rows: Seq<CandleRow>) -> Seq<u64> {
    Seq::new(rows.len(), |i: int| rows[i].trade_price)
}

/// The window after a tick: without its oldest row, and with the new rows at
/// the end.
pub open spec fn slid(window: Seq<CandleRow>, tick: Seq<CandleRow>) -> Seq<CandleRow> {
    if window.len() == 0 {
        tick
    } else {
        window.drop_first() + tick
    }
}

/// The index `previous` candles before the latest, for the closing prices
/// `prices` with the realtime price at their end.  There is none where the
/// index is not ready at that candle or the series does not reach back that
/// far.
pub open spec fn index_before(prices: Seq<u64>, realtime: u64, previous: nat) -> Option<i64> {
    let all = prices.push(realtime);
    let at = all.len() - 1 - previous;
    if at < 0 {
        None
    } else {
        rsi_of(all)[at]
    }
}

/// The rule for buying a coin: the price is more than half a percent under
/// its average, and the index has just risen through the rebound bound.
pub open spec fn rebound_rule(price: u64, mean: u64, previous_rsi: i64, current_rsi: i64) -> bool {
    &&& mean > 0
    &&& 200 * price < 199 * mean
    &&& rose_through(previous_rsi, current_rsi, REBOUND_BOUND)
}

/// A copy of `row`.
pub fn copy_row(row: &CandleRow) -> (out: CandleRow)
    ensures
        out == *row,
{
    CandleRow {
        timestamp: row.timestamp,
        candle_date_time_kst: row.candle_date_time_kst.clone(),
        high_price: row.high_price,
        low_price: row.low_price,
        opening_price: row.opening_price,
        trade_price: row.trade_price,
    }
}

/// The rows of `rows` by rising time stamp.
pub fn sort_by_timestamp(rows: &Vec<CandleRow>) -> (frame: Vec<CandleRow>)
    ensures
        in_time_order(rows@, frame@),
        forall|i: int, j: int|
            0 <= i < j < frame@.len() ==> frame@[i].timestamp <= frame@[j].timestamp,
{
    let n: usize = rows.len();
    let mut keys: Vec<u128> = Vec::new();
    let mut i: usize = 0;
    while i < n
        invariant
            n == rows@.len(),
            i <= n,
            keys@.len() == i,
            forall|k: int| 0 <= k < i ==> keys@[k] == stamp_key(rows@[k].timestamp),
        decreases n - i,
    {
        let shifted: i128 = rows[i].timestamp as i128 + 0x8000_0000_0000_0000i128;
        keys.push(shifted as u128);
        i = i + 1;
    }
    assert(keys@ =~= stamp_keys(rows@));
    let order: Vec<usize> = stable_order(&keys);
    let mut frame: Vec<CandleRow> = Vec::new();
    let mut k: usize = 0;
    while k < n
        invariant
            n == rows@.len(),
            k <= n,
            is_stable_order(stamp_keys(rows@), n as int, order@),
            frame@.len() == k,
            forall|j: int| 0 <= j < k ==> frame@[j] == rows@[order@[j] as int],
        decreases n - k,
    {
        frame.push(copy_row(&rows[order[k]]));
        k = k + 1;
    }
    proof {
        assert forall|a: int, b: int| 0 <= a < b < frame@.len() implies frame@[a].timestamp
            <= frame@[b].timestamp by {
            assert(crate::ranking::comes_before(
                stamp_keys(rows@),
                order@[a] as int,
                order@[b] as int,
            ));
        }
    }
    frame
}

impl CoinError {
    /// The text of the error.
    pub fn message(&self) -> (text: String)
        ensures
            text@ == match *self {
                CoinError::WrongDataFrameError(detail) => "wrong candle rows: "@ + detail@,
                CoinError::DataFrameNotInitializedError => "the coin has no candles yet"@,
                CoinError::IndicatorNotReadyError => "the index is not ready yet"@,
            },
    {
        match self {
            CoinError::WrongDataFrameError(detail) => {
                let mut text: String = String::from_str("wrong candle rows: ");
                text.append(detail.as_str());
                text
            },
            CoinError::DataFrameNotInitializedError => String::from_str(
                "the coin has no candles yet",
            ),
            CoinError::IndicatorNotReadyError => String::from_str("the index is not ready yet"),
        }
    }
}

impl Coin {
    /// A coin without candles.
    pub fn new(ticker: &str) -> (coin: Coin)
        ensures
            coin.ticker@ == ticker@,
            coin.dataframe@.len() == 0,
    {
        Coin { ticker: String::from_str(ticker), dataframe: Vec::new() }
    }

    /// Makes `rows`, put in the order of time, the window of the coin.
    pub fn init_data(&mut self, rows: &Vec<CandleRow>)
        ensures
            final(self).ticker == old(self).ticker,
            in_time_order(rows@, final(self).dataframe@),
    {
        self.dataframe = sort_by_timestamp(rows);
    }

    /// Slides the window by one tick: the oldest candle leaves, and the row
    /// of `one_row`, if it holds one, joins at the end.
    ///
    /// More than one row is refused, and the window stays as it is.
    pub fn update_data(&mut self, one_row: &Vec<CandleRow>) -> (r: Result<(), CoinError>)
        ensures
            final(self).ticker == old(self).ticker,
            match r {
                Ok(_) => one_row@.len() <= 1 && final(self).dataframe@ == slid(
                    old(self).dataframe@,
                    one_row@,
                ),
                Err(e) => {
                    &&& one_row@.len() > 1
                    &&& final(self).dataframe@ == old(self).dataframe@
                    &&& e matches CoinError::WrongDataFrameError(detail) && detail@
                        == "more than one row in a tick"@
                },
            },
    {
        if one_row.len() > 1 {
            return Err(
                CoinError::WrongDataFrameError(String::from_str("more than one row in a tick")),
            );
        }
        if self.dataframe.len() > 0 {
            let _ = self.dataframe.remove(0);
        }
        if one_row.len() == 1 {
            self.dataframe.push(copy_row(&one_row[0]));
        }
        assert(self.dataframe@ =~= slid(old(self).dataframe@, one_row@));
        Ok(())
    }

    /// The window of the coin.
    pub fn get_dataframe(&self) -> (frame: &Vec<CandleRow>)
        ensures
            frame == self.dataframe,
    {
        &self.dataframe
    }

    /// The closing prices of the window.
    pub fn prices(&self) -> (out: Vec<u64>)
        ensures
            out@ == trade_prices(self.dataframe@),
    {
        let n: usize = self.dataframe.len();
        let mut out: Vec<u64> = Vec::new();
        let mut i: usize = 0;
        while i < n
            invariant
                n == self.dataframe@.len(),
                i <= n,
                out@.len() == i,
                forall|k: int| 0 <= k < i ==> out@[k] == self.dataframe@[k].trade_price,
            decreases n - i,
        {
            out.push(self.dataframe[i].trade_price);
            i = i + 1;
        }
        assert(out@ =~= trade_prices(self.dataframe@));
        out
    }

    /// The realtime price of the coin in `book`, or zero where the feed has
    /// reported none.
    pub open spec fn realtime(&self, book: &PriceBook) -> u64 {
        match book.price(self.ticker@) {
            Some(p) => p,
            None => 0,
        }
    }

    /// The index `previous` candles before the latest, with the realtime
    /// price as the latest candle.
    ///
    /// A coin without candles has no index.  A window that is too short for
    /// the index at that candle is not ready.
    pub fn get_rsi(&self, book: &PriceBook, previous: u8) -> (r: Result<i64, CoinError>)
        ensures
            match r {
                Ok(v) => self.dataframe@.len() > 0 && index_before(
                    trade_prices(self.dataframe@),
                    self.realtime(book),
                    previous as nat,
                ) == Some(v),
                Err(CoinError::DataFrameNotInitializedError) => self.dataframe@.len() == 0,
                Err(CoinError::IndicatorNotReadyError) => self.dataframe@.len() > 0
                    && index_before(
                    trade_prices(self.dataframe@),
                    self.realtime(book),
                    previous as nat,
                ) is None,
                Err(CoinError::WrongDataFrameError(_)) => false,
            },
    {
        if self.dataframe.len() == 0 {
            return Err(CoinError::DataFrameNotInitializedError);
        }
        let realtime: u64 = match book.get(self.ticker.as_str()) {
            Some(p) => p,
            None => 0,
        };
        let mut prices: Vec<u64> = self.prices();
        prices.push(realtime);
        let index: Vec<Option<i64>> = rsi_series(prices.as_slice(), RSI_COM, RSI_MIN_PERIODS);
        assert(index@ =~= rsi_of(prices@));
        let n: usize = index.len();
        if previous as usize > n - 1 {
            return Err(CoinError::IndicatorNotReadyError);
        }
        match index[n - 1 - previous as usize] {
            Some(v) => Ok(v),
            None => Err(CoinError::IndicatorNotReadyError),
        }
    }

    /// Whether to buy the coin: its price is more than half a percent under
    /// the moving average of its window, and the index, taken with the
    /// realtime price, has just risen through the rebound bound.
    ///
    /// A coin whose index or average is not ready is not bought.
    pub fn buy_decision(&self, book: &PriceBook) -> (r: bool)
        ensures
            r == {
                let prices = trade_prices(self.dataframe@);
                let before = index_before(prices, self.realtime(book), 1);
                let now = index_before(prices, self.realtime(book), 0);
                &&& prices.len() >= RSI_MIN_PERIODS
                &&& before is Some
                &&& now is Some
                &&& rebound_rule(
                    prices.last(),
                    ewm_value(prices, RSI_COM as nat, (prices.len() - 1) as nat) as u64,
                    before->0,
                    now->0,
                )
            },
    {
        let previous_rsi: i64 = match self.get_rsi(book, 1) {
            Ok(v) => v,
            Err(_) => {
                return false;
            },
        };
        let current_rsi: i64 = match self.get_rsi(book, 0) {
            Ok(v) => v,
            Err(_) => {
                return false;
            },
        };
        if previous_rsi < 0 || current_rsi < 0 {
            return false;
        }
        let prices: Vec<u64> = self.prices();
        let mean: u64 = match ewm_mean(prices.as_slice(), RSI_COM, RSI_MIN_PERIODS) {
            Ok(v) => v,
            Err(_) => {
                return false;
            },
        };
        let price: u64 = prices[prices.len() - 1];
        mean > 0 && 200 * (price as u128) < 199 * (mean as u128) && current_rsi > REBOUND_BOUND
            && previous_rsi < REBOUND_BOUND
    }

    /// Whether to sell the coin: its index, taken with the realtime price,
    /// is ready and stands over the sell bound.
    pub fn sell_decision(&self, book: &PriceBook) -> (r: bool)
        ensures
            r == (index_before(trade_prices(self.dataframe@), self.realtime(book), 0) matches Some(
                v,
            ) && v > SELL_BOUND),
    {
        match self.get_rsi(book, 0) {
            Ok(v) => v > SELL_BOUND,
            Err(_) => false,
        }
    }
}

} // verus!

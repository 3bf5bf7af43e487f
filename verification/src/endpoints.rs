//! The endpoints of the exchange: addresses, orders, and what to read out of
//! the answers.

use vstd::prelude::*;
use vstd::string::StringExecFns;
use crate::api::{
    distinct_keys,
    with_parameter,
    RequestMethod,
    UpbitRequestBuilder,
    UpbitRequestConfig,
};
use crate::decision::{order_size, sell_amount, sell_volume, SizingPolicy, FULL_SHARE};
use crate::error::UPBitError;
use crate::response::{Balance, Ticker};
use crate::text::{
    contains,
    contains_text,
    decimal,
    decimal_string,
    fixed_point,
    fixed_point_string,
    join,
    joined,
    second_piece,
    second_segment,
    texts,
};

verus! {

/// The length of one candle.
#[derive(Clone, Copy, Debug, PartialEq, Eq, Structural)]
pub enum CandleUnit {
    Min1,
    Min3,
    Min5,
    Min10,
    Min30,
    Hour1,
    Hour4,
}

/// The part of a candle address that names the unit.
pub open spec fn unit_path(unit: CandleUnit) -> Seq<char> {
    match unit {
        CandleUnit::Min1 => "minutes/1"@,
        CandleUnit::Min3 => "minutes/3"@,
        CandleUnit::Min5 => "minutes/5"@,
        CandleUnit::Min10 => "minutes/10"@,
        CandleUnit::Min30 => "minutes/30"@,
        CandleUnit::Hour1 => "minutes/60"@,
        CandleUnit::Hour4 => "minutes/240"@,
    }
}

/// The address of the latest `count` candles of `ticker`.
pub open spec fn candle_address(ticker: Seq<char>, unit: CandleUnit, count: u8) -> Seq<char> {
    "https://api.upbit.com/v1/candles/"@ + unit_path(unit) + "?market="@ + ticker + "&count="@
        + decimal(count as nat)
}

/// The address of the current prices of `tickers`.
pub open spec fn price_address(tickers: Seq<Seq<char>>) -> Seq<char> {
    "https://api.upbit.com/v1/ticker?markets="@ + joined(tickers, seq![','])
}

impl CandleUnit {
    /// The part of a candle address that names the unit.
    pub fn path(&self) -> (s: &'static str)
        ensures
            s@ == unit_path(*self),
    {
        match self {
            CandleUnit::Min1 => "minutes/1",
            CandleUnit::Min3 => "minutes/3",
            CandleUnit::Min5 => "minutes/5",
            CandleUnit::Min10 => "minutes/10",
            CandleUnit::Min30 => "minutes/30",
            CandleUnit::Hour1 => "minutes/60",
            CandleUnit::Hour4 => "minutes/240",
        }
    }
}

/// The address of all markets.
pub fn markets_url() -> (url: String)
    ensures
        url@ == "https://api.upbit.com/v1/market/all"@,
{
    String::from_str("https://api.upbit.com/v1/market/all")
}

/// The address of the balances of an account.
pub fn accounts_url() -> (url: String)
    ensures
        url@ == "https://api.upbit.com/v1/accounts"@,
{
    String::from_str("https://api.upbit.com/v1/accounts")
}

/// The address that takes orders.
pub fn orders_url() -> (url: String)
    ensures
        url@ == "https://api.upbit.com/v1/orders"@,
{
    String::from_str("https://api.upbit.com/v1/orders")
}

/// The address of the latest `count` candles of `ticker`.
pub fn candle_url(ticker: &str, unit: &CandleUnit, count: u8) -> (url: String)
    ensures
        url@ == candle_address(ticker@, *unit, count),
{
    let mut url: String = String::from_str("https://api.upbit.com/v1/candles/");
    url.append(unit.path());
    url.append("?market=");
    url.append(ticker);
    url.append("&count=");
    let number: String = decimal_string(count as u64);
    url.append(number.as_str());
    assert(url@ =~= candle_address(ticker@, *unit, count));
    url
}

/// The address of the current price of `ticker`.
pub fn price_url(ticker: &str) -> (url: String)
    ensures
        url@ == price_address(seq![ticker@]),
{
    let mut url: String = String::from_str("https://api.upbit.com/v1/ticker?markets=");
    url.append(ticker);
    url
}

/// The address of the current prices of `tickers`.
pub fn prices_url(tickers: &Vec<String>) -> (url: String)
    ensures
        url@ == price_address(texts(tickers@)),
{
    let mut url: String = String::from_str("https://api.upbit.com/v1/ticker?markets=");
    proof {
        reveal_strlit(",");
        assert(","@ =~= seq![',']);
    }
    let list: String = join(tickers, ",");
    url.append(list.as_str());
    url
}

/// The parameters of an order that spends `budget` of the quote currency on
/// `ticker` at the market price.
pub open spec fn buy_parameters(ticker: Seq<char>, budget: Seq<char>) -> Seq<
    (Seq<char>, Seq<char>),
> {
    seq![
        ("market"@, ticker),
        ("side"@, "bid"@),
        ("price"@, budget),
        ("ord_type"@, "price"@),
    ]
}

/// The parameters of an order that sells `volume` of `ticker` at the market
/// price.
pub open spec fn sell_parameters(ticker: Seq<char>, volume: Seq<char>) -> Seq<
    (Seq<char>, Seq<char>),
> {
    seq![
        ("market"@, ticker),
        ("side"@, "ask"@),
        ("volume"@, volume),
        ("ord_type"@, "market"@),
    ]
}

/// Four parameters under four different names, added one by one to an empty list,
/// stand in the order in which they were added.
proof fn lemma_four_parameters(
    a: (Seq<char>, Seq<char>),
    b: (Seq<char>, Seq<char>),
    c: (Seq<char>, Seq<char>),
    d: (Seq<char>, Seq<char>),
)
    requires
        a.0 != b.0,
        a.0 != c.0,
        a.0 != d.0,
        b.0 != c.0,
        b.0 != d.0,
        c.0 != d.0,
    ensures
        with_parameter(
            with_parameter(with_parameter(with_parameter(Seq::empty(), a.0, a.1), b.0, b.1), c.0, c.1),
            d.0,
            d.1,
        ) == seq![a, b, c, d],
{
    let empty = Seq::<(Seq<char>, Seq<char>)>::empty();
    let one = with_parameter(empty, a.0, a.1);
    crate::api::lemma_key_index(empty, a.0, 0);
    assert(one =~= seq![a]);
    let two = with_parameter(one, b.0, b.1);
    crate::api::lemma_key_index(one, b.0, 0);
    assert(one[0].0 != b.0);
    assert(two =~= seq![a, b]);
    let three = with_parameter(two, c.0, c.1);
    crate::api::lemma_key_index(two, c.0, 0);
    assert(two[0].0 != c.0 && two[1].0 != c.0);
    assert(three =~= seq![a, b, c]);
    let four = with_parameter(three, d.0, d.1);
    crate::api::lemma_key_index(three, d.0, 0);
    assert(three[0].0 != d.0 && three[1].0 != d.0 && three[2].0 != d.0);
    assert(four =~= seq![a, b, c, d]);
}

/// The order that spends `budget`, a fixed-point number with `places` decimal
/// places, on `ticker` at the market price.
pub fn buy_order(ticker: &str, budget: u64, places: u8) -> (config: UpbitRequestConfig)
    ensures
        config.address() == "https://api.upbit.com/v1/orders"@,
        config.verb() == RequestMethod::Post,
        config.params() == buy_parameters(ticker@, fixed_point(budget as nat, places as nat)),
        distinct_keys(config.params()),
{
    let amount: String = fixed_point_string(budget, places);
    let start: UpbitRequestConfig = UpbitRequestBuilder::default().post(orders_url());
    proof {
        reveal_strlit("market");
        reveal_strlit("side");
        reveal_strlit("price");
        reveal_strlit("ord_type");
        assert("market"@.len() == 6 && "side"@.len() == 4 && "price"@.len() == 5
            && "ord_type"@.len() == 8);
        assert(start.params() =~= Seq::empty());
        lemma_four_parameters(
            ("market"@, ticker@),
            ("side"@, "bid"@),
            ("price"@, amount@),
            ("ord_type"@, "price"@),
        );
    }
    start.add_parameter("market", ticker).add_parameter("side", "bid").add_parameter(
        "price",
        amount.as_str(),
    ).add_parameter("ord_type", "price")
}

/// The order that sells `volume`, a fixed-point number with `places` decimal
/// places, of `ticker` at the market price.
pub fn sell_order(ticker: &str, volume: u64, places: u8) -> (config: UpbitRequestConfig)
    ensures
        config.address() == "https://api.upbit.com/v1/orders"@,
        config.verb() == RequestMethod::Post,
        config.params() == sell_parameters(ticker@, fixed_point(volume as nat, places as nat)),
        distinct_keys(config.params()),
{
    let amount: String = fixed_point_string(volume, places);
    let start: UpbitRequestConfig = UpbitRequestBuilder::default().post(orders_url());
    proof {
        reveal_strlit("market");
        reveal_strlit("side");
        reveal_strlit("volume");
        reveal_strlit("ord_type");
        assert("market"@.len() == 6 && "side"@.len() == 4 && "volume"@.len() == 6
            && "ord_type"@.len() == 8);
        assert("market"@[0] != "volume"@[0]);
        assert(start.params() =~= Seq::empty());
        lemma_four_parameters(
            ("market"@, ticker@),
            ("side"@, "ask"@),
            ("volume"@, amount@),
            ("ord_type"@, "market"@),
        );
    }
    start.add_parameter("market", ticker).add_parameter("side", "ask").add_parameter(
        "volume",
        amount.as_str(),
    ).add_parameter("ord_type", "market")
}

/// Why no order to sell was made.
#[derive(Clone, Copy, Debug, PartialEq, Eq, Structural)]
pub enum OrderError {
    /// The share to sell is over 100 percent.
    InvalidRatio,
    /// The account holds nothing of the asset.
    NothingToSell,
}

impl OrderError {
    /// The text of the error.
    pub fn message(&self) -> (text: String)
        ensures
            text@ == match *self {
                OrderError::InvalidRatio => "the share to sell is not a percentage"@,
                OrderError::NothingToSell => "there is no balance to sell"@,
            },
    {
        match self {
            OrderError::InvalidRatio => String::from_str("the share to sell is not a percentage"),
            OrderError::NothingToSell => String::from_str("there is no balance to sell"),
        }
    }
}

/// Whether `share`, in millionths of a percent, is a share that can be sold:
/// at most 100 percent.
pub fn check_ratio(share: u32) -> (r: Result<(), OrderError>)
    ensures
        match r {
            Ok(_) => share <= FULL_SHARE,
            Err(e) => share > FULL_SHARE && e == OrderError::InvalidRatio,
        },
{
    if share > FULL_SHARE {
        Err(OrderError::InvalidRatio)
    } else {
        Ok(())
    }
}

/// The order to buy `ticker` out of a portfolio worth `portfolio_value` of
/// which `exposure` is already in that asset, if the policy allows one: an
/// order that spends the budget of the policy.
pub fn plan_buy(
    policy: &SizingPolicy,
    portfolio_value: u64,
    exposure: u64,
    ticker: &str,
    places: u8,
) -> (r: Option<UpbitRequestConfig>)
    ensures
        match order_size(*policy, portfolio_value, exposure) {
            Some(budget) => r matches Some(config) && {
                &&& config.address() == "https://api.upbit.com/v1/orders"@
                &&& config.verb() == RequestMethod::Post
                &&& config.params() == buy_parameters(
                    ticker@,
                    fixed_point(budget as nat, places as nat),
                )
            },
            None => r is None,
        },
{
    match policy.size_order(portfolio_value, exposure) {
        Some(budget) => Some(buy_order(ticker, budget, places)),
        None => None,
    }
}

/// The order to sell the share `share` of `balance` of `ticker`, the share in
/// millionths of a percent.
///
/// A share over 100 percent is refused, and so is an account without a
/// balance of the asset.
pub fn plan_sell(balance: Option<u64>, share: u32, ticker: &str, places: u8) -> (r: Result<
    UpbitRequestConfig,
    OrderError,
>)
    ensures
        match r {
            Ok(config) => {
                &&& share <= FULL_SHARE
                &&& balance is Some
                &&& config.address() == "https://api.upbit.com/v1/orders"@
                &&& config.verb() == RequestMethod::Post
                &&& config.params() == sell_parameters(
                    ticker@,
                    fixed_point(sell_amount(balance->0, share), places as nat),
                )
            },
            Err(OrderError::InvalidRatio) => share > FULL_SHARE,
            Err(OrderError::NothingToSell) => share <= FULL_SHARE && balance is None,
        },
{
    match check_ratio(share) {
        Ok(_) => {},
        Err(e) => {
            return Err(e);
        },
    }
    match balance {
        Some(held) => match sell_volume(held, share) {
            Some(volume) => Ok(sell_order(ticker, volume, places)),
            None => Err(OrderError::InvalidRatio),
        },
        None => Err(OrderError::NothingToSell),
    }
}

/// The currency whose balance stands for `ticker`: the quote currency `KRW`
/// for itself, and for a market such as `KRW-BTC` the part behind the first
/// hyphen.  Any other text names no currency.
pub open spec fn currency_of(ticker: Seq<char>) -> Option<Seq<char>> {
    if ticker == "KRW"@ {
        Some(ticker)
    } else {
        second_piece(ticker, '-')
    }
}

/// The currency whose balance stands for `ticker`.
pub fn balance_currency(ticker: &str) -> (r: Option<String>)
    ensures
        match r {
            Some(currency) => currency_of(ticker@) == Some(currency@),
            None => currency_of(ticker@) is None,
        },
{
    let whole: String = String::from_str(ticker);
    let quote: String = String::from_str("KRW");
    if whole == quote {
        Some(whole)
    } else {
        second_segment(ticker, '-')
    }
}

/// The first position from `from` on at which `balances` has the currency
/// `currency`, or the length of `balances` if there is none.
pub open spec fn balance_index(balances: Seq<Balance>, currency: Seq<char>, from: int) -> int
    decreases balances.len() - from,
{
    if from < 0 || from >= balances.len() {
        balances.len() as int
    } else if balances[from].currency@ == currency {
        from
    } else {
        balance_index(balances, currency, from + 1)
    }
}

/// The free amount of the first balance that stands for `ticker`.
pub open spec fn balance_for(balances: Seq<Balance>, ticker: Seq<char>) -> Option<u64> {
    match currency_of(ticker) {
        Some(currency) => {
            let i = balance_index(balances, currency, 0);
            if i < balances.len() {
                Some(balances[i].balance)
            } else {
                None
            }
        },
        None => None,
    }
}

/// The free amount that an account holds of `ticker`, if it holds any balance
/// of it.
pub fn balance_of(balances: &[Balance], ticker: &str) -> (r: Option<u64>)
    ensures
        r == balance_for(balances@, ticker@),
{
    let currency: String = match balance_currency(ticker) {
        Some(c) => c,
        None => {
            return None;
        },
    };
    let n: usize = balances.len();
    let mut i: usize = 0;
    while i < n
        invariant
            n == balances@.len(),
            i <= n,
            currency_of(ticker@) == Some(currency@),
            balance_index(balances@, currency@, 0) == balance_index(balances@, currency@, i as int),
        decreases n - i,
    {
        if balances[i].currency == currency {
            return Some(balances[i].balance);
        }
        i = i + 1;
    }
    None
}

/// The market in which `currency` trades against the quote currency: `KRW`
/// for the quote currency itself, `KRW-` and the currency for any other.
pub open spec fn market_of(currency: Seq<char>) -> Seq<char> {
    if currency == "KRW"@ {
        currency
    } else {
        "KRW-"@ + currency
    }
}

/// The market in which `currency` trades against the quote currency.
pub fn balance_market(currency: &str) -> (market: String)
    ensures
        market@ == market_of(currency@),
{
    let name: String = String::from_str(currency);
    let quote: String = String::from_str("KRW");
    if name == quote {
        name
    } else {
        let mut market: String = String::from_str("KRW-");
        market.append(currency);
        market
    }
}

/// The free amounts of an account by market, in the order of its balances.
///
/// An account without balances is reported as a failure to receive data.
pub fn holdings_by_market(balances: &[Balance]) -> (r: Result<Vec<(String, u64)>, UPBitError>)
    ensures
        match r {
            Ok(out) => {
                &&& balances@.len() > 0
                &&& out@.len() == balances@.len()
                &&& forall|i: int|
                    0 <= i < out@.len() ==> (#[trigger] out@[i]).0@ == market_of(
                        balances@[i].currency@,
                    ) && out@[i].1 == balances@[i].balance
            },
            Err(e) => {
                &&& balances@.len() == 0
                &&& e matches UPBitError::FailedToReceiveDataError(text) && text@
                    == "the account holds nothing"@
            },
        },
{
    let n: usize = balances.len();
    if n == 0 {
        return Err(UPBitError::FailedToReceiveDataError(String::from_str("the account holds nothing")));
    }
    let mut out: Vec<(String, u64)> = Vec::new();
    let mut i: usize = 0;
    while i < n
        invariant
            n == balances@.len(),
            i <= n,
            out@.len() == i,
            forall|k: int|
                0 <= k < i ==> (#[trigger] out@[k]).0@ == market_of(balances@[k].currency@)
                    && out@[k].1 == balances@[k].balance,
        decreases n - i,
    {
        out.push((balance_market(balances[i].currency.as_str()), balances[i].balance));
        i = i + 1;
    }
    Ok(out)
}

/// The names of the markets of `tickers` that trade against `KRW`.
///
/// A list without such a market is reported as a failure to receive data.
pub fn available_markets(tickers: &[Ticker]) -> (r: Result<Vec<String>, UPBitError>)
    ensures
        match r {
            Ok(out) => out@.len() > 0 && texts(out@) == krw_markets_to(tickers@, tickers@.len()),
            Err(e) => {
                &&& krw_markets_to(tickers@, tickers@.len()).len() == 0
                &&& e matches UPBitError::FailedToReceiveDataError(text) && text@
                    == "no market was received"@
            },
        },
{
    let out: Vec<String> = krw_markets(tickers);
    if out.len() == 0 {
        Err(UPBitError::FailedToReceiveDataError(String::from_str("no market was received")))
    } else {
        Ok(out)
    }
}

/// The market names among the first `k` of `tickers` that contain `KRW`, in
/// their order.
pub open spec fn krw_markets_to(tickers: Seq<Ticker>, k: nat) -> Seq<Seq<char>>
    decreases k,
{
    if k == 0 {
        Seq::empty()
    } else if contains_text(tickers[k - 1].market@, "KRW"@) {
        krw_markets_to(tickers, (k - 1) as nat).push(tickers[k - 1].market@)
    } else {
        krw_markets_to(tickers, (k - 1) as nat)
    }
}

/// The names of the markets of `tickers` that trade against `KRW`.
pub fn krw_markets(tickers: &[Ticker]) -> (out: Vec<String>)
    ensures
        texts(out@) == krw_markets_to(tickers@, tickers@.len()),
{
    let n: usize = tickers.len();
    let mut out: Vec<String> = Vec::new();
    let mut i: usize = 0;
    assert(texts(out@) =~= krw_markets_to(tickers@, 0));
    while i < n
        invariant
            n == tickers@.len(),
            i <= n,
            texts(out@) == krw_markets_to(tickers@, i as nat),
        decreases n - i,
    {
        if contains(tickers[i].market.as_str(), "KRW") {
            out.push(tickers[i].market.clone());
            assert(texts(out@) =~= krw_markets_to(tickers@, (i + 1) as nat));
        }
        i = i + 1;
    }
    out
}

} // verus!

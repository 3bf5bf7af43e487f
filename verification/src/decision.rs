//! Trading decisions: signals from the indicators, and order sizes.

use vstd::prelude::*;
use crate::divergence::{
    breaking_peak_spec,
    divergence_spec,
    rsi_of,
    RsiDivergenceCheckMode,
    RSI_COM,
    RSI_MIN_PERIODS,
};
use crate::ewm::ewm_value;
use crate::ops::{check_rsi_breaking_peak, check_rsi_divergence, get_ewm_mean, get_rsi};
use crate::response::{closes, get_last_price, CandleData};
use crate::rsi::rsi_at;

verus! {

/// What to do with one market in one evaluation cycle.
#[derive(Clone, Copy, Debug, PartialEq, Eq, Structural)]
pub enum Signal {
    Buy,
    Sell,
    Hold,
}

/// Bound of the index under which a minimum counts as oversold: 30 points.
pub const OVERSOLD_BOUND: i64 = 30_000_000;

/// Bound of the index over which a peak counts as overbought: 70 points.
pub const OVERBOUGHT_BOUND: i64 = 70_000_000;

/// Over this value of the index a price under its average has stalled: 60 points.
pub const STALLED_BOUND: i64 = 60_000_000;

/// How many of the latest candles a divergence may lie in.
pub const DIVERGENCE_LOOKBACK: usize = 5;

/// How many of the latest candles a broken peak may lie in.
pub const BREAKING_PEAK_COUNT: usize = 4;

/// The rule for buying: an oversold divergence, and a price under its average.
pub open spec fn buy_rule(oversold_divergence: bool, price: u64, mean: u64) -> bool {
    oversold_divergence && price < mean
}

/// The rule for selling: an overbought divergence, or a broken peak, or an
/// index over the stalled bound while the price is under its average.
pub open spec fn sell_rule(
    overbought_divergence: bool,
    breaking_peak: bool,
    rsi: i64,
    price: u64,
    mean: u64,
) -> bool {
    overbought_divergence || breaking_peak || (rsi > STALLED_BOUND && price < mean)
}

/// The signal for a market: what is held can only be sold, what is not held
/// can only be bought.
pub open spec fn signal_rule(buy: bool, sell: bool, holding: bool) -> Signal {
    if holding {
        if sell { Signal::Sell } else { Signal::Hold }
    } else {
        if buy { Signal::Buy } else { Signal::Hold }
    }
}

/// Whether to buy.
pub fn buy_condition(oversold_divergence: bool, price: u64, mean: u64) -> (r: bool)
    ensures
        r == buy_rule(oversold_divergence, price, mean),
{
    oversold_divergence && price < mean
}

/// Whether to sell.
pub fn sell_condition(
    overbought_divergence: bool,
    breaking_peak: bool,
    rsi: i64,
    price: u64,
    mean: u64,
) -> (r: bool)
    ensures
        r == sell_rule(overbought_divergence, breaking_peak, rsi, price, mean),
{
    overbought_divergence || breaking_peak || (rsi > STALLED_BOUND && price < mean)
}

/// The signal for a market from its two conditions.
pub fn signal_for(buy: bool, sell: bool, holding: bool) -> (s: Signal)
    ensures
        s == signal_rule(buy, sell, holding),
{
    if holding {
        if sell { Signal::Sell } else { Signal::Hold }
    } else {
        if buy { Signal::Buy } else { Signal::Hold }
    }
}

/// The signal that the candles of a market give once the indicators are ready.
pub open spec fn evaluation(candles: Seq<CandleData>, holding: bool) -> Signal {
    let prices = closes(candles);
    let last = (prices.len() - 1) as nat;
    let index = rsi_of(prices);
    let price = prices[last as int];
    let mean = ewm_value(prices, RSI_COM as nat, last) as u64;
    let rsi = rsi_at(prices, RSI_COM as nat, last) as i64;
    signal_rule(
        buy_rule(
            divergence_spec(
                prices,
                index,
                RsiDivergenceCheckMode::Minpoint,
                OVERSOLD_BOUND,
                DIVERGENCE_LOOKBACK as nat,
            ),
            price,
            mean,
        ),
        sell_rule(
            divergence_spec(
                prices,
                index,
                RsiDivergenceCheckMode::Peak,
                OVERBOUGHT_BOUND,
                DIVERGENCE_LOOKBACK as nat,
            ),
            breaking_peak_spec(index, BREAKING_PEAK_COUNT as nat, OVERBOUGHT_BOUND),
            rsi,
            price,
            mean,
        ),
        holding,
    )
}

/// The signal for one market, from its candles (newest first) and whether the
/// account holds the asset.
///
/// Until the indicators are ready, which takes more than 14 candles, the
/// signal is `Hold`.
pub fn evaluate(candle_data: &[CandleData], holding: bool) -> (s: Signal)
    ensures
        candle_data@.len() <= RSI_MIN_PERIODS ==> s == Signal::Hold,
        candle_data@.len() > RSI_MIN_PERIODS ==> s == evaluation(candle_data@, holding),
{
    let rsi: i64 = match get_rsi(candle_data) {
        Ok(v) => v,
        Err(_) => {
            return Signal::Hold;
        },
    };
    let mean: u64 = match get_ewm_mean(candle_data) {
        Ok(v) => v,
        Err(_) => {
            return Signal::Hold;
        },
    };
    let price: u64 = match get_last_price(candle_data) {
        Ok(v) => v,
        Err(_) => {
            return Signal::Hold;
        },
    };
    let oversold: bool = check_rsi_divergence(
        candle_data,
        &RsiDivergenceCheckMode::Minpoint,
        OVERSOLD_BOUND,
        DIVERGENCE_LOOKBACK,
    );
    let overbought: bool = check_rsi_divergence(
        candle_data,
        &RsiDivergenceCheckMode::Peak,
        OVERBOUGHT_BOUND,
        DIVERGENCE_LOOKBACK,
    );
    let breaking: bool = check_rsi_breaking_peak(candle_data, BREAKING_PEAK_COUNT, OVERBOUGHT_BOUND);
    let buy: bool = buy_condition(oversold, price, mean);
    let sell: bool = sell_condition(overbought, breaking, rsi, price, mean);
    signal_for(buy, sell, holding)
}

/// How much of a portfolio one order may take.
#[derive(Clone, Copy, Debug, PartialEq, Eq, Structural)]
pub struct SizingPolicy {
    /// The share of the portfolio that one order spends, in percent.
    pub budget_percent: u8,
    /// The smallest order worth placing, in units of the quote currency.
    pub minimum_budget: u64,
    /// The largest share of the portfolio that one asset may take, in percent.
    pub exposure_cap_percent: u8,
}

/// The budget of one order: the policy's share of the portfolio, rounded down.
pub open spec fn budget_of(policy: SizingPolicy, portfolio_value: u64) -> nat {
    (portfolio_value * policy.budget_percent / 100) as nat
}

/// The size of the order to place, if any.
///
/// No order is placed where the share is over 100 percent, where the budget
/// is under the minimum, or where the budget on top of what is already held
/// would exceed the cap.
pub open spec fn order_size(policy: SizingPolicy, portfolio_value: u64, exposure: u64) -> Option<
    u64,
> {
    let budget = budget_of(policy, portfolio_value);
    if policy.budget_percent > 100 {
        None
    } else if budget < policy.minimum_budget {
        None
    } else if (exposure + budget) * 100 > portfolio_value * policy.exposure_cap_percent {
        None
    } else {
        Some(budget as u64)
    }
}

impl SizingPolicy {
    /// A tenth of the portfolio per order, at most fifteen percent per asset,
    /// and no order under `minimum_budget`.
    pub fn standard(minimum_budget: u64) -> (policy: SizingPolicy)
        ensures
            policy == (SizingPolicy {
                budget_percent: 10,
                minimum_budget,
                exposure_cap_percent: 15,
            }),
    {
        SizingPolicy { budget_percent: 10, minimum_budget, exposure_cap_percent: 15 }
    }

    /// The size of the order to place for an asset of which `exposure` is
    /// already held, out of a portfolio worth `portfolio_value`.
    pub fn size_order(&self, portfolio_value: u64, exposure: u64) -> (r: Option<u64>)
        ensures
            r == order_size(*self, portfolio_value, exposure),
            r matches Some(b) ==> b <= portfolio_value,
    {
        if self.budget_percent > 100 {
            return None;
        }
        let total: u128 = portfolio_value as u128;
        let share: u128 = self.budget_percent as u128;
        assert(total * share <= 0xffff_ffff_ffff_ffff * 100) by (nonlinear_arith)
            requires
                total <= 0xffff_ffff_ffff_ffff,
                share <= 100,
        ;
        let budget: u128 = total * share / 100;
        assert(budget <= total) by (nonlinear_arith)
            requires
                budget == total * share / 100,
                0 <= share <= 100,
                0 <= total,
        ;
        if budget < self.minimum_budget as u128 {
            return None;
        }
        let cap: u128 = self.exposure_cap_percent as u128;
        assert(total * cap <= 0xffff_ffff_ffff_ffff * 255) by (nonlinear_arith)
            requires
                total <= 0xffff_ffff_ffff_ffff,
                cap <= 255,
        ;
        if (exposure as u128 + budget) * 100 > total * cap {
            return None;
        }
        Some(budget as u64)
    }
}

/// The worth of `amount` of an asset at `price` per whole coin, where
/// `amount_scale` units of `amount` make one coin, rounded down.
pub open spec fn holding_value(amount: u64, price: u64, amount_scale: u64) -> nat {
    (amount * price / (amount_scale as int)) as nat
}

/// One position of a portfolio: an amount of an asset and its current price.
#[derive(Clone, Copy, Debug, PartialEq, Eq, Structural)]
pub struct Holding {
    pub amount: u64,
    pub price: u64,
}

/// The worth of the first `k` holdings.
pub open spec fn holdings_value(holdings: Seq<Holding>, amount_scale: u64, k: nat) -> nat
    decreases k,
{
    if k == 0 {
        0
    } else {
        holdings_value(holdings, amount_scale, (k - 1) as nat) + holding_value(
            holdings[k - 1].amount,
            holdings[k - 1].price,
            amount_scale,
        )
    }
}

/// The worth of a portfolio in the quote currency: the cash and every
/// holding at its current price.
pub open spec fn portfolio_worth(cash: u64, holdings: Seq<Holding>, amount_scale: u64) -> nat {
    (cash + holdings_value(holdings, amount_scale, holdings.len())) as nat
}

/// The worth of one holding.
fn value_of(amount: u64, price: u64, amount_scale: u64) -> (v: u128)
    requires
        amount_scale > 0,
    ensures
        v == holding_value(amount, price, amount_scale),
{
    assert(amount * price <= 0xffff_ffff_ffff_ffff * 0xffff_ffff_ffff_ffff) by (nonlinear_arith)
        requires
            0 <= amount <= 0xffff_ffff_ffff_ffff,
            0 <= price <= 0xffff_ffff_ffff_ffff,
    ;
    (amount as u128 * price as u128) / (amount_scale as u128)
}

/// The worth of a portfolio.  There is none where `amount_scale` is zero or
/// the worth is too large for 64 bits.
pub fn portfolio_value(cash: u64, holdings: &[Holding], amount_scale: u64) -> (r: Option<u64>)
    ensures
        match r {
            Some(v) => amount_scale > 0 && v == portfolio_worth(cash, holdings@, amount_scale),
            None => amount_scale == 0 || portfolio_worth(cash, holdings@, amount_scale)
                > u64::MAX,
        },
{
    if amount_scale == 0 {
        return None;
    }
    let n: usize = holdings.len();
    let mut total: u64 = cash;
    let mut i: usize = 0;
    while i < n
        invariant
            n == holdings@.len(),
            i <= n,
            amount_scale > 0,
            total == cash + holdings_value(holdings@, amount_scale, i as nat),
        decreases n - i,
    {
        let v: u128 = value_of(holdings[i].amount, holdings[i].price, amount_scale);
        if v > (u64::MAX - total) as u128 {
            proof {
                lemma_holdings_value_grows(holdings@, amount_scale, (i + 1) as nat, n as nat);
            }
            return None;
        }
        total = total + v as u64;
        i = i + 1;
    }
    Some(total)
}

/// The worth of more holdings is no less.
pub proof fn lemma_holdings_value_grows(holdings: Seq<Holding>, amount_scale: u64, j: nat, k: nat)
    requires
        j <= k,
    ensures
        holdings_value(holdings, amount_scale, j) <= holdings_value(holdings, amount_scale, k),
    decreases k,
{
    if j < k {
        lemma_holdings_value_grows(holdings, amount_scale, j, (k - 1) as nat);
    }
}

/// The whole of a balance as a share: 100 percent, in millionths of a
/// percent.
pub const FULL_SHARE: u32 = 100_000_000;

/// The amount to sell for a share of a balance, the share in millionths of a
/// percent, rounded down.
pub open spec fn sell_amount(balance: u64, share: u32) -> nat {
    (balance * share / 100_000_000) as nat
}

/// The amount to sell for a share of a balance; no amount for a share over
/// 100 percent.
pub fn sell_volume(balance: u64, share: u32) -> (r: Option<u64>)
    ensures
        match r {
            Some(v) => share <= FULL_SHARE && v == sell_amount(balance, share),
            None => share > FULL_SHARE,
        },
{
    if share > FULL_SHARE {
        return None;
    }
    let b: u128 = balance as u128;
    let p: u128 = share as u128;
    assert(b * p <= 0xffff_ffff_ffff_ffff * 100_000_000) by (nonlinear_arith)
        requires
            b <= 0xffff_ffff_ffff_ffff,
            p <= 100_000_000,
    ;
    let v: u128 = b * p / 100_000_000;
    assert(v <= b) by (nonlinear_arith)
        requires
            v == b * p / 100_000_000,
            0 <= p <= 100_000_000,
            0 <= b,
    ;
    Some(v as u64)
}

/// Whether an asset counts as held: the account has a balance of it that is
/// not zero.
pub fn is_held(balance: Option<u64>) -> (r: bool)
    ensures
        r == (balance matches Some(amount) && amount > 0),
{
    match balance {
        Some(amount) => amount > 0,
        None => false,
    }
}

} // verus!

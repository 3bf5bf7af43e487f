//! The shortlist of markets to trade: ranking by traded value, and when to
//! rebuild the list.

use vstd::prelude::*;
use crate::market_index::MarketReading;
use crate::ranking::{comes_before, is_stable_order, stable_order};
use crate::text::texts;

verus! {

/// The current price and the volume of the last 24 hours of one market.
#[derive(Debug)]
pub struct MarketTrade {
    pub market: String,
    pub trade_price: u64,
    pub acc_trade_volume_24h: u64,
}

/// What to do with the shortlist.
#[derive(Clone, Copy, Debug, PartialEq, Eq, Structural)]
pub enum ShortlistPlan {
    /// Trade nothing.
    Clear,
    /// Take the markets with the largest traded value.
    Rebuild,
}

/// How many markets a shortlist holds at most.
pub const SHORTLIST_SIZE: usize = 20;

/// Under this strength of the market, in millionths of a point, a rise of
/// the market makes a new shortlist: 45 points.
pub const REBUILD_BOUND: i64 = 45_000_000;

/// The traded value of a market: price times volume.
pub open spec fn traded_value(m: MarketTrade) -> nat {
    (m.trade_price * m.acc_trade_volume_24h) as nat
}

/// The keys by which markets are ranked: the larger the traded value, the
/// smaller the key.
pub open spec fn rank_keys(markets: Seq<MarketTrade>) -> Seq<u128> {
    Seq::new(markets.len(), |i: int| (u128::MAX - traded_value(markets[i])) as u128)
}

/// Whether `names` are the names of `markets` by falling traded value,
/// markets of equal value in the order in which they came.
pub open spec fn ranked(markets: Seq<MarketTrade>, names: Seq<Seq<char>>) -> bool {
    exists|order: Seq<usize>|
        {
            &&& #[trigger] is_stable_order(rank_keys(markets), markets.len() as int, order)
            &&& names.len() == markets.len()
            &&& forall|k: int| 0 <= k < names.len() ==> names[k] == markets[order[k] as int].market@
        }
}

/// What to do with the shortlist, given the change of the market at the
/// reading before, its change now, and its strength now.
///
/// A falling market clears the list.  A market that has just turned from
/// falling to rising, with a strength under the rebuild bound, makes a new
/// one.  Anything else clears it.
pub open spec fn plan_for(previous_delta: i128, delta: i128, strength: i64) -> ShortlistPlan {
    if delta < 0 {
        ShortlistPlan::Clear
    } else if previous_delta < 0 && strength < REBUILD_BOUND {
        ShortlistPlan::Rebuild
    } else {
        ShortlistPlan::Clear
    }
}

/// The change of the market to compare with: the stored one, or where that
/// is zero, which stands for none, the one of the reading before.
pub open spec fn change_before(stored_delta: i128, earlier_delta: i128) -> i128 {
    if stored_delta == 0 {
        earlier_delta
    } else {
        stored_delta
    }
}

/// What to do with the shortlist.
pub fn shortlist_plan(previous_delta: i128, delta: i128, strength: i64) -> (plan: ShortlistPlan)
    ensures
        plan == plan_for(previous_delta, delta, strength),
{
    if delta < 0 {
        ShortlistPlan::Clear
    } else if previous_delta < 0 && strength < REBUILD_BOUND {
        ShortlistPlan::Rebuild
    } else {
        ShortlistPlan::Clear
    }
}

/// Whether the stored change of the market stands for none, so that the
/// reading before has to be taken anew.
pub fn needs_earlier_reading(stored_delta: i128) -> (r: bool)
    ensures
        r == (stored_delta == 0),
{
    stored_delta == 0
}

/// One refresh of the shortlist: the change to store for the next refresh,
/// and what to do with the list now.
pub fn refresh_step(stored_delta: i128, earlier_delta: i128, now: MarketReading) -> (out: (
    i128,
    ShortlistPlan,
))
    ensures
        out.0 == now.delta,
        out.1 == plan_for(change_before(stored_delta, earlier_delta), now.delta, now.strength),
{
    let before: i128 = if needs_earlier_reading(stored_delta) {
        earlier_delta
    } else {
        stored_delta
    };
    (now.delta, shortlist_plan(before, now.delta, now.strength))
}

/// The names of `markets` by falling traded value.
pub fn rank_by_traded_value(markets: &Vec<MarketTrade>) -> (names: Vec<String>)
    ensures
        ranked(markets@, texts(names@)),
        names@.len() == markets@.len(),
{
    let n: usize = markets.len();
    let mut keys: Vec<u128> = Vec::new();
    let mut i: usize = 0;
    while i < n
        invariant
            n == markets@.len(),
            i <= n,
            keys@.len() == i,
            forall|k: int|
                0 <= k < i ==> keys@[k] == (u128::MAX - traded_value(markets@[k])) as u128,
        decreases n - i,
    {
        let price: u128 = markets[i].trade_price as u128;
        let volume: u128 = markets[i].acc_trade_volume_24h as u128;
        assert(price * volume <= 0xffff_ffff_ffff_ffff * 0xffff_ffff_ffff_ffff) by (nonlinear_arith)
            requires
                0 <= price <= 0xffff_ffff_ffff_ffff,
                0 <= volume <= 0xffff_ffff_ffff_ffff,
        ;
        keys.push(u128::MAX - price * volume);
        i = i + 1;
    }
    assert(keys@ =~= rank_keys(markets@));
    let order: Vec<usize> = stable_order(&keys);
    let mut names: Vec<String> = Vec::new();
    let mut k: usize = 0;
    while k < n
        invariant
            n == markets@.len(),
            k <= n,
            is_stable_order(rank_keys(markets@), n as int, order@),
            names@.len() == k,
            forall|j: int| 0 <= j < k ==> names@[j]@ == markets@[order@[j] as int].market@,
        decreases n - k,
    {
        names.push(markets[order[k]].market.clone());
        k = k + 1;
    }
    proof {
        assert(is_stable_order(rank_keys(markets@), markets@.len() as int, order@));
    }
    names
}

/// In a ranking no market stands before one of larger traded value.
pub proof fn lemma_ranked_by_falling_value(markets: Seq<MarketTrade>, order: Seq<usize>)
    requires
        is_stable_order(rank_keys(markets), markets.len() as int, order),
    ensures
        forall|i: int, j: int|
            0 <= i < j < order.len() ==> traded_value(markets[order[i] as int]) >= traded_value(
                markets[order[j] as int],
            ),
{
    assert forall|i: int, j: int| 0 <= i < j < order.len() implies traded_value(
        markets[order[i] as int],
    ) >= traded_value(markets[order[j] as int]) by {
        assert(comes_before(rank_keys(markets), order[i] as int, order[j] as int));
        let a = markets[order[i] as int];
        let b = markets[order[j] as int];
        assert(a.trade_price * a.acc_trade_volume_24h <= 0xffff_ffff_ffff_ffff
            * 0xffff_ffff_ffff_ffff) by (nonlinear_arith)
            requires
                0 <= a.trade_price <= 0xffff_ffff_ffff_ffff,
                0 <= a.acc_trade_volume_24h <= 0xffff_ffff_ffff_ffff,
        ;
        assert(b.trade_price * b.acc_trade_volume_24h <= 0xffff_ffff_ffff_ffff
            * 0xffff_ffff_ffff_ffff) by (nonlinear_arith)
            requires
                0 <= b.trade_price <= 0xffff_ffff_ffff_ffff,
                0 <= b.acc_trade_volume_24h <= 0xffff_ffff_ffff_ffff,
        ;
    }
}

/// The first `size` of `names`, or all of them where there are fewer.
pub fn take_first(names: &Vec<String>, size: usize) -> (out: Vec<String>)
    ensures
        texts(out@) == texts(names@).take(
            if size <= names@.len() { size as int } else { names@.len() as int },
        ),
{
    let n: usize = if size <= names.len() { size } else { names.len() };
    let mut out: Vec<String> = Vec::new();
    let mut i: usize = 0;
    while i < n
        invariant
            n <= names@.len(),
            i <= n,
            out@.len() == i,
            forall|k: int| 0 <= k < i ==> out@[k]@ == names@[k]@,
        decreases n - i,
    {
        out.push(names[i].clone());
        i = i + 1;
    }
    assert(texts(out@) =~= texts(names@).take(n as int));
    out
}

} // verus!

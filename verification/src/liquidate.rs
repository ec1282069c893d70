//! Emergency liquidation planning: the market orders that flatten a
//! portfolio into its quote currency. The plan is pure; submitting
//! its orders, with the pauses a venue's rate limits ask for, is the
//! caller's loop, and a failed order never stops the sweep.

use vstd::prelude::*;
use crate::assets::{SpotAsset, FutureAsset};
use crate::lot_size::LotSizeFilter;
use crate::records::{MarketType, TradeSide};
use crate::rules::spec_clamp_cached;
use crate::assoc::StrMap;

verus! {

/// One order of a liquidation sweep; every one is tagged as a
/// liquidation when recorded.
#[derive(Debug, Clone)]
pub struct PlannedOrder {
    pub symbol: String,
    pub market: MarketType,
    pub side: TradeSide,
    pub qty: u64,
    pub reduce_only: bool,
}

/// A planned order equals an expected one field by field.
pub open spec fn planned_order_is(
    o: PlannedOrder,
    symbol: Seq<char>,
    market: MarketType,
    side: TradeSide,
    qty: u64,
    reduce_only: bool,
) -> bool {
    o.symbol@ == symbol && o.market == market && o.side == side && o.qty == qty && o.reduce_only
        == reduce_only
}

/// Whether one holding is sold, and at what clamped quantity: quote
/// holdings, empty holdings and dust are skipped.
pub open spec fn spec_spot_sale_qty(
    asset: SpotAsset,
    quote: Seq<char>,
    suffix: Seq<char>,
    rules: Map<Seq<char>, LotSizeFilter>,
) -> u64 {
    if asset.currency@ == quote || asset.available == 0 {
        0
    } else {
        spec_clamp_cached(rules, asset.currency@ + suffix, asset.available)
    }
}

/// The spot leg of the sweep, order by order: one market sell per
/// non-quote holding whose clamped available quantity is positive, on
/// the holding's `{currency}{suffix}` quote pair, skipped holdings
/// leaving no order.
pub open spec fn spec_spot_plan_matches(
    plan: Seq<PlannedOrder>,
    assets: Seq<SpotAsset>,
    quote: Seq<char>,
    suffix: Seq<char>,
    rules: Map<Seq<char>, LotSizeFilter>,
) -> bool
    decreases assets.len(),
{
    if assets.len() == 0 {
        plan.len() == 0
    } else {
        let qty = spec_spot_sale_qty(assets.last(), quote, suffix, rules);
        if qty > 0 {
            plan.len() > 0 && planned_order_is(
                plan.last(),
                assets.last().currency@ + suffix,
                MarketType::Spot,
                TradeSide::Sell,
                qty,
                false,
            ) && spec_spot_plan_matches(plan.drop_last(), assets.drop_last(), quote, suffix, rules)
        } else {
            spec_spot_plan_matches(plan, assets.drop_last(), quote, suffix, rules)
        }
    }
}

/// Plan the spot leg of a liquidation: sell every non-quote holding
/// with a positive clamped quantity on its `{asset}{suffix}` pair.
pub fn plan_spot_liquidation(
    assets: &Vec<SpotAsset>,
    quote: &str,
    suffix: &str,
    rules: &StrMap<LotSizeFilter>,
) -> (plan: Vec<PlannedOrder>)
    ensures
        spec_spot_plan_matches(plan@, assets@, quote@, suffix@, rules@),
{
    let mut plan: Vec<PlannedOrder> = Vec::new();
    let n = assets.len();
    let mut i: usize = 0;
    proof {
        assert(assets@.take(0) =~= Seq::<SpotAsset>::empty());
    }
    while i < n
        invariant
            n == assets@.len(),
            i <= n,
            spec_spot_plan_matches(plan@, assets@.take(i as int), quote@, suffix@, rules@),
        decreases n - i,
    {
        let asset = &assets[i];
        let ghost plan_before = plan@;
        if !crate::strutil::str_eq(asset.currency.as_str(), quote) && asset.available > 0 {
            let mut symbol = asset.currency.clone();
            symbol.append(suffix);
            let qty = match rules.get(symbol.as_str()) {
                Some(f) => crate::lot_size::clamp_quantity_with_filter(f, asset.available),
                None => asset.available,
            };
            if qty > 0 {
                plan.push(
                    PlannedOrder {
                        symbol,
                        market: MarketType::Spot,
                        side: TradeSide::Sell,
                        qty,
                        reduce_only: false,
                    },
                );
                proof {
                    assert(plan@.drop_last() =~= plan_before);
                }
            }
        }
        proof {
            assert(assets@.take(i + 1).drop_last() =~= assets@.take(i as int));
            assert(assets@.take(i + 1).last() == assets@[i as int]);
        }
        i += 1;
    }
    proof {
        assert(assets@.take(n as int) =~= assets@);
    }
    plan
}

/// The saturated magnitude of a signed position.
pub open spec fn spec_abs_amt(amt: i128) -> u64 {
    let a = if amt >= 0 {
        amt as int
    } else {
        -(amt as int)
    };
    if a > u64::MAX {
        u64::MAX
    } else {
        a as u64
    }
}

/// Whether one position is flattened, and at what clamped quantity.
pub open spec fn spec_position_close_qty(
    pos: FutureAsset,
    rules: Map<Seq<char>, LotSizeFilter>,
) -> u64 {
    if pos.position_amt == 0 {
        0
    } else {
        spec_clamp_cached(rules, pos.symbol@, spec_abs_amt(pos.position_amt))
    }
}

/// The futures leg of the sweep: one reduce-only market order per
/// open position, opposite to its direction.
pub open spec fn spec_futures_liquidation_plan(
    positions: Seq<FutureAsset>,
    rules: Map<Seq<char>, LotSizeFilter>,
) -> Seq<PlannedOrder>
    decreases positions.len(),
{
    if positions.len() == 0 {
        Seq::empty()
    } else {
        let rest = spec_futures_liquidation_plan(positions.drop_last(), rules);
        let pos = positions.last();
        let qty = spec_position_close_qty(pos, rules);
        if qty > 0 {
            rest + seq![
                PlannedOrder {
                    symbol: pos.symbol,
                    market: MarketType::Futures,
                    side: if pos.position_amt > 0 {
                        TradeSide::Sell
                    } else {
                        TradeSide::Buy
                    },
                    qty,
                    reduce_only: true,
                },
            ]
        } else {
            rest
        }
    }
}

/// Plan the futures leg of a liquidation: a reduce-only market order
/// against each open position.
pub fn plan_futures_liquidation(
    positions: &Vec<FutureAsset>,
    rules: &StrMap<LotSizeFilter>,
) -> (plan: Vec<PlannedOrder>)
    ensures
        plan@ == spec_futures_liquidation_plan(positions@, rules@),
{
    let mut plan: Vec<PlannedOrder> = Vec::new();
    let n = positions.len();
    let mut i: usize = 0;
    proof {
        assert(positions@.take(0) =~= Seq::<FutureAsset>::empty());
    }
    while i < n
        invariant
            n == positions@.len(),
            i <= n,
            plan@ == spec_futures_liquidation_plan(positions@.take(i as int), rules@),
        decreases n - i,
    {
        let pos = &positions[i];
        if pos.position_amt != 0 {
            let abs_qty: u64 = if pos.position_amt >= 0 {
                if pos.position_amt > u64::MAX as i128 {
                    u64::MAX
                } else {
                    pos.position_amt as u64
                }
            } else {
                if pos.position_amt < -(u64::MAX as i128) {
                    u64::MAX
                } else {
                    (-pos.position_amt) as u64
                }
            };
            let qty = match rules.get(pos.symbol.as_str()) {
                Some(f) => crate::lot_size::clamp_quantity_with_filter(f, abs_qty),
                None => abs_qty,
            };
            if qty > 0 {
                let side = if pos.position_amt > 0 {
                    TradeSide::Sell
                } else {
                    TradeSide::Buy
                };
                plan.push(
                    PlannedOrder {
                        symbol: pos.symbol.clone(),
                        market: MarketType::Futures,
                        side,
                        qty,
                        reduce_only: true,
                    },
                );
            }
        }
        proof {
            assert(positions@.take(i + 1).drop_last() =~= positions@.take(i as int));
            assert(positions@.take(i + 1).last() == positions@[i as int]);
        }
        i += 1;
    }
    proof {
        assert(positions@.take(n as int) =~= positions@);
    }
    plan
}

/// Liquidation is idempotent on a flat portfolio: over holdings that
/// are all in the quote currency or empty, and no open positions, the
/// sweep plans no orders at all — on this run and so on any repeat.
pub proof fn lemma_liquidation_idempotent_when_flat(
    assets: Seq<SpotAsset>,
    quote: Seq<char>,
    suffix: Seq<char>,
    positions: Seq<FutureAsset>,
    rules: Map<Seq<char>, LotSizeFilter>,
    plan: Seq<PlannedOrder>,
)
    requires
        forall|i: int|
            0 <= i < assets.len() ==> (#[trigger] assets[i]).currency@ == quote || assets[i]
                .available == 0,
        forall|i: int| 0 <= i < positions.len() ==> (#[trigger] positions[i]).position_amt == 0,
        spec_spot_plan_matches(plan, assets, quote, suffix, rules),
    ensures
        plan.len() == 0,
        spec_futures_liquidation_plan(positions, rules).len() == 0,
    decreases assets.len() + positions.len(),
{
    if assets.len() > 0 {
        assert(spec_spot_sale_qty(assets.last(), quote, suffix, rules) == 0);
        lemma_liquidation_idempotent_when_flat(
            assets.drop_last(),
            quote,
            suffix,
            positions,
            rules,
            plan,
        );
    } else if positions.len() > 0 {
        assert(spec_position_close_qty(positions.last(), rules) == 0);
        lemma_liquidation_idempotent_when_flat(
            assets,
            quote,
            suffix,
            positions.drop_last(),
            rules,
            plan,
        );
    }
}

} // verus!

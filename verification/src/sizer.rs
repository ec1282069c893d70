//! Hedged-pair sizing: the largest spot/futures order pair that both
//! lot-size grids accept and that leaves, after the spot fee, the
//! smallest residual directional delta.
//!
//! Quantities are 1e-8 units; the fee rate is a 1e-8 fraction of one.
//! Products of a quantity and a fee complement carry 1e-16 precision,
//! held exactly in 128-bit fields.

use vstd::prelude::*;
use vstd::math::abs;
use crate::lot_size::{LotSizeFilter, spec_clamp, clamp_quantity_with_filter, QTY_SCALE};

verus! {

/// How many times the sizer shrinks the futures candidate before
/// giving up.
pub const MAX_SIZER_ITERS: u64 = 50;

/// A sized pair of orders. `spot_net_scaled` and `delta_scaled` carry
/// 1e-16 units: the spot quantity net of fees, and the residual
/// `spot_net - futures` exposure.
#[derive(Debug, Clone, Copy, PartialEq, Eq, Structural)]
pub struct HedgedPair {
    pub spot_order_qty: u64,
    pub fut_order_qty: u64,
    pub spot_net_scaled: u128,
    pub delta_scaled: i128,
}

/// Clamp against a filter the venue may not have published: without
/// one, the quantity passes through unchanged.
pub open spec fn spec_clamp_opt(f: Option<LotSizeFilter>, qty: u64) -> u64 {
    match f {
        Some(filter) => spec_clamp(filter, qty),
        None => qty,
    }
}

/// The spot step used for the tolerance when the spot filter is
/// missing: the futures step, or one 1e-8 unit if that is zero too.
pub open spec fn spec_spot_step_eff(spot_f: Option<LotSizeFilter>, fut_f: LotSizeFilter) -> u64 {
    match spot_f {
        Some(filter) => filter.step_size,
        None => if fut_f.step_size > 0 {
            fut_f.step_size
        } else {
            1
        },
    }
}

/// The delta tolerance in 1e-8 units before halving: the smaller of
/// the two steps. The accepted bound is half of it.
pub open spec fn spec_tol_units(spot_f: Option<LotSizeFilter>, fut_f: LotSizeFilter) -> u64 {
    let s = spec_spot_step_eff(spot_f, fut_f);
    if s <= fut_f.step_size {
        s
    } else {
        fut_f.step_size
    }
}

/// Residual delta of a candidate pair in 1e-16 units:
/// `spot·(1−fee) − fut`.
pub open spec fn spec_delta(spot_order: u64, fut_order: u64, fee: u64) -> int {
    spot_order * (QTY_SCALE - fee) - fut_order * QTY_SCALE
}

/// The pair the sizer reports for accepted quantities.
pub open spec fn spec_pair(spot_order: u64, fut_order: u64, fee: u64) -> HedgedPair {
    HedgedPair {
        spot_order_qty: spot_order,
        fut_order_qty: fut_order,
        spot_net_scaled: (spot_order * (QTY_SCALE - fee)) as u128,
        delta_scaled: spec_delta(spot_order, fut_order, fee) as i128,
    }
}

/// One round of the search, shrinking the futures candidate by one
/// step on a miss: the recursive heart of the sizer.
pub open spec fn spec_sizer_search(
    spot_f: Option<LotSizeFilter>,
    fut_f: LotSizeFilter,
    fee: u64,
    fut_candidate: u64,
    iters: nat,
) -> Option<HedgedPair>
    recommends
        fee < QTY_SCALE,
    decreases iters,
{
    if iters == 0 || fut_candidate == 0 {
        None
    } else {
        let ideal = fut_candidate * QTY_SCALE / (QTY_SCALE - fee);
        if ideal > u64::MAX {
            None
        } else {
            let spot_order = spec_clamp_opt(spot_f, ideal as u64);
            if spot_order == 0 {
                None
            } else {
                let delta = spec_delta(spot_order, fut_candidate, fee);
                let tol = spec_tol_units(spot_f, fut_f);
                if 2 * abs(delta) <= tol * QTY_SCALE {
                    Some(spec_pair(spot_order, fut_candidate, fee))
                } else if fut_f.step_size == 0 {
                    None
                } else {
                    let next = if fut_candidate > fut_f.step_size {
                        spec_clamp(fut_f, (fut_candidate - fut_f.step_size) as u64)
                    } else {
                        0
                    };
                    if next == 0 || next == fut_candidate {
                        None
                    } else {
                        spec_sizer_search(spot_f, fut_f, fee, next, (iters - 1) as nat)
                    }
                }
            }
        }
    }
}

/// What the sizer returns: nothing without a futures filter, for a
/// zero target, or at a fee of 100% or more; otherwise the search
/// seeded with the clamped target.
pub open spec fn spec_find_hedged_pair(
    spot_f: Option<LotSizeFilter>,
    fut_f: Option<LotSizeFilter>,
    target_net_qty: u64,
    fee: u64,
) -> Option<HedgedPair> {
    match fut_f {
        None => None,
        Some(ff) => if fee >= QTY_SCALE || target_net_qty == 0 {
            None
        } else {
            spec_sizer_search(spot_f, ff, fee, spec_clamp(ff, target_net_qty), MAX_SIZER_ITERS as nat)
        },
    }
}

/// Quantise against an optional filter; without one the input passes
/// through, as an uncached symbol rule does.
pub fn clamp_opt(f: Option<LotSizeFilter>, qty: u64) -> (r: u64)
    ensures
        r == spec_clamp_opt(f, qty),
{
    match f {
        Some(filter) => clamp_quantity_with_filter(filter, qty),
        None => qty,
    }
}

/// Search for the largest hedged pair on both grids whose residual
/// delta, after the spot fee, is within half the finer step.
pub fn find_hedged_pair(
    spot_f: Option<LotSizeFilter>,
    fut_f: Option<LotSizeFilter>,
    target_net_qty: u64,
    spot_fee_rate: u64,
) -> (r: Option<HedgedPair>)
    ensures
        r == spec_find_hedged_pair(spot_f, fut_f, target_net_qty, spot_fee_rate),
{
    let ff = match fut_f {
        Some(ff) => ff,
        None => {
            return None;
        },
    };
    if spot_fee_rate >= QTY_SCALE || target_net_qty == 0 {
        return None;
    }
    let fee = spot_fee_rate;
    let mut fut_candidate = clamp_quantity_with_filter(ff, target_net_qty);
    let tol: u64 = {
        let s = match spot_f {
            Some(sf) => sf.step_size,
            None => if ff.step_size > 0 {
                ff.step_size
            } else {
                1
            },
        };
        if s <= ff.step_size {
            s
        } else {
            ff.step_size
        }
    };
    assert(tol == spec_tol_units(spot_f, ff));

    let mut k: u64 = 0;
    loop
        invariant
            fee < QTY_SCALE,
            tol == spec_tol_units(spot_f, ff),
            k <= MAX_SIZER_ITERS,
            spec_find_hedged_pair(spot_f, fut_f, target_net_qty, spot_fee_rate)
                == spec_sizer_search(spot_f, ff, fee, fut_candidate, (MAX_SIZER_ITERS - k) as nat),
        decreases MAX_SIZER_ITERS - k,
    {
        let ghost iters = (MAX_SIZER_ITERS - k) as nat;
        if k >= MAX_SIZER_ITERS || fut_candidate == 0 {
            return None;
        }
        let ideal128: u128 = (fut_candidate as u128) * (QTY_SCALE as u128) / ((QTY_SCALE - fee)
            as u128);
        assert(ideal128 == fut_candidate * QTY_SCALE / (QTY_SCALE - fee));
        if ideal128 > u64::MAX as u128 {
            return None;
        }
        let ideal: u64 = ideal128 as u64;
        let spot_order = clamp_opt(spot_f, ideal);
        if spot_order == 0 {
            return None;
        }
        proof {
            assert(spot_order * (QTY_SCALE - fee) <= u64::MAX * QTY_SCALE) by (nonlinear_arith)
                requires
                    spot_order <= u64::MAX,
                    0 <= QTY_SCALE - fee <= QTY_SCALE,
            ;
            assert(fut_candidate * QTY_SCALE <= u64::MAX * QTY_SCALE) by (nonlinear_arith)
                requires
                    fut_candidate <= u64::MAX,
            ;
        }
        let spot_net: u128 = (spot_order as u128) * ((QTY_SCALE - fee) as u128);
        let fut_scaled: u128 = (fut_candidate as u128) * (QTY_SCALE as u128);
        let delta: i128 = (spot_net as i128) - (fut_scaled as i128);
        assert(delta == spec_delta(spot_order, fut_candidate, fee));
        let adelta: u128 = if delta >= 0 {
            delta as u128
        } else {
            (-delta) as u128
        };
        assert(adelta == abs(spec_delta(spot_order, fut_candidate, fee)));
        if 2 * adelta <= (tol as u128) * (QTY_SCALE as u128) {
            let pair = HedgedPair {
                spot_order_qty: spot_order,
                fut_order_qty: fut_candidate,
                spot_net_scaled: spot_net,
                delta_scaled: delta,
            };
            assert(pair == spec_pair(spot_order, fut_candidate, fee));
            return Some(pair);
        }
        if ff.step_size == 0 {
            return None;
        }
        let next: u64 = if fut_candidate > ff.step_size {
            clamp_quantity_with_filter(ff, fut_candidate - ff.step_size)
        } else {
            0
        };
        if next == 0 || next == fut_candidate {
            return None;
        }
        fut_candidate = next;
        k += 1;
    }
}

/// The sizer's acceptance bound: any pair it returns has a residual
/// delta of at most half the finer lot-size step, and its recorded
/// net quantity and delta are exactly `spot·(1−fee)` and
/// `spot·(1−fee) − fut` in 1e-16 units.
pub proof fn lemma_sizer_delta_bound(
    spot_f: Option<LotSizeFilter>,
    fut_f: LotSizeFilter,
    fee: u64,
    fut_candidate: u64,
    iters: nat,
)
    requires
        fee < QTY_SCALE,
        spec_sizer_search(spot_f, fut_f, fee, fut_candidate, iters) is Some,
    ensures
        ({
            let p = spec_sizer_search(spot_f, fut_f, fee, fut_candidate, iters)->Some_0;
            &&& 2 * abs(p.delta_scaled as int) <= spec_tol_units(spot_f, fut_f) * QTY_SCALE
            &&& p.delta_scaled == spec_delta(p.spot_order_qty, p.fut_order_qty, fee)
            &&& p.spot_net_scaled == p.spot_order_qty * (QTY_SCALE - fee)
            &&& p.spot_order_qty > 0
            &&& p.fut_order_qty > 0
            &&& p.spot_order_qty == spec_clamp_opt(
                spot_f,
                (p.fut_order_qty * QTY_SCALE / (QTY_SCALE - fee)) as u64,
            )
        }),
    decreases iters,
{
    let ideal = fut_candidate * QTY_SCALE / (QTY_SCALE - fee);
    if iters == 0 || fut_candidate == 0 {
    } else if ideal > u64::MAX {
    } else {
        let spot_order = spec_clamp_opt(spot_f, ideal as u64);
        if spot_order == 0 {
        } else {
            let delta = spec_delta(spot_order, fut_candidate, fee);
            let tol = spec_tol_units(spot_f, fut_f);
            if 2 * abs(delta) <= tol * QTY_SCALE {
                assert(spot_order * (QTY_SCALE - fee) >= 0) by (nonlinear_arith)
                    requires
                        fee < QTY_SCALE,
                ;
                assert(abs(delta) <= tol * QTY_SCALE);
                assert(spot_order * (QTY_SCALE - fee) <= u64::MAX * QTY_SCALE)
                    by (nonlinear_arith)
                    requires
                        spot_order <= u64::MAX,
                        0 < QTY_SCALE - fee <= QTY_SCALE,
                ;
            } else if fut_f.step_size == 0 {
            } else {
                let next = if fut_candidate > fut_f.step_size {
                    spec_clamp(fut_f, (fut_candidate - fut_f.step_size) as u64)
                } else {
                    0
                };
                if next == 0 || next == fut_candidate {
                } else {
                    lemma_sizer_delta_bound(spot_f, fut_f, fee, next, (iters - 1) as nat);
                }
            }
        }
    }
}

/// The delta bound stated of the sizer's entry point: whatever pair
/// `find_hedged_pair` returns satisfies `|spot·(1−fee) − fut| ≤
/// ½·min(spotStep, futStep)` in 1e-16 units.
pub proof fn lemma_hedged_pair_delta_bound(
    spot_f: Option<LotSizeFilter>,
    fut_f: LotSizeFilter,
    target_net_qty: u64,
    fee: u64,
)
    requires
        spec_find_hedged_pair(spot_f, Some(fut_f), target_net_qty, fee) is Some,
    ensures
        ({
            let p = spec_find_hedged_pair(spot_f, Some(fut_f), target_net_qty, fee)->Some_0;
            &&& 2 * abs(p.delta_scaled as int) <= spec_tol_units(spot_f, fut_f) * QTY_SCALE
            &&& p.delta_scaled == spec_delta(p.spot_order_qty, p.fut_order_qty, fee)
        }),
{
    lemma_sizer_delta_bound(
        spot_f,
        fut_f,
        fee,
        spec_clamp(fut_f, target_net_qty),
        MAX_SIZER_ITERS as nat,
    );
}

} // verus!

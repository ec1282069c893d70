//! Per-symbol lot-size rules and quantity quantisation.
//!
//! A venue accepts an order quantity only if it lies on the symbol's
//! lot-size grid: at least `min_qty`, at most `max_qty`, and a whole
//! multiple of `step_size`. Quantities are fixed-point integers counting
//! 1e-8 units of the base asset, so flooring to the 8-decimal base
//! precision is the identity and every step computation is exact.

use vstd::prelude::*;

verus! {

/// One 1e-8 unit of quantity; `QTY_SCALE` units make one whole coin.
pub const QTY_SCALE: u64 = 100_000_000;

/// Lot-size rule for one symbol on one market, in 1e-8 units.
/// `step_size == 0` means the venue omitted the grid: only the
/// min/max bounds apply.
#[derive(Debug, Clone, Copy, PartialEq, Eq, Structural)]
pub struct LotSizeFilter {
    pub min_qty: u64,
    pub max_qty: u64,
    pub step_size: u64,
}

impl LotSizeFilter {
    /// The bounds are ordered; a venue never publishes min above max.
    pub open spec fn wf(self) -> bool {
        self.min_qty <= self.max_qty
    }

    /// The cap itself lies on the step grid, as venue filters do in
    /// practice; quantisation below the cap then stays on the grid.
    pub open spec fn max_on_grid(self) -> bool {
        self.step_size > 0 ==> self.max_qty % self.step_size == 0
    }
}

/// Largest multiple of `step` that is at most `q`.
pub open spec fn floor_to_step(q: u64, step: u64) -> u64
    recommends
        step > 0,
{
    ((q / step) * step) as u64
}

/// What the quantity clamp returns: 0 for dust, otherwise the largest
/// grid point at most `q`, capped at `max_qty`.
pub open spec fn spec_clamp(filter: LotSizeFilter, qty: u64) -> u64 {
    if qty == 0 {
        0
    } else {
        let stepped = if filter.step_size > 0 {
            floor_to_step(qty, filter.step_size)
        } else {
            qty
        };
        if stepped < filter.min_qty {
            0
        } else if stepped > filter.max_qty {
            filter.max_qty
        } else {
            stepped
        }
    }
}

proof fn lemma_floor_to_step_props(q: u64, step: u64)
    requires
        step > 0,
    ensures
        floor_to_step(q, step) <= q,
        floor_to_step(q, step) % step == 0,
        (q / step) * step == floor_to_step(q, step),
{
    let qi = q as int;
    let si = step as int;
    assert((qi / si) * si <= qi && ((qi / si) * si) % si == 0) by (nonlinear_arith)
        requires
            si > 0,
            qi >= 0,
    ;
}

proof fn lemma_multiple_floors_to_itself(q: u64, step: u64)
    requires
        step > 0,
        q % step == 0,
    ensures
        floor_to_step(q, step) == q,
{
    let qi = q as int;
    let si = step as int;
    assert(qi % si == 0 ==> (qi / si) * si == qi) by (nonlinear_arith)
        requires
            si > 0,
            qi >= 0,
    ;
}

/// Quantise a requested quantity to the symbol's lot-size grid.
///
/// A zero request stays zero; flooring to the 8-decimal base precision
/// is the identity in 1e-8 units; a grid-floored quantity below
/// `min_qty` is dust and becomes 0; one above `max_qty` is capped.
pub fn clamp_quantity_with_filter(filter: LotSizeFilter, qty: u64) -> (r: u64)
    ensures
        r == spec_clamp(filter, qty),
{
    if qty == 0 {
        return 0;
    }
    let mut q = qty;
    if filter.step_size > 0 {
        proof {
            lemma_floor_to_step_props(qty, filter.step_size);
        }
        q = (q / filter.step_size) * filter.step_size;
    }
    if q < filter.min_qty {
        return 0;
    }
    if q > filter.max_qty {
        q = filter.max_qty;
    }
    q
}

/// The clamp lands in `{0} ∪ [min_qty, max_qty]`, and on the step grid.
pub proof fn lemma_clamp_in_range(filter: LotSizeFilter, qty: u64)
    requires
        filter.wf(),
        filter.max_on_grid(),
    ensures
        spec_clamp(filter, qty) == 0 || (filter.min_qty <= spec_clamp(filter, qty)
            && spec_clamp(filter, qty) <= filter.max_qty),
        filter.step_size > 0 ==> spec_clamp(filter, qty) % filter.step_size == 0,
{
    let r = spec_clamp(filter, qty);
    if filter.step_size > 0 {
        assert(0u64 % filter.step_size == 0) by (nonlinear_arith)
            requires
                filter.step_size > 0,
        ;
        if qty != 0 {
            lemma_floor_to_step_props(qty, filter.step_size);
            let stepped = floor_to_step(qty, filter.step_size);
            if stepped < filter.min_qty {
                assert(r == 0);
            } else if stepped > filter.max_qty {
                assert(r == filter.max_qty);
            } else {
                assert(r == stepped);
            }
        }
        assert(r % filter.step_size == 0);
    }
}

/// Clamping is idempotent: a quantity the clamp has already accepted
/// is returned unchanged when clamped again.
pub proof fn lemma_clamp_idempotent(filter: LotSizeFilter, qty: u64)
    requires
        filter.wf(),
        filter.max_on_grid(),
    ensures
        spec_clamp(filter, spec_clamp(filter, qty)) == spec_clamp(filter, qty),
{
    let r = spec_clamp(filter, qty);
    if qty != 0 && r != 0 {
        if filter.step_size > 0 {
            lemma_floor_to_step_props(qty, filter.step_size);
            lemma_multiple_floors_to_itself(r, filter.step_size);
        }
    }
}

} // verus!

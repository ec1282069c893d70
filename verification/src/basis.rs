//! The basis state machine: polls the spread between futures mark and
//! spot, opens a hedged position when it leaves the entry band, and
//! closes it when it mean-reverts inside the exit band.
//!
//! The basis in basis points is `(mark − spot) / spot · 10⁴`. All
//! trigger comparisons cross-multiply, so no rounding ever moves a
//! decision.

use vstd::prelude::*;
use crate::records::TradeSide;

verus! {

/// Where the strategy stands for its symbol.
#[derive(Debug, Clone, Copy, PartialEq, Eq, Structural)]
pub enum ArbitrageState {
    Flat,
    LongBasis,
    ShortBasis,
}

/// Carry is long spot and short futures; reverse is the mirror.
#[derive(Debug, Clone, Copy, PartialEq, Eq, Structural)]
pub enum CarryKind {
    Carry,
    Reverse,
}

/// A transition opens a position or closes one.
#[derive(Debug, Clone, Copy, PartialEq, Eq, Structural)]
pub enum PositionAction {
    Open,
    Close,
}

/// Intra-exchange basis, or the same play across two venues.
#[derive(Debug, Clone, Copy, PartialEq, Eq, Structural)]
pub enum StrategyMode {
    IntraBasis,
    CrossBasis,
}

/// What one poll of the basis decides: the legs to trade and the
/// state to move to. Closing trades the futures leg reduce-only.
#[derive(Debug, Clone, Copy, PartialEq, Eq, Structural)]
pub struct Transition {
    pub carry: CarryKind,
    pub action: PositionAction,
    pub spot_side: TradeSide,
    pub fut_side: TradeSide,
    pub reduce_only: bool,
    pub next_state: ArbitrageState,
}

/// Strategy parameters for one symbol. Thresholds are whole basis
/// points; the notional is in 1e-8 quote units.
#[derive(Debug, Clone)]
pub struct StrategyParams {
    pub symbol: String,
    pub mode: StrategyMode,
    pub entry_bps: u32,
    pub exit_bps: u32,
    pub notional: u64,
    pub leverage: u32,
    pub isolated: bool,
    pub dry_run: bool,
}

impl StrategyParams {
    /// The entry band lies strictly outside the exit band.
    pub open spec fn wf(self) -> bool {
        self.entry_bps > self.exit_bps
    }
}

/// The basis is at or above `bps` basis points:
/// `(mark − spot)·10⁴ ≥ bps·spot`.
pub open spec fn basis_at_least(spot: u64, mark: u64, bps: int) -> bool {
    (mark - spot) * 10_000 >= bps * spot
}

/// The basis is at or below `bps` basis points:
/// `(mark − spot)·10⁴ ≤ bps·spot`.
pub open spec fn basis_at_most(spot: u64, mark: u64, bps: int) -> bool {
    (mark - spot) * 10_000 <= bps * spot
}

/// The carry-open legs: buy spot, sell futures.
pub open spec fn spec_carry_open(next: ArbitrageState) -> Transition {
    Transition {
        carry: CarryKind::Carry,
        action: PositionAction::Open,
        spot_side: TradeSide::Buy,
        fut_side: TradeSide::Sell,
        reduce_only: false,
        next_state: next,
    }
}

/// The reverse-open legs: sell spot, buy futures.
pub open spec fn spec_reverse_open(next: ArbitrageState) -> Transition {
    Transition {
        carry: CarryKind::Reverse,
        action: PositionAction::Open,
        spot_side: TradeSide::Sell,
        fut_side: TradeSide::Buy,
        reduce_only: false,
        next_state: next,
    }
}

/// The carry-close legs: sell spot, buy futures back reduce-only.
pub open spec fn spec_carry_close(next: ArbitrageState) -> Transition {
    Transition {
        carry: CarryKind::Carry,
        action: PositionAction::Close,
        spot_side: TradeSide::Sell,
        fut_side: TradeSide::Buy,
        reduce_only: true,
        next_state: next,
    }
}

/// The reverse-close legs: buy spot, sell futures back reduce-only.
pub open spec fn spec_reverse_close(next: ArbitrageState) -> Transition {
    Transition {
        carry: CarryKind::Reverse,
        action: PositionAction::Close,
        spot_side: TradeSide::Buy,
        fut_side: TradeSide::Sell,
        reduce_only: true,
        next_state: next,
    }
}

/// The transition one basis reading triggers, if any: from flat, a
/// basis at or beyond ±entry opens carry or reverse; from a position,
/// a basis back inside ±exit closes it.
pub open spec fn spec_decide(
    state: ArbitrageState,
    spot: u64,
    mark: u64,
    entry_bps: u32,
    exit_bps: u32,
) -> Option<Transition> {
    match state {
        ArbitrageState::Flat => if basis_at_least(spot, mark, entry_bps as int) {
            Some(spec_carry_open(ArbitrageState::LongBasis))
        } else if basis_at_most(spot, mark, -(entry_bps as int)) {
            Some(spec_reverse_open(ArbitrageState::ShortBasis))
        } else {
            None
        },
        ArbitrageState::LongBasis => if basis_at_most(spot, mark, exit_bps as int) {
            Some(spec_carry_close(ArbitrageState::Flat))
        } else {
            None
        },
        ArbitrageState::ShortBasis => if basis_at_least(spot, mark, -(exit_bps as int)) {
            Some(spec_reverse_close(ArbitrageState::Flat))
        } else {
            None
        },
    }
}

/// Decide the next transition from one basis reading. Prices are 1e-8
/// units and the spot price must be positive; thresholds are whole
/// basis points.
pub fn decide_transition(
    state: ArbitrageState,
    spot_price: u64,
    futures_mark: u64,
    entry_bps: u32,
    exit_bps: u32,
) -> (r: Option<Transition>)
    requires
        spot_price > 0,
    ensures
        r == spec_decide(state, spot_price, futures_mark, entry_bps, exit_bps),
{
    proof {
        assert(entry_bps * spot_price <= u32::MAX * (u64::MAX as int)) by (nonlinear_arith)
            requires
                entry_bps <= u32::MAX,
                spot_price <= u64::MAX,
        ;
        assert(exit_bps * spot_price <= u32::MAX * (u64::MAX as int)) by (nonlinear_arith)
            requires
                exit_bps <= u32::MAX,
                spot_price <= u64::MAX,
        ;
    }
    let diff: i128 = (futures_mark as i128) - (spot_price as i128);
    let lhs: i128 = diff * 10_000;
    let entry_rhs: i128 = (entry_bps as i128) * (spot_price as i128);
    let exit_rhs: i128 = (exit_bps as i128) * (spot_price as i128);
    proof {
        assert(lhs == (futures_mark - spot_price) * 10_000);
        assert(entry_rhs == entry_bps * spot_price);
        assert(exit_rhs == exit_bps * spot_price);
        assert((lhs >= entry_rhs) == basis_at_least(spot_price, futures_mark, entry_bps as int));
        assert((lhs <= -entry_rhs) == basis_at_most(spot_price, futures_mark, -(entry_bps as int)))
            by (nonlinear_arith)
            requires
                lhs == (futures_mark - spot_price) * 10_000,
                entry_rhs == entry_bps * spot_price,
        ;
        assert((lhs <= exit_rhs) == basis_at_most(spot_price, futures_mark, exit_bps as int));
        assert((lhs >= -exit_rhs) == basis_at_least(spot_price, futures_mark, -(exit_bps as int)))
            by (nonlinear_arith)
            requires
                lhs == (futures_mark - spot_price) * 10_000,
                exit_rhs == exit_bps * spot_price,
        ;
    }
    match state {
        ArbitrageState::Flat => {
            if lhs >= entry_rhs {
                Some(
                    Transition {
                        carry: CarryKind::Carry,
                        action: PositionAction::Open,
                        spot_side: TradeSide::Buy,
                        fut_side: TradeSide::Sell,
                        reduce_only: false,
                        next_state: ArbitrageState::LongBasis,
                    },
                )
            } else if lhs <= -entry_rhs {
                Some(
                    Transition {
                        carry: CarryKind::Reverse,
                        action: PositionAction::Open,
                        spot_side: TradeSide::Sell,
                        fut_side: TradeSide::Buy,
                        reduce_only: false,
                        next_state: ArbitrageState::ShortBasis,
                    },
                )
            } else {
                None
            }
        },
        ArbitrageState::LongBasis => {
            if lhs <= exit_rhs {
                Some(
                    Transition {
                        carry: CarryKind::Carry,
                        action: PositionAction::Close,
                        spot_side: TradeSide::Sell,
                        fut_side: TradeSide::Buy,
                        reduce_only: true,
                        next_state: ArbitrageState::Flat,
                    },
                )
            } else {
                None
            }
        },
        ArbitrageState::ShortBasis => {
            if lhs >= -exit_rhs {
                Some(
                    Transition {
                        carry: CarryKind::Reverse,
                        action: PositionAction::Close,
                        spot_side: TradeSide::Buy,
                        fut_side: TradeSide::Sell,
                        reduce_only: true,
                        next_state: ArbitrageState::Flat,
                    },
                )
            } else {
                None
            }
        },
    }
}

/// The whole basis points a reading is worth, truncated toward zero,
/// as the strategy logs it.
pub open spec fn spec_basis_bps(spot: u64, mark: u64) -> int {
    if mark >= spot {
        (mark - spot) * 10_000 / spot as int
    } else {
        -((spot - mark) * 10_000 / spot as int)
    }
}

/// The basis of a reading in whole basis points, truncated toward
/// zero.
pub fn basis_bps(spot_price: u64, futures_mark: u64) -> (r: i128)
    requires
        spot_price > 0,
    ensures
        r == spec_basis_bps(spot_price, futures_mark),
{
    if futures_mark >= spot_price {
        let diff: u128 = (futures_mark - spot_price) as u128;
        let bps: u128 = diff * 10_000 / (spot_price as u128);
        proof {
            lemma_bps_bound(diff as int, spot_price as int);
        }
        bps as i128
    } else {
        let diff: u128 = (spot_price - futures_mark) as u128;
        let bps: u128 = diff * 10_000 / (spot_price as u128);
        proof {
            lemma_bps_bound(diff as int, spot_price as int);
        }
        -(bps as i128)
    }
}

proof fn lemma_bps_bound(diff: int, spot: int)
    requires
        0 <= diff <= u64::MAX,
        spot >= 1,
    ensures
        0 <= diff * 10_000 / spot <= u64::MAX * 10_000,
{
    assert(0 <= diff * 10_000 / spot <= diff * 10_000) by (nonlinear_arith)
        requires
            diff >= 0,
            spot >= 1,
    ;
    assert(diff * 10_000 <= u64::MAX * 10_000) by (nonlinear_arith)
        requires
            diff <= u64::MAX,
    ;
}

/// A decision is never an open and a close at once: every transition
/// out of flat opens, every transition out of a position closes and
/// trades the futures leg reduce-only.
pub proof fn lemma_decide_shape(
    state: ArbitrageState,
    spot: u64,
    mark: u64,
    entry_bps: u32,
    exit_bps: u32,
)
    ensures
        ({
            let r = spec_decide(state, spot, mark, entry_bps, exit_bps);
            r is Some ==> {
                let t = r->Some_0;
                &&& (t.action == PositionAction::Open <==> state == ArbitrageState::Flat)
                &&& (t.action == PositionAction::Open <==> t.next_state != ArbitrageState::Flat)
                &&& (t.action == PositionAction::Close <==> t.reduce_only)
                &&& t.spot_side != t.fut_side
            }
        }),
{
}

} // verus!

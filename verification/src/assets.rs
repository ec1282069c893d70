//! Account state as the engine reads it: spot balances and futures
//! positions, converted exactly from the venue's decimal texts.

use vstd::prelude::*;
use crate::decimal::{parse_qty, parse_signed_qty, spec_parse_qty, spec_parse_signed_qty};

verus! {

/// One balance line as the venue's account endpoint sends it.
#[derive(Debug, Clone)]
pub struct RawBalance {
    pub asset: String,
    pub free: String,
    pub locked: String,
}

/// One position line as the venue's position-risk endpoint sends it.
#[derive(Debug, Clone)]
pub struct RawPosition {
    pub symbol: String,
    pub position_amt: String,
}

/// A spot holding in 1e-8 units. `total` is the saturating sum of
/// available and in-use.
#[derive(Debug, Clone)]
pub struct SpotAsset {
    pub currency: String,
    pub total: u64,
    pub available: u64,
    pub in_use: u64,
    pub updated_at_ms: i64,
}

/// A futures position in signed 1e-8 units: positive long, negative
/// short.
#[derive(Debug, Clone)]
pub struct FutureAsset {
    pub symbol: String,
    pub position_amt: i128,
    pub updated_at_ms: i64,
}

/// Sum capped at the largest representable quantity.
pub open spec fn sat_add_u64(a: u64, b: u64) -> u64 {
    if a + b > u64::MAX {
        u64::MAX
    } else {
        (a + b) as u64
    }
}

/// A balance text in 1e-8 units; unreadable text counts as zero.
pub open spec fn spec_qty_or_zero(s: Seq<char>) -> u64 {
    match spec_parse_qty(s) {
        Some(v) => v,
        None => 0,
    }
}

/// The holdings a balance listing denotes: one asset per line whose
/// total is positive, timestamped with the read.
pub open spec fn spec_assets_of(rows: Seq<RawBalance>, now_ms: i64) -> Seq<SpotAsset>
    decreases rows.len(),
{
    if rows.len() == 0 {
        Seq::empty()
    } else {
        let row = rows.last();
        let free = spec_qty_or_zero(row.free@);
        let locked = spec_qty_or_zero(row.locked@);
        let total = sat_add_u64(free, locked);
        spec_assets_of(rows.drop_last(), now_ms) + if total > 0 {
            seq![
                SpotAsset {
                    currency: row.asset,
                    total,
                    available: free,
                    in_use: locked,
                    updated_at_ms: now_ms,
                },
            ]
        } else {
            Seq::empty()
        }
    }
}

/// Convert a balance listing, dropping empty lines: exactly the rows
/// with a positive total survive, with `total = available + in_use`.
pub fn convert_balances(rows: &Vec<RawBalance>, now_ms: i64) -> (r: Vec<SpotAsset>)
    ensures
        r@ == spec_assets_of(rows@, now_ms),
{
    let mut out: Vec<SpotAsset> = Vec::new();
    let n = rows.len();
    let mut i: usize = 0;
    proof {
        assert(rows@.take(0) =~= Seq::<RawBalance>::empty());
    }
    while i < n
        invariant
            n == rows@.len(),
            i <= n,
            out@ == spec_assets_of(rows@.take(i as int), now_ms),
        decreases n - i,
    {
        let row = &rows[i];
        let free = match parse_qty(row.free.as_str()) {
            Some(v) => v,
            None => 0,
        };
        let locked = match parse_qty(row.locked.as_str()) {
            Some(v) => v,
            None => 0,
        };
        let total128: u128 = (free as u128) + (locked as u128);
        let total: u64 = if total128 > u64::MAX as u128 {
            u64::MAX
        } else {
            total128 as u64
        };
        if total > 0 {
            out.push(
                SpotAsset {
                    currency: row.asset.clone(),
                    total,
                    available: free,
                    in_use: locked,
                    updated_at_ms: now_ms,
                },
            );
        }
        proof {
            assert(rows@.take(i + 1).drop_last() =~= rows@.take(i as int));
            assert(rows@.take(i + 1).last() == rows@[i as int]);
        }
        i += 1;
    }
    proof {
        assert(rows@.take(n as int) =~= rows@);
    }
    out
}

/// The signed 1e-8 value a position text denotes; unreadable text
/// counts as zero.
pub open spec fn spec_position_amt(s: Seq<char>) -> int {
    match spec_parse_signed_qty(s) {
        Some((neg, mag)) => if neg {
            -(mag as int)
        } else {
            mag as int
        },
        None => 0,
    }
}

/// The open positions a listing denotes: exactly the lines with a
/// nonzero amount.
pub open spec fn spec_positions_of(rows: Seq<RawPosition>, now_ms: i64) -> Seq<FutureAsset>
    decreases rows.len(),
{
    if rows.len() == 0 {
        Seq::empty()
    } else {
        let row = rows.last();
        let amt = spec_position_amt(row.position_amt@);
        spec_positions_of(rows.drop_last(), now_ms) + if amt != 0 {
            seq![
                FutureAsset {
                    symbol: row.symbol,
                    position_amt: amt as i128,
                    updated_at_ms: now_ms,
                },
            ]
        } else {
            Seq::empty()
        }
    }
}

/// Convert a position listing, dropping flat lines.
pub fn convert_positions(rows: &Vec<RawPosition>, now_ms: i64) -> (r: Vec<FutureAsset>)
    ensures
        r@ == spec_positions_of(rows@, now_ms),
{
    let mut out: Vec<FutureAsset> = Vec::new();
    let n = rows.len();
    let mut i: usize = 0;
    proof {
        assert(rows@.take(0) =~= Seq::<RawPosition>::empty());
    }
    while i < n
        invariant
            n == rows@.len(),
            i <= n,
            out@ == spec_positions_of(rows@.take(i as int), now_ms),
        decreases n - i,
    {
        let row = &rows[i];
        let amt: i128 = match parse_signed_qty(row.position_amt.as_str()) {
            Some((neg, mag)) => if neg {
                -(mag as i128)
            } else {
                mag as i128
            },
            None => 0,
        };
        if amt != 0 {
            out.push(
                FutureAsset { symbol: row.symbol.clone(), position_amt: amt, updated_at_ms: now_ms },
            );
        }
        proof {
            assert(rows@.take(i + 1).drop_last() =~= rows@.take(i as int));
            assert(rows@.take(i + 1).last() == rows@[i as int]);
        }
        i += 1;
    }
    proof {
        assert(rows@.take(n as int) =~= rows@);
    }
    out
}

/// The available balance of the first holding in a given currency,
/// or zero without one.
pub open spec fn spec_available_of(assets: Seq<SpotAsset>, currency: Seq<char>) -> u64
    decreases assets.len(),
{
    if assets.len() == 0 {
        0
    } else if assets[0].currency@ == currency {
        assets[0].available
    } else {
        spec_available_of(assets.drop_first(), currency)
    }
}

/// Find the available balance for a currency in a holdings list.
pub fn find_available_balance(assets: &Vec<SpotAsset>, currency: &str) -> (r: u64)
    ensures
        r == spec_available_of(assets@, currency@),
{
    let n = assets.len();
    let mut i: usize = 0;
    proof {
        assert(assets@.skip(0) =~= assets@);
    }
    while i < n
        invariant
            n == assets@.len(),
            i <= n,
            spec_available_of(assets@, currency@) == spec_available_of(
                assets@.skip(i as int),
                currency@,
            ),
        decreases n - i,
    {
        proof {
            assert(assets@.skip(i as int)[0] == assets@[i as int]);
            assert(assets@.skip(i as int).drop_first() =~= assets@.skip(i + 1));
        }
        if crate::strutil::str_eq(assets[i].currency.as_str(), currency) {
            return assets[i].available;
        }
        i += 1;
    }
    proof {
        assert(assets@.skip(n as int) =~= Seq::<SpotAsset>::empty());
    }
    0
}

} // verus!

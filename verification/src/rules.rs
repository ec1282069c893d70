//! The symbol-rule cache: per-symbol lot-size filters loaded from the
//! venue's exchange information, and quantity clamping against them.
//!
//! The cache is authoritative: clamping a symbol it does not hold
//! passes the quantity through unchanged, the event a caller logs at
//! warning level.

use vstd::prelude::*;
use crate::assoc::StrMap;
use crate::client::BinanceClient;
use crate::decimal::{parse_qty, spec_parse_qty};
use crate::lot_size::{LotSizeFilter, spec_clamp, clamp_quantity_with_filter, QTY_SCALE};

verus! {

/// One symbol's lot-size texts as the venue's exchange information
/// carries them.
#[derive(Debug, Clone)]
pub struct LotSizeEntry {
    pub symbol: String,
    pub min_qty: String,
    pub max_qty: String,
    pub step_size: String,
}

/// The filter an exchange-information entry denotes: unreadable
/// bounds fall back to no minimum, no maximum, and a one-unit step.
pub open spec fn spec_filter_of_entry(e: LotSizeEntry) -> LotSizeFilter {
    LotSizeFilter {
        min_qty: match spec_parse_qty(e.min_qty@) {
            Some(v) => v,
            None => 0,
        },
        max_qty: match spec_parse_qty(e.max_qty@) {
            Some(v) => v,
            None => u64::MAX,
        },
        step_size: match spec_parse_qty(e.step_size@) {
            Some(v) => v,
            None => QTY_SCALE,
        },
    }
}

/// The rule map a list of exchange-information entries loads to:
/// later entries for a symbol shadow earlier ones.
pub open spec fn spec_rules_of(entries: Seq<LotSizeEntry>) -> Map<Seq<char>, LotSizeFilter>
    decreases entries.len(),
{
    if entries.len() == 0 {
        Map::empty()
    } else {
        spec_rules_of(entries.drop_last()).insert(
            entries.last().symbol@,
            spec_filter_of_entry(entries.last()),
        )
    }
}

/// Turn one entry's texts into a filter.
pub fn filter_of_entry(e: &LotSizeEntry) -> (r: LotSizeFilter)
    ensures
        r == spec_filter_of_entry(*e),
{
    let min_qty = match parse_qty(e.min_qty.as_str()) {
        Some(v) => v,
        None => 0,
    };
    let max_qty = match parse_qty(e.max_qty.as_str()) {
        Some(v) => v,
        None => u64::MAX,
    };
    let step_size = match parse_qty(e.step_size.as_str()) {
        Some(v) => v,
        None => QTY_SCALE,
    };
    LotSizeFilter { min_qty, max_qty, step_size }
}

/// Rebuild a rule cache from the venue's exchange information:
/// afterwards the cache maps exactly the listed symbols to their
/// filters.
pub fn load_rule_cache(cache: &mut StrMap<LotSizeFilter>, entries: &Vec<LotSizeEntry>)
    ensures
        final(cache)@ == spec_rules_of(entries@),
{
    cache.clear();
    let n = entries.len();
    let mut i: usize = 0;
    while i < n
        invariant
            n == entries@.len(),
            i <= n,
            cache@ == spec_rules_of(entries@.take(i as int)),
        decreases n - i,
    {
        let e = &entries[i];
        let filter = filter_of_entry(e);
        cache.insert(e.symbol.clone(), filter);
        proof {
            assert(entries@.take(i + 1).drop_last() =~= entries@.take(i as int));
            assert(entries@.take(i + 1).last() == entries@[i as int]);
        }
        i += 1;
    }
    proof {
        assert(entries@.take(n as int) =~= entries@);
    }
}

/// Clamp a quantity against the cached rule for a symbol; without a
/// cached rule the quantity passes through unchanged.
pub open spec fn spec_clamp_cached(
    rules: Map<Seq<char>, LotSizeFilter>,
    symbol: Seq<char>,
    qty: u64,
) -> u64 {
    if rules.contains_key(symbol) {
        spec_clamp(rules[symbol], qty)
    } else {
        qty
    }
}

/// The spot side of the venue: its credentials and its lot-size
/// rules.
pub struct BinanceSpotApi {
    pub client: BinanceClient,
    pub lot_size_cache: StrMap<LotSizeFilter>,
}

/// The futures side of the venue: its credentials and its lot-size
/// rules.
pub struct BinanceFuturesApi {
    pub client: BinanceClient,
    pub lot_size_cache: StrMap<LotSizeFilter>,
}

impl BinanceSpotApi {
    /// A spot surface with an empty rule cache.
    pub fn new(client: BinanceClient) -> (r: BinanceSpotApi)
        ensures
            r.lot_size_cache@ == Map::<Seq<char>, LotSizeFilter>::empty(),
            r.client == client,
    {
        BinanceSpotApi { client, lot_size_cache: StrMap::new() }
    }

    /// Fill the rule cache from spot exchange information.
    pub fn load_exchange_info(&mut self, entries: &Vec<LotSizeEntry>)
        ensures
            final(self).lot_size_cache@ == spec_rules_of(entries@),
            final(self).client == old(self).client,
    {
        load_rule_cache(&mut self.lot_size_cache, entries);
    }

    /// The cached lot-size rule for a symbol, if loaded.
    pub fn get_lot_size(&self, symbol: &str) -> (r: Option<LotSizeFilter>)
        ensures
            r == if self.lot_size_cache@.contains_key(symbol@) {
                Some(self.lot_size_cache@[symbol@])
            } else {
                None
            },
    {
        self.lot_size_cache.get(symbol)
    }

    /// Clamp a spot quantity to the symbol's grid; an unknown symbol
    /// passes through.
    pub fn clamp_quantity(&self, symbol: &str, qty: u64) -> (r: u64)
        ensures
            r == spec_clamp_cached(self.lot_size_cache@, symbol@, qty),
    {
        match self.get_lot_size(symbol) {
            Some(filter) => clamp_quantity_with_filter(filter, qty),
            None => qty,
        }
    }
}

impl BinanceFuturesApi {
    /// A futures surface with an empty rule cache.
    pub fn new(client: BinanceClient) -> (r: BinanceFuturesApi)
        ensures
            r.lot_size_cache@ == Map::<Seq<char>, LotSizeFilter>::empty(),
            r.client == client,
    {
        BinanceFuturesApi { client, lot_size_cache: StrMap::new() }
    }

    /// Fill the rule cache from futures exchange information.
    pub fn load_exchange_info(&mut self, entries: &Vec<LotSizeEntry>)
        ensures
            final(self).lot_size_cache@ == spec_rules_of(entries@),
            final(self).client == old(self).client,
    {
        load_rule_cache(&mut self.lot_size_cache, entries);
    }

    /// The cached lot-size rule for a symbol, if loaded.
    pub fn get_lot_size(&self, symbol: &str) -> (r: Option<LotSizeFilter>)
        ensures
            r == if self.lot_size_cache@.contains_key(symbol@) {
                Some(self.lot_size_cache@[symbol@])
            } else {
                None
            },
    {
        self.lot_size_cache.get(symbol)
    }

    /// Clamp a futures quantity to the symbol's grid; an unknown
    /// symbol passes through.
    pub fn clamp_quantity(&self, symbol: &str, qty: u64) -> (r: u64)
        ensures
            r == spec_clamp_cached(self.lot_size_cache@, symbol@, qty),
    {
        match self.get_lot_size(symbol) {
            Some(filter) => clamp_quantity_with_filter(filter, qty),
            None => qty,
        }
    }
}

} // verus!

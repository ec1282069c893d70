//! The live price state: per-symbol spot and futures-mark prices kept
//! warm by streams, read on the trading hot path, and refreshed over
//! HTTP when cold. The per-symbol update stamp never moves backwards.

use vstd::prelude::*;
use crate::assoc::StrMap;
use crate::client::ExchangeError;
use crate::decimal::{parse_qty, spec_parse_qty};
use crate::strutil::str_eq;

verus! {

/// What the feed knows about one symbol.
#[derive(Debug, Clone, Copy, PartialEq, Eq, Structural)]
pub struct PriceState {
    pub spot_price: Option<u64>,
    pub futures_mark_price: Option<u64>,
    pub last_updated_ms: Option<i64>,
}

/// The state a symbol starts from: nothing known.
pub open spec fn spec_empty_price_state() -> PriceState {
    PriceState { spot_price: None, futures_mark_price: None, last_updated_ms: None }
}

/// The stamp a state carries, or the epoch when it has none.
pub open spec fn spec_stamp_of(st: PriceState) -> i64 {
    match st.last_updated_ms {
        Some(t) => t,
        None => 0,
    }
}

/// The stamp after an update at `now_ms`: it advances to `now_ms`
/// unless the state was already newer.
pub open spec fn spec_next_stamp(st: PriceState, now_ms: i64) -> i64 {
    if spec_stamp_of(st) >= now_ms {
        spec_stamp_of(st)
    } else {
        now_ms
    }
}

/// The per-symbol price cache.
pub struct BinancePriceFeed {
    pub price_state: StrMap<PriceState>,
}

/// The state the feed holds for a symbol, empty when unseen.
pub open spec fn spec_state_of(m: Map<Seq<char>, PriceState>, symbol: Seq<char>) -> PriceState {
    if m.contains_key(symbol) {
        m[symbol]
    } else {
        spec_empty_price_state()
    }
}

impl BinancePriceFeed {
    /// A feed that knows nothing yet.
    pub fn new() -> (r: BinancePriceFeed)
        ensures
            r.price_state@ == Map::<Seq<char>, PriceState>::empty(),
    {
        BinancePriceFeed { price_state: StrMap::new() }
    }

    /// The cached spot price, if the feed has one.
    pub fn get_spot_price(&self, symbol: &str) -> (r: Option<u64>)
        ensures
            r == spec_state_of(self.price_state@, symbol@).spot_price,
    {
        match self.price_state.get(symbol) {
            Some(st) => st.spot_price,
            None => None,
        }
    }

    /// The cached futures mark price, if the feed has one.
    pub fn get_futures_mark_price(&self, symbol: &str) -> (r: Option<u64>)
        ensures
            r == spec_state_of(self.price_state@, symbol@).futures_mark_price,
    {
        match self.price_state.get(symbol) {
            Some(st) => st.futures_mark_price,
            None => None,
        }
    }

    /// Record a spot price: the mark price stays, and the stamp
    /// advances monotonically.
    pub fn record_spot_price(&mut self, symbol: &str, price: u64, now_ms: i64)
        ensures
            ({
                let before = spec_state_of(old(self).price_state@, symbol@);
                final(self).price_state@ == old(self).price_state@.insert(
                    symbol@,
                    PriceState {
                        spot_price: Some(price),
                        futures_mark_price: before.futures_mark_price,
                        last_updated_ms: Some(spec_next_stamp(before, now_ms)),
                    },
                )
            }),
    {
        let before = match self.price_state.get(symbol) {
            Some(st) => st,
            None => PriceState {
                spot_price: None,
                futures_mark_price: None,
                last_updated_ms: None,
            },
        };
        let old_stamp: i64 = match before.last_updated_ms {
            Some(t) => t,
            None => 0,
        };
        let stamp: i64 = if old_stamp >= now_ms {
            old_stamp
        } else {
            now_ms
        };
        self.price_state.insert(
            String::from_str(symbol),
            PriceState {
                spot_price: Some(price),
                futures_mark_price: before.futures_mark_price,
                last_updated_ms: Some(stamp),
            },
        );
    }

    /// Record a futures mark price: the spot price stays, and the
    /// stamp advances monotonically.
    pub fn record_futures_mark_price(&mut self, symbol: &str, price: u64, now_ms: i64)
        ensures
            ({
                let before = spec_state_of(old(self).price_state@, symbol@);
                final(self).price_state@ == old(self).price_state@.insert(
                    symbol@,
                    PriceState {
                        spot_price: before.spot_price,
                        futures_mark_price: Some(price),
                        last_updated_ms: Some(spec_next_stamp(before, now_ms)),
                    },
                )
            }),
    {
        let before = match self.price_state.get(symbol) {
            Some(st) => st,
            None => PriceState {
                spot_price: None,
                futures_mark_price: None,
                last_updated_ms: None,
            },
        };
        let old_stamp: i64 = match before.last_updated_ms {
            Some(t) => t,
            None => 0,
        };
        let stamp: i64 = if old_stamp >= now_ms {
            old_stamp
        } else {
            now_ms
        };
        self.price_state.insert(
            String::from_str(symbol),
            PriceState {
                spot_price: before.spot_price,
                futures_mark_price: Some(price),
                last_updated_ms: Some(stamp),
            },
        );
    }

    /// Apply one spot ticker message: a foreign symbol is skipped, an
    /// unreadable price is an error, and a good one is recorded.
    /// Returns whether the cache changed.
    pub fn apply_spot_ticker(
        &mut self,
        symbol: &str,
        msg_symbol: &str,
        price_text: &str,
        now_ms: i64,
    ) -> (r: Result<bool, ExchangeError>)
        ensures
            msg_symbol@ != symbol@ ==> r == Ok::<bool, ExchangeError>(false)
                && final(self).price_state@ == old(self).price_state@,
            msg_symbol@ == symbol@ && spec_parse_qty(price_text@) is None ==> r is Err
                && final(self).price_state@ == old(self).price_state@,
            msg_symbol@ == symbol@ && spec_parse_qty(price_text@) is Some ==> r == Ok::<bool, ExchangeError>(true) && ({
                let before = spec_state_of(old(self).price_state@, symbol@);
                final(self).price_state@ == old(self).price_state@.insert(
                    symbol@,
                    PriceState {
                        spot_price: spec_parse_qty(price_text@),
                        futures_mark_price: before.futures_mark_price,
                        last_updated_ms: Some(spec_next_stamp(before, now_ms)),
                    },
                )
            }),
    {
        if !str_eq(msg_symbol, symbol) {
            return Ok(false);
        }
        let price = match parse_qty(price_text) {
            Some(p) => p,
            None => {
                return Err(ExchangeError::Other(String::from_str("unreadable ticker price")));
            },
        };
        self.record_spot_price(symbol, price, now_ms);
        Ok(true)
    }

    /// Apply one futures mark-price message, as the spot ticker is
    /// applied.
    pub fn apply_futures_mark_price(
        &mut self,
        symbol: &str,
        msg_symbol: &str,
        price_text: &str,
        now_ms: i64,
    ) -> (r: Result<bool, ExchangeError>)
        ensures
            msg_symbol@ != symbol@ ==> r == Ok::<bool, ExchangeError>(false)
                && final(self).price_state@ == old(self).price_state@,
            msg_symbol@ == symbol@ && spec_parse_qty(price_text@) is None ==> r is Err
                && final(self).price_state@ == old(self).price_state@,
            msg_symbol@ == symbol@ && spec_parse_qty(price_text@) is Some ==> r == Ok::<bool, ExchangeError>(true) && ({
                let before = spec_state_of(old(self).price_state@, symbol@);
                final(self).price_state@ == old(self).price_state@.insert(
                    symbol@,
                    PriceState {
                        spot_price: before.spot_price,
                        futures_mark_price: spec_parse_qty(price_text@),
                        last_updated_ms: Some(spec_next_stamp(before, now_ms)),
                    },
                )
            }),
    {
        if !str_eq(msg_symbol, symbol) {
            return Ok(false);
        }
        let price = match parse_qty(price_text) {
            Some(p) => p,
            None => {
                return Err(ExchangeError::Other(String::from_str("unreadable mark price")));
            },
        };
        self.record_futures_mark_price(symbol, price, now_ms);
        Ok(true)
    }
}

/// An update never moves a symbol's stamp backwards.
pub proof fn lemma_stamp_monotonic(st: PriceState, now_ms: i64)
    ensures
        spec_next_stamp(st, now_ms) >= spec_stamp_of(st),
        spec_next_stamp(st, now_ms) >= now_ms,
{
}

} // verus!

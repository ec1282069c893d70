//! The unified Binance trader: one order client, the spot and futures
//! surfaces with their rule caches, the price feed, and the user-data
//! stream, behind a single facade the strategy talks to.

use vstd::prelude::*;
use vstd::string::StringSliceAdditionalSpecFns;
use crate::client::{BinanceClient, HttpBinanceOrderClient};
use crate::lot_size::LotSizeFilter;
use crate::params::{pairs_view, sign_params, spec_user_data_signature};
use crate::prices::BinancePriceFeed;
use crate::rules::{BinanceSpotApi, BinanceFuturesApi, spec_clamp_cached};
use crate::sizer::{HedgedPair, find_hedged_pair, spec_find_hedged_pair};
use crate::strutil::{spec_contains, spec_ends_with, str_contains, str_ends_with};

verus! {

/// The authenticated user-data subscription: it signs its parameters
/// over the spot credentials.
pub struct BinanceUserStream {
    pub spot_client: BinanceClient,
}

impl BinanceUserStream {
    /// A user stream over the spot client's credentials.
    pub fn new(spot_client: BinanceClient) -> (r: BinanceUserStream)
        ensures
            r.spot_client == spot_client,
    {
        BinanceUserStream { spot_client }
    }

    /// Sign the subscription parameters: keys sort lexicographically,
    /// `signature` itself excluded, and the payload `k=v&…` is signed;
    /// the result depends only on the parameter map and the secret.
    pub fn sign_user_data_params(params: &Vec<(String, String)>, secret: &str) -> (r: String)
        ensures
            r@ == spec_user_data_signature(pairs_view(params@), secret.spec_bytes()),
            r@.len() == 64,
    {
        sign_params(params, secret)
    }
}

/// The per-venue trader facade.
pub struct BinanceTrader {
    pub order_client: HttpBinanceOrderClient,
    pub spot: BinanceSpotApi,
    pub futures: BinanceFuturesApi,
    pub price_feed: BinancePriceFeed,
    pub user_stream: Option<BinanceUserStream>,
}

impl BinanceTrader {
    /// Assemble a trader from its parts.
    pub fn assemble(
        order_client: HttpBinanceOrderClient,
        spot: BinanceSpotApi,
        futures: BinanceFuturesApi,
        price_feed: BinancePriceFeed,
        user_stream: Option<BinanceUserStream>,
    ) -> (r: BinanceTrader)
        ensures
            r.order_client == order_client,
            r.spot == spot,
            r.futures == futures,
            r.user_stream == user_stream,
    {
        BinanceTrader { order_client, spot, futures, price_feed, user_stream }
    }

    /// The venue's name.
    pub fn exchange_name(&self) -> (r: &'static str)
        ensures
            r@ == "binance"@,
    {
        "binance"
    }

    /// The base asset of a symbol: strip a `USDT` or `USD` quote
    /// suffix, in that order; other symbols are their own base.
    pub fn base_asset_from_symbol(symbol: &str) -> (r: String)
        ensures
            r@ == if spec_ends_with(symbol@, "USDT"@) {
                symbol@.take(symbol@.len() - 4)
            } else if spec_ends_with(symbol@, "USD"@) {
                symbol@.take(symbol@.len() - 3)
            } else {
                symbol@
            },
    {
        proof {
            reveal_strlit("USDT");
            reveal_strlit("USD");
        }
        let n = symbol.unicode_len();
        if str_ends_with(symbol, "USDT") {
            let base = symbol.substring_char(0, n - 4);
            let r = String::from_str(base);
            proof {
                assert(symbol@.subrange(0, n - 4) =~= symbol@.take(symbol@.len() - 4));
            }
            r
        } else if str_ends_with(symbol, "USD") {
            let base = symbol.substring_char(0, n - 3);
            let r = String::from_str(base);
            proof {
                assert(symbol@.subrange(0, n - 3) =~= symbol@.take(symbol@.len() - 3));
            }
            r
        } else {
            String::from_str(symbol)
        }
    }

    /// Clamp a spot quantity to the symbol's cached rule; an uncached
    /// symbol passes through.
    pub fn clamp_spot_quantity(&self, symbol: &str, qty: u64) -> (r: u64)
        ensures
            r == spec_clamp_cached(self.spot.lot_size_cache@, symbol@, qty),
    {
        self.spot.clamp_quantity(symbol, qty)
    }

    /// Clamp a futures quantity to the symbol's cached rule; an
    /// uncached symbol passes through.
    pub fn clamp_futures_quantity(&self, symbol: &str, qty: u64) -> (r: u64)
        ensures
            r == spec_clamp_cached(self.futures.lot_size_cache@, symbol@, qty),
    {
        self.futures.clamp_quantity(symbol, qty)
    }

    /// The lot-size rule the cache holds for a symbol, if any.
    pub open spec fn spec_cached_rule(
        m: Map<Seq<char>, LotSizeFilter>,
        symbol: Seq<char>,
    ) -> Option<LotSizeFilter> {
        if m.contains_key(symbol) {
            Some(m[symbol])
        } else {
            None
        }
    }

    /// Search for the hedged pair on this symbol's cached rules: the
    /// largest pair both grids accept whose post-fee residual delta is
    /// within half the finer step.
    pub fn find_hedged_pair(&self, symbol: &str, target_net_qty: u64, spot_fee_rate: u64) -> (r:
        Option<HedgedPair>)
        ensures
            r == spec_find_hedged_pair(
                BinanceTrader::spec_cached_rule(self.spot.lot_size_cache@, symbol@),
                BinanceTrader::spec_cached_rule(self.futures.lot_size_cache@, symbol@),
                target_net_qty,
                spot_fee_rate,
            ),
    {
        let spot_f = self.spot.get_lot_size(symbol);
        let fut_f = self.futures.get_lot_size(symbol);
        find_hedged_pair(spot_f, fut_f, target_net_qty, spot_fee_rate)
    }
}

/// Whether a margin-type change counts as done: the venue accepted
/// it, or answered its no-change-needed error code.
pub fn margin_type_change_accepted(status_is_success: bool, body: &str) -> (r: bool)
    ensures
        r == (status_is_success || spec_contains(body@, "-4046"@)),
{
    if status_is_success {
        true
    } else {
        str_contains(body, "-4046")
    }
}

} // verus!

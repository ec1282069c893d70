//! The venue client: credential binding and the exact signed request
//! texts the venue checks. An authenticated request is refused here,
//! with a dedicated error, whenever credentials are unset: nothing is
//! ever sent unsigned.

use vstd::prelude::*;
use vstd::string::StringSliceAdditionalSpecFns;
use crate::decimal::{push_qty_8, push_uint_digits, spec_format_qty, spec_uint_digits};
use crate::records::TradeSide;
use crate::sign::{generate_signature, spec_signature};

verus! {

/// The venues the engine knows.
#[derive(Debug, Clone, Copy, PartialEq, Eq, Hash, Structural)]
pub enum ExchangeId {
    Binance,
    Bybit,
    Okx,
    Bitget,
    Bithumb,
}

/// The quote currencies the engine prices in.
#[derive(Debug, Clone, Copy, PartialEq, Eq, Hash, Structural)]
pub enum Currency {
    USD,
    KRW,
    USDT,
}

/// What a venue call can fail with: transport trouble, or a message
/// the venue or its payload refused.
#[derive(Debug, Clone)]
pub enum ExchangeError {
    Http(String),
    Other(String),
}

/// Maker and taker fee rates in 1e-8 fractions of one.
#[derive(Debug, Clone, Copy, PartialEq, Eq, Structural)]
pub struct FeeInfo {
    pub maker: u64,
    pub taker: u64,
}

impl FeeInfo {
    /// A fee schedule from its two rates.
    pub fn new(maker: u64, taker: u64) -> (r: FeeInfo)
        ensures
            r.maker == maker,
            r.taker == taker,
    {
        FeeInfo { maker, taker }
    }

    /// The fee-free schedule.
    pub fn free() -> (r: FeeInfo)
        ensures
            r.maker == 0,
            r.taker == 0,
    {
        FeeInfo { maker: 0, taker: 0 }
    }
}

/// A venue client: its credentials, if any. The transport that
/// carries its requests lives outside the library.
#[derive(Debug, Clone)]
pub struct BinanceClient {
    pub api_key: Option<String>,
    pub api_secret: Option<String>,
}

impl BinanceClient {
    /// A client with the given credentials; pass none for read-only
    /// public endpoints.
    pub fn new(api_key: Option<String>, api_secret: Option<String>) -> (r: BinanceClient)
        ensures
            r.api_key == api_key,
            r.api_secret == api_secret,
    {
        BinanceClient { api_key, api_secret }
    }

    /// Which venue this client talks to.
    pub fn id(&self) -> (r: ExchangeId)
        ensures
            r == ExchangeId::Binance,
    {
        ExchangeId::Binance
    }

    /// Both credentials are present.
    pub open spec fn has_credentials(self) -> bool {
        self.api_key is Some && self.api_secret is Some
    }
}

/// Options for a spot market order: `test` routes to the venue's
/// dry-run endpoint.
#[derive(Debug, Clone, Copy, PartialEq, Eq, Structural)]
pub struct PlaceOrderOptions {
    pub test: bool,
}

impl Default for PlaceOrderOptions {
    /// A live (non-test) order.
    fn default() -> (r: Self)
        ensures
            !r.test,
    {
        PlaceOrderOptions { test: false }
    }
}

/// Options for a futures market order: `reduce_only` may only shrink
/// an open position.
#[derive(Debug, Clone, Copy, PartialEq, Eq, Structural)]
pub struct PlaceFuturesOrderOptions {
    pub reduce_only: bool,
}

impl Default for PlaceFuturesOrderOptions {
    /// An ordinary position-changing order.
    fn default() -> (r: Self)
        ensures
            !r.reduce_only,
    {
        PlaceFuturesOrderOptions { reduce_only: false }
    }
}

/// The query string of a market order: symbol, side, type, quantity
/// to eight decimals, millisecond timestamp, and the receive window.
pub open spec fn spec_order_query(
    symbol: Seq<char>,
    side: TradeSide,
    qty: u64,
    timestamp: u64,
) -> Seq<char> {
    "symbol="@ + symbol + "&side="@ + side.spec_str() + "&type=MARKET&quantity="@
        + spec_format_qty(qty) + "&timestamp="@ + spec_uint_digits(timestamp as int)
        + "&recvWindow=50000"@
}

/// Build a market-order query string.
pub fn build_order_query(symbol: &str, side: TradeSide, qty: u64, timestamp: u64) -> (r: String)
    ensures
        r@ == spec_order_query(symbol@, side, qty, timestamp),
{
    let mut q = String::from_str("symbol=");
    q.append(symbol);
    q.append("&side=");
    q.append(side.as_str());
    q.append("&type=MARKET&quantity=");
    push_qty_8(&mut q, qty);
    q.append("&timestamp=");
    push_uint_digits(&mut q, timestamp);
    q.append("&recvWindow=50000");
    q
}

/// The reduce-only suffix a closing futures order carries.
pub open spec fn spec_reduce_only_suffix(reduce_only: bool) -> Seq<char> {
    if reduce_only {
        "&reduceOnly=true"@
    } else {
        Seq::<char>::empty()
    }
}

/// The query string of a futures market order: the market-order query
/// with the reduce-only flag appended when set.
pub open spec fn spec_futures_order_query(
    symbol: Seq<char>,
    side: TradeSide,
    qty: u64,
    timestamp: u64,
    reduce_only: bool,
) -> Seq<char> {
    spec_order_query(symbol, side, qty, timestamp) + spec_reduce_only_suffix(reduce_only)
}

/// Build a futures market-order query string.
pub fn build_futures_order_query(
    symbol: &str,
    side: TradeSide,
    qty: u64,
    timestamp: u64,
    reduce_only: bool,
) -> (r: String)
    ensures
        r@ == spec_futures_order_query(symbol@, side, qty, timestamp, reduce_only),
{
    let mut q = build_order_query(symbol, side, qty, timestamp);
    if reduce_only {
        q.append("&reduceOnly=true");
    } else {
        proof {
            assert(q@ + Seq::<char>::empty() =~= q@);
        }
    }
    q
}

/// The query string of the margin-type setter.
pub open spec fn spec_margin_type_query(
    symbol: Seq<char>,
    isolated: bool,
    timestamp: u64,
) -> Seq<char> {
    "symbol="@ + symbol + "&marginType="@ + (if isolated {
        "ISOLATED"@
    } else {
        "CROSS"@
    }) + "&timestamp="@ + spec_uint_digits(timestamp as int) + "&recvWindow=50000"@
}

/// Build the margin-type query string.
pub fn build_margin_type_query(symbol: &str, isolated: bool, timestamp: u64) -> (r: String)
    ensures
        r@ == spec_margin_type_query(symbol@, isolated, timestamp),
{
    let mut q = String::from_str("symbol=");
    q.append(symbol);
    q.append("&marginType=");
    if isolated {
        q.append("ISOLATED");
    } else {
        q.append("CROSS");
    }
    q.append("&timestamp=");
    push_uint_digits(&mut q, timestamp);
    q.append("&recvWindow=50000");
    q
}

/// The query string of the leverage setter.
pub open spec fn spec_leverage_query(symbol: Seq<char>, leverage: u32, timestamp: u64) -> Seq<
    char,
> {
    "symbol="@ + symbol + "&leverage="@ + spec_uint_digits(leverage as int) + "&timestamp="@
        + spec_uint_digits(timestamp as int) + "&recvWindow=50000"@
}

/// Build the leverage query string.
pub fn build_leverage_query(symbol: &str, leverage: u32, timestamp: u64) -> (r: String)
    ensures
        r@ == spec_leverage_query(symbol@, leverage, timestamp),
{
    let mut q = String::from_str("symbol=");
    q.append(symbol);
    q.append("&leverage=");
    push_uint_digits(&mut q, leverage as u64);
    q.append("&timestamp=");
    push_uint_digits(&mut q, timestamp);
    q.append("&recvWindow=50000");
    q
}

/// The query string of a signed read (account, balance, positions):
/// just the timestamp and the receive window.
pub open spec fn spec_timestamp_query(timestamp: u64) -> Seq<char> {
    "timestamp="@ + spec_uint_digits(timestamp as int) + "&recvWindow=50000"@
}

/// Build the timestamp-only query string of a signed read.
pub fn build_timestamp_query(timestamp: u64) -> (r: String)
    ensures
        r@ == spec_timestamp_query(timestamp),
{
    let mut q = String::from_str("timestamp=");
    push_uint_digits(&mut q, timestamp);
    q.append("&recvWindow=50000");
    q
}

/// A request ready to send: the full URL with its signature, and the
/// API key for the header.
#[derive(Debug, Clone)]
pub struct SignedRequest {
    pub url: String,
    pub api_key: String,
    pub query_string: String,
}

/// The full URL of a signed request: base, endpoint, query, and the
/// signature over exactly that query.
pub open spec fn spec_signed_url(
    base: Seq<char>,
    endpoint: Seq<char>,
    query: Seq<char>,
    query_bytes: Seq<u8>,
    secret_bytes: Seq<u8>,
) -> Seq<char> {
    base + endpoint + "?"@ + query + "&signature="@ + spec_signature(query_bytes, secret_bytes)
}

/// Sign a query string and assemble the URL to send it to.
pub fn build_signed_url(base: &str, endpoint: &str, query: &str, secret: &str) -> (r: String)
    ensures
        r@ == spec_signed_url(
            base@,
            endpoint@,
            query@,
            query.spec_bytes(),
            secret.spec_bytes(),
        ),
{
    let signature = generate_signature(query, secret);
    let mut url = String::from_str(base);
    url.append(endpoint);
    url.append("?");
    url.append(query);
    url.append("&signature=");
    url.append(signature.as_str());
    url
}

/// Sends Binance spot and futures orders over HTTP: it holds one
/// client per market and builds each signed request; sending is the
/// transport's business.
pub struct HttpBinanceOrderClient {
    pub spot_client: BinanceClient,
    pub futures_client: BinanceClient,
}

impl HttpBinanceOrderClient {
    /// An order client over the two market clients.
    pub fn new(spot_client: BinanceClient, futures_client: BinanceClient) -> (r:
        HttpBinanceOrderClient)
        ensures
            r.spot_client == spot_client,
            r.futures_client == futures_client,
    {
        HttpBinanceOrderClient { spot_client, futures_client }
    }

    /// The signed spot-order request, or the credentials error when
    /// the key or secret is unset: exactly then is nothing sent. The
    /// URL carries exactly the query and its signature under the
    /// spot secret.
    pub fn build_spot_order_request(
        &self,
        base: &str,
        endpoint: &str,
        symbol: &str,
        side: TradeSide,
        qty: u64,
        timestamp: u64,
    ) -> (r: Result<SignedRequest, ExchangeError>)
        ensures
            r is Ok <==> self.spot_client.has_credentials(),
            r is Ok ==> ({
                let req = r->Ok_0;
                let query = spec_order_query(symbol@, side, qty, timestamp);
                &&& req.query_string@ == query
                &&& req.api_key@ == self.spot_client.api_key->0@
                &&& req.url@ == spec_signed_url(
                    base@,
                    endpoint@,
                    query,
                    vstd::utf8::encode_utf8(query),
                    vstd::utf8::encode_utf8(self.spot_client.api_secret->0@),
                )
            }),
    {
        let api_key = match &self.spot_client.api_key {
            Some(k) => k.clone(),
            None => {
                return Err(ExchangeError::Other(String::from_str("API key not set")));
            },
        };
        let api_secret = match &self.spot_client.api_secret {
            Some(s) => s.clone(),
            None => {
                return Err(ExchangeError::Other(String::from_str("API secret not set")));
            },
        };
        let query = build_order_query(symbol, side, qty, timestamp);
        let url = build_signed_url(base, endpoint, query.as_str(), api_secret.as_str());
        Ok(SignedRequest { url, api_key, query_string: query })
    }

    /// The signed futures-order request, or the credentials error
    /// when the key or secret is unset. The URL carries exactly the
    /// query and its signature under the futures secret.
    pub fn build_futures_order_request(
        &self,
        base: &str,
        endpoint: &str,
        symbol: &str,
        side: TradeSide,
        qty: u64,
        timestamp: u64,
        reduce_only: bool,
    ) -> (r: Result<SignedRequest, ExchangeError>)
        ensures
            r is Ok <==> self.futures_client.has_credentials(),
            r is Ok ==> ({
                let req = r->Ok_0;
                let query = spec_futures_order_query(symbol@, side, qty, timestamp, reduce_only);
                &&& req.query_string@ == query
                &&& req.api_key@ == self.futures_client.api_key->0@
                &&& req.url@ == spec_signed_url(
                    base@,
                    endpoint@,
                    query,
                    vstd::utf8::encode_utf8(query),
                    vstd::utf8::encode_utf8(self.futures_client.api_secret->0@),
                )
            }),
    {
        let api_key = match &self.futures_client.api_key {
            Some(k) => k.clone(),
            None => {
                return Err(ExchangeError::Other(String::from_str("API key not set")));
            },
        };
        let api_secret = match &self.futures_client.api_secret {
            Some(s) => s.clone(),
            None => {
                return Err(ExchangeError::Other(String::from_str("API secret not set")));
            },
        };
        let query = build_futures_order_query(symbol, side, qty, timestamp, reduce_only);
        let url = build_signed_url(base, endpoint, query.as_str(), api_secret.as_str());
        Ok(SignedRequest { url, api_key, query_string: query })
    }
}

} // verus!

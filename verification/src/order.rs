//! Order responses and what the engine reads out of them: the
//! best-effort execution price, and the trade record an order leaves.

use vstd::prelude::*;
use crate::decimal::spec_parse_qty;
use crate::decimal::parse_qty;
use crate::lot_size::QTY_SCALE;
use crate::records::{TradeRecord, MarketType, TradeSide, TradeType};


verus! {

/// A venue's answer to an order: the fields the engine reads, and the
/// raw body for later fee and price extraction. The three price
/// fields carry whichever of the venue's price texts were present:
/// the first fill's price, the cumulative quote quantity (under any
/// of the venue's spellings), and the top-level or average price.
#[derive(Debug, Clone)]
pub struct OrderResponse {
    pub symbol: String,
    pub order_id: Option<u64>,
    pub client_order_id: Option<String>,
    pub executed_qty: Option<String>,
    pub status: Option<String>,
    pub fills_first_price: Option<String>,
    pub cummulative_quote_qty: Option<String>,
    pub price: Option<String>,
    pub avg_price: Option<String>,
    pub raw: String,
}

/// A positive 1e-8 value read from an optional price text; anything
/// absent, unreadable or non-positive is nothing.
pub open spec fn spec_pos_price_of(t: Option<String>) -> Option<u64> {
    match t {
        Some(s) => match spec_parse_qty(s@) {
            Some(v) => if v > 0 {
                Some(v)
            } else {
                None
            },
            None => None,
        },
        None => None,
    }
}

/// The average price `cum_quote / executed_qty` in 1e-8 units, when
/// both texts read as positive values and the quotient is positive
/// and representable; a quotient that floors to zero is no price.
pub open spec fn spec_avg_price_of(cum: Option<String>, executed: Option<String>) -> Option<u64> {
    match (spec_pos_price_of(cum), spec_pos_price_of(executed)) {
        (Some(c), Some(e)) => {
            let q = c as int * QTY_SCALE as int / e as int;
            if 0 < q <= u64::MAX {
                Some(q as u64)
            } else {
                None
            }
        },
        _ => None,
    }
}

/// The execution price an order response yields, best effort and in
/// order: the first fill's price, then the cumulative-quote average,
/// then the top-level price, then the average price. Only positive
/// readable values are accepted.
pub open spec fn spec_extract_price(r: OrderResponse) -> Option<u64> {
    if spec_pos_price_of(r.fills_first_price) is Some {
        spec_pos_price_of(r.fills_first_price)
    } else if spec_avg_price_of(r.cummulative_quote_qty, r.executed_qty) is Some {
        spec_avg_price_of(r.cummulative_quote_qty, r.executed_qty)
    } else if spec_pos_price_of(r.price) is Some {
        spec_pos_price_of(r.price)
    } else {
        spec_pos_price_of(r.avg_price)
    }
}

fn pos_price_of(t: &Option<String>) -> (r: Option<u64>)
    ensures
        r == spec_pos_price_of(*t),
{
    match t {
        Some(s) => match parse_qty(s.as_str()) {
            Some(v) => if v > 0 {
                Some(v)
            } else {
                None
            },
            None => None,
        },
        None => None,
    }
}

/// Extract the execution price from an order response, best effort.
pub fn extract_price_from_order_response(r: &OrderResponse) -> (price: Option<u64>)
    ensures
        price == spec_extract_price(*r),
{
    if let Some(p) = pos_price_of(&r.fills_first_price) {
        return Some(p);
    }
    let avg: Option<u64> = match (
        pos_price_of(&r.cummulative_quote_qty),
        pos_price_of(&r.executed_qty),
    ) {
        (Some(c), Some(e)) => {
            let q: u128 = (c as u128) * (QTY_SCALE as u128) / (e as u128);
            proof {
                assert(c * QTY_SCALE <= u64::MAX * QTY_SCALE) by (nonlinear_arith)
                    requires
                        c <= u64::MAX,
                ;
            }
            if 0 < q && q <= u64::MAX as u128 {
                Some(q as u64)
            } else {
                None
            }
        },
        _ => None,
    };
    if let Some(p) = avg {
        return Some(p);
    }
    if let Some(p) = pos_price_of(&r.price) {
        return Some(p);
    }
    pos_price_of(&r.avg_price)
}

/// The trade record an executed order leaves: timestamped with the
/// call, priced best-effort from the response, carrying the request
/// query string and the response's JSON text, from which the
/// response — raw venue body included — reads back exactly.
pub fn create_trade_record_from_order(
    exchange: String,
    symbol: String,
    market_type: MarketType,
    side: TradeSide,
    trade_type: TradeType,
    quantity: u64,
    request_query_string: Option<String>,
    order_response: &OrderResponse,
    is_liquidation: bool,
    now_ms: i64,
) -> (rec: TradeRecord)
    ensures
        rec.executed_at_ms == now_ms,
        rec.exchange@ == exchange@,
        rec.symbol@ == symbol@,
        rec.market_type == market_type,
        rec.side == side,
        rec.trade_type == trade_type,
        rec.executed_price == spec_extract_price(*order_response),
        rec.quantity == quantity,
        match (rec.request_query_string, request_query_string) {
            (Some(a), Some(b)) => a@ == b@,
            (None, None) => true,
            _ => false,
        },
        rec.api_response matches Some(s) && s@ == spec_to_json(model_of(*order_response)),
        rec.metadata is None,
        rec.is_liquidation == is_liquidation,
{
    let executed_price = extract_price_from_order_response(order_response);
    TradeRecord {
        executed_at_ms: now_ms,
        exchange,
        symbol,
        market_type,
        side,
        trade_type,
        executed_price,
        quantity,
        request_query_string,
        api_response: Some(order_response_to_json(order_response)),
        metadata: None,
        is_liquidation,
    }
}

/// The record a spot market order leaves, keyed by the side text the
/// venue was sent; an unrecognised side leaves no record.
pub fn prepare_spot_order_record(
    exchange: &str,
    symbol: &str,
    side: &str,
    quantity: u64,
    query_string: &str,
    order_response: &OrderResponse,
    is_liquidation: bool,
    now_ms: i64,
) -> (r: Option<TradeRecord>)
    ensures
        r is Some <==> TradeSide::spec_from_str(side@) is Some,
        r matches Some(rec) ==> {
            &&& rec.executed_at_ms == now_ms
            &&& rec.exchange@ == exchange@
            &&& rec.symbol@ == symbol@
            &&& rec.market_type == MarketType::Spot
            &&& Some(rec.side) == TradeSide::spec_from_str(side@)
            &&& rec.trade_type == TradeType::Market
            &&& rec.executed_price == spec_extract_price(*order_response)
            &&& rec.quantity == quantity
            &&& rec.request_query_string matches Some(q) && q@ == query_string@
            &&& rec.is_liquidation == is_liquidation
        },
{
    let trade_side = match TradeSide::from_str(side) {
        Some(s) => s,
        None => {
            return None;
        },
    };
    Some(
        create_trade_record_from_order(
            String::from_str(exchange),
            String::from_str(symbol),
            MarketType::Spot,
            trade_side,
            TradeType::Market,
            quantity,
            Some(String::from_str(query_string)),
            order_response,
            is_liquidation,
            now_ms,
        ),
    )
}

/// The record a futures market order leaves; an unrecognised side
/// leaves no record.
pub fn prepare_futures_order_record(
    exchange: &str,
    symbol: &str,
    side: &str,
    quantity: u64,
    query_string: &str,
    order_response: &OrderResponse,
    is_liquidation: bool,
    now_ms: i64,
) -> (r: Option<TradeRecord>)
    ensures
        r is Some <==> TradeSide::spec_from_str(side@) is Some,
        r matches Some(rec) ==> {
            &&& rec.executed_at_ms == now_ms
            &&& rec.exchange@ == exchange@
            &&& rec.symbol@ == symbol@
            &&& rec.market_type == MarketType::Futures
            &&& Some(rec.side) == TradeSide::spec_from_str(side@)
            &&& rec.trade_type == TradeType::Market
            &&& rec.executed_price == spec_extract_price(*order_response)
            &&& rec.quantity == quantity
            &&& rec.request_query_string matches Some(q) && q@ == query_string@
            &&& rec.is_liquidation == is_liquidation
        },
{
    let trade_side = match TradeSide::from_str(side) {
        Some(s) => s,
        None => {
            return None;
        },
    };
    Some(
        create_trade_record_from_order(
            String::from_str(exchange),
            String::from_str(symbol),
            MarketType::Futures,
            trade_side,
            TradeType::Market,
            quantity,
            Some(String::from_str(query_string)),
            order_response,
            is_liquidation,
            now_ms,
        ),
    )
}

/// The side a Bithumb endpoint path trades: a path naming `buy` buys,
/// one naming `sell` sells, anything else leaves no record.
pub open spec fn spec_bithumb_side(endpoint: Seq<char>) -> Option<TradeSide> {
    if crate::strutil::spec_contains(endpoint, "buy"@) {
        Some(TradeSide::Buy)
    } else if crate::strutil::spec_contains(endpoint, "sell"@) {
        Some(TradeSide::Sell)
    } else {
        None
    }
}

/// The record a Bithumb spot order leaves, its side read from the
/// endpoint path.
pub fn prepare_bithumb_order_record(
    exchange: &str,
    symbol: &str,
    endpoint: &str,
    quantity: u64,
    params: &str,
    order_response: &OrderResponse,
    is_liquidation: bool,
    now_ms: i64,
) -> (r: Option<TradeRecord>)
    ensures
        r is Some <==> spec_bithumb_side(endpoint@) is Some,
        r matches Some(rec) ==> {
            &&& rec.executed_at_ms == now_ms
            &&& rec.exchange@ == exchange@
            &&& rec.symbol@ == symbol@
            &&& rec.market_type == MarketType::Spot
            &&& Some(rec.side) == spec_bithumb_side(endpoint@)
            &&& rec.trade_type == TradeType::Market
            &&& rec.executed_price == spec_extract_price(*order_response)
            &&& rec.quantity == quantity
            &&& rec.request_query_string matches Some(q) && q@ == params@
            &&& rec.is_liquidation == is_liquidation
        },
{
    let trade_side = if crate::strutil::str_contains(endpoint, "buy") {
        TradeSide::Buy
    } else if crate::strutil::str_contains(endpoint, "sell") {
        TradeSide::Sell
    } else {
        return None;
    };
    Some(
        create_trade_record_from_order(
            String::from_str(exchange),
            String::from_str(symbol),
            MarketType::Spot,
            trade_side,
            TradeType::Market,
            quantity,
            Some(String::from_str(params)),
            order_response,
            is_liquidation,
            now_ms,
        ),
    )
}

/// The abstract content of an order response: every text by its
/// character sequence.
pub struct OrderResponseModel {
    pub symbol: Seq<char>,
    pub order_id: Option<u64>,
    pub client_order_id: Option<Seq<char>>,
    pub executed_qty: Option<Seq<char>>,
    pub status: Option<Seq<char>>,
    pub fills_first_price: Option<Seq<char>>,
    pub cummulative_quote_qty: Option<Seq<char>>,
    pub price: Option<Seq<char>>,
    pub avg_price: Option<Seq<char>>,
    pub raw: Seq<char>,
}

/// The view of an optional text.
pub open spec fn opt_view(o: Option<String>) -> Option<Seq<char>> {
    match o {
        Some(s) => Some(s@),
        None => None,
    }
}

/// What an order response holds, abstracted to sequences.
pub open spec fn model_of(r: OrderResponse) -> OrderResponseModel {
    OrderResponseModel {
        symbol: r.symbol@,
        order_id: r.order_id,
        client_order_id: opt_view(r.client_order_id),
        executed_qty: opt_view(r.executed_qty),
        status: opt_view(r.status),
        fills_first_price: opt_view(r.fills_first_price),
        cummulative_quote_qty: opt_view(r.cummulative_quote_qty),
        price: opt_view(r.price),
        avg_price: opt_view(r.avg_price),
        raw: r.raw@,
    }
}

/// The JSON text of an optional string value: a quoted escaped
/// literal, or `null`.
pub open spec fn spec_json_opt_str(o: Option<Seq<char>>) -> Seq<char> {
    match o {
        Some(s) => seq!['"'] + crate::json::spec_escape(s) + seq!['"'],
        None => "null"@,
    }
}

/// The JSON text of an optional number: its digits, or `null`.
pub open spec fn spec_json_opt_u64(o: Option<u64>) -> Seq<char> {
    match o {
        Some(n) => crate::decimal::spec_uint_digits(n as int),
        None => "null"@,
    }
}

/// The JSON text of an order response: its known fields under fixed
/// keys, and the raw venue body embedded verbatim as the last value.
pub open spec fn spec_to_json(m: OrderResponseModel) -> Seq<char> {
    "{\"symbol\":"@ + spec_json_opt_str(Some(m.symbol)) + ",\"orderId\":"@ + spec_json_opt_u64(
        m.order_id,
    ) + ",\"clientOrderId\":"@ + spec_json_opt_str(m.client_order_id) + ",\"executedQty\":"@
        + spec_json_opt_str(m.executed_qty) + ",\"status\":"@ + spec_json_opt_str(m.status)
        + spec_to_json_prices(m)
}

/// The price half of the JSON text: the four price texts and the raw
/// body.
#[verifier::opaque]
pub open spec fn spec_to_json_prices(m: OrderResponseModel) -> Seq<char> {
    ",\"fillsFirstPrice\":"@ + spec_json_opt_str(m.fills_first_price)
        + ",\"cummulativeQuoteQty\":"@ + spec_json_opt_str(m.cummulative_quote_qty) + ",\"price\":"@
        + spec_json_opt_str(m.price) + ",\"avgPrice\":"@ + spec_json_opt_str(m.avg_price)
        + ",\"raw\":"@ + m.raw + "}"@
}

fn push_json_opt_str(out: &mut String, o: &Option<String>)
    ensures
        final(out)@ == old(out)@ + spec_json_opt_str(opt_view(*o)),
{
    match o {
        Some(s) => {
            crate::json::push_json_string(out, s.as_str());
            proof {
                assert(old(out)@ + (seq!['"'] + crate::json::spec_escape(s@) + seq!['"'])
                    =~= old(out)@ + seq!['"'] + crate::json::spec_escape(s@) + seq!['"']);
            }
        },
        None => {
            out.append("null");
        },
    }
}

fn push_json_opt_u64(out: &mut String, o: &Option<u64>)
    ensures
        final(out)@ == old(out)@ + spec_json_opt_u64(*o),
{
    match o {
        Some(n) => {
            crate::decimal::push_uint_digits(out, *n);
        },
        None => {
            out.append("null");
        },
    }
}

/// Render an order response as one JSON object, the raw venue body
/// embedded verbatim as the last member.
pub fn order_response_to_json(r: &OrderResponse) -> (out: String)
    ensures
        out@ == spec_to_json(model_of(*r)),
{
    let mut out = String::from_str("{\"symbol\":");
    push_json_opt_str(&mut out, &Some(r.symbol.clone()));
    out.append(",\"orderId\":");
    push_json_opt_u64(&mut out, &r.order_id);
    out.append(",\"clientOrderId\":");
    push_json_opt_str(&mut out, &r.client_order_id);
    out.append(",\"executedQty\":");
    push_json_opt_str(&mut out, &r.executed_qty);
    out.append(",\"status\":");
    push_json_opt_str(&mut out, &r.status);
    out.append(",\"fillsFirstPrice\":");
    push_json_opt_str(&mut out, &r.fills_first_price);
    out.append(",\"cummulativeQuoteQty\":");
    push_json_opt_str(&mut out, &r.cummulative_quote_qty);
    out.append(",\"price\":");
    push_json_opt_str(&mut out, &r.price);
    out.append(",\"avgPrice\":");
    push_json_opt_str(&mut out, &r.avg_price);
    out.append(",\"raw\":");
    out.append(r.raw.as_str());
    out.append("}");
    proof {
        reveal(spec_to_json_prices);
        assert(opt_view(Some(r.symbol)) == Some(r.symbol@));
        assert(out@ =~= spec_to_json(model_of(*r)));
    }
    out
}

/// The literal sits in `t` at `pos`; the position after it.
pub open spec fn spec_expect(t: Seq<char>, pos: int, lit: Seq<char>) -> Option<int> {
    if 0 <= pos && pos + lit.len() <= t.len() && t.subrange(pos, pos + lit.len() as int) == lit {
        Some(pos + lit.len() as int)
    } else {
        None
    }
}

/// Read an optional string value at `pos`: a quoted literal or
/// `null`.
pub open spec fn spec_scan_opt_str(t: Seq<char>, pos: int) -> Option<(Option<Seq<char>>, int)> {
    if 0 <= pos < t.len() && t[pos] == '"' {
        match crate::json::spec_scan_string(t, pos + 1) {
            Some(p) => Some((Some(p.0), p.1)),
            None => None,
        }
    } else {
        match spec_expect(t, pos, "null"@) {
            Some(e) => Some((None, e)),
            None => None,
        }
    }
}

/// Read an optional number at `pos`: digits or `null`.
pub open spec fn spec_scan_opt_u64(t: Seq<char>, pos: int) -> Option<(Option<u64>, int)> {
    if 0 <= pos < t.len() && crate::decimal::is_digit(t[pos]) {
        match crate::decimal::spec_scan_uint(t, pos) {
            Some(p) => if p.0 <= u64::MAX {
                Some((Some(p.0 as u64), p.1))
            } else {
                None
            },
            None => None,
        }
    } else {
        match spec_expect(t, pos, "null"@) {
            Some(e) => Some((None, e)),
            None => None,
        }
    }
}

/// What parsing the canonical JSON of an order response yields: the
/// known fields in their fixed order, then everything up to the final
/// brace as the raw body.
pub open spec fn spec_from_json(t: Seq<char>) -> Option<OrderResponseModel> {
    match spec_expect(t, 0, "{\"symbol\":"@) {
        None => None,
        Some(p0) => match spec_scan_opt_str(t, p0) {
            None => None,
            Some((None, _)) => None,
            Some((Some(symbol), p1)) => match spec_expect(t, p1, ",\"orderId\":"@) {
                None => None,
                Some(p2) => match spec_scan_opt_u64(t, p2) {
                    None => None,
                    Some((order_id, p3)) => match spec_expect(t, p3, ",\"clientOrderId\":"@) {
                        None => None,
                        Some(p4) => match spec_scan_opt_str(t, p4) {
                            None => None,
                            Some((client_order_id, p5)) => match spec_expect(
                                t,
                                p5,
                                ",\"executedQty\":"@,
                            ) {
                                None => None,
                                Some(p6) => match spec_scan_opt_str(t, p6) {
                                    None => None,
                                    Some((executed_qty, p7)) => match spec_expect(
                                        t,
                                        p7,
                                        ",\"status\":"@,
                                    ) {
                                        None => None,
                                        Some(p8) => match spec_scan_opt_str(t, p8) {
                                            None => None,
                                            Some((status, p9)) => spec_from_json_tail(
                                                t,
                                                p9,
                                                symbol,
                                                order_id,
                                                client_order_id,
                                                executed_qty,
                                                status,
                                            ),
                                        },
                                    },
                                },
                            },
                        },
                    },
                },
            },
        },
    }
}

/// The tail of the parse: the four price texts, then the raw body up
/// to the final brace.
pub open spec fn spec_from_json_tail(
    t: Seq<char>,
    p9: int,
    symbol: Seq<char>,
    order_id: Option<u64>,
    client_order_id: Option<Seq<char>>,
    executed_qty: Option<Seq<char>>,
    status: Option<Seq<char>>,
) -> Option<OrderResponseModel> {
    match spec_expect(t, p9, ",\"fillsFirstPrice\":"@) {
        None => None,
        Some(p10) => match spec_scan_opt_str(t, p10) {
            None => None,
            Some((fills_first_price, p11)) => match spec_expect(
                t,
                p11,
                ",\"cummulativeQuoteQty\":"@,
            ) {
                None => None,
                Some(p12) => match spec_scan_opt_str(t, p12) {
                    None => None,
                    Some((cummulative_quote_qty, p13)) => match spec_expect(t, p13, ",\"price\":"@) {
                        None => None,
                        Some(p14) => match spec_scan_opt_str(t, p14) {
                            None => None,
                            Some((price, p15)) => match spec_expect(t, p15, ",\"avgPrice\":"@) {
                                None => None,
                                Some(p16) => match spec_scan_opt_str(t, p16) {
                                    None => None,
                                    Some((avg_price, p17)) => match spec_expect(
                                        t,
                                        p17,
                                        ",\"raw\":"@,
                                    ) {
                                        None => None,
                                        Some(p18) => if p18 <= t.len() - 1 && t[t.len() - 1]
                                            == '}' {
                                            Some(
                                                OrderResponseModel {
                                                    symbol,
                                                    order_id,
                                                    client_order_id,
                                                    executed_qty,
                                                    status,
                                                    fills_first_price,
                                                    cummulative_quote_qty,
                                                    price,
                                                    avg_price,
                                                    raw: t.subrange(p18, t.len() - 1),
                                                },
                                            )
                                        } else {
                                            None
                                        },
                                    },
                                },
                            },
                        },
                    },
                },
            },
        },
    }
}

/// The literal sits in `t` at `pos`; the position after it.
fn expect_lit(s: &str, pos: usize, lit: &str) -> (r: Option<usize>)
    requires
        pos <= s@.len(),
    ensures
        r matches Some(e) ==> spec_expect(s@, pos as int, lit@) == Some(e as int) && e <= s@.len(),
        r is None ==> spec_expect(s@, pos as int, lit@) is None,
{
    let n = s.unicode_len();
    let m = lit.unicode_len();
    if m > n - pos {
        return None;
    }
    if crate::strutil::match_here(s, lit, pos) {
        Some(pos + m)
    } else {
        None
    }
}

fn scan_opt_str(s: &str, pos: usize) -> (r: Option<(Option<String>, usize)>)
    requires
        pos <= s@.len(),
    ensures
        r matches Some(p) ==> spec_scan_opt_str(s@, pos as int) == Some(
            (opt_view(p.0), p.1 as int),
        ) && p.1 <= s@.len(),
        r is None ==> spec_scan_opt_str(s@, pos as int) is None,
{
    let n = s.unicode_len();
    if pos < n && s.get_char(pos) == '"' {
        match crate::json::scan_string(s, pos + 1) {
            Some((v, e)) => Some((Some(v), e)),
            None => None,
        }
    } else {
        match expect_lit(s, pos, "null") {
            Some(e) => Some((None, e)),
            None => None,
        }
    }
}

fn scan_opt_u64(s: &str, pos: usize) -> (r: Option<(Option<u64>, usize)>)
    requires
        pos <= s@.len(),
    ensures
        r matches Some(p) ==> spec_scan_opt_u64(s@, pos as int) == Some((p.0, p.1 as int)) && p.1
            <= s@.len(),
        r is None ==> spec_scan_opt_u64(s@, pos as int) is None,
{
    let n = s.unicode_len();
    if pos < n {
        let c = s.get_char(pos);
        let u = c as u32;
        if 48 <= u && u <= 57 {
            return match crate::decimal::scan_uint(s, pos) {
                Some((v, e)) => Some((Some(v), e)),
                None => None,
            };
        }
    }
    match expect_lit(s, pos, "null") {
        Some(e) => Some((None, e)),
        None => None,
    }
}

/// Parse the canonical JSON of an order response back into the
/// response; anything that is not in the canonical shape is rejected.
#[verifier::rlimit(100)]
pub fn order_response_from_json(s: &str) -> (r: Option<OrderResponse>)
    ensures
        spec_from_json(s@) matches Some(m) ==> r matches Some(resp) && model_of(resp) == m,
        spec_from_json(s@) is None ==> r is None,
{
    let n = s.unicode_len();
    let p0 = match expect_lit(s, 0, "{\"symbol\":") {
        Some(p) => p,
        None => {
            return None;
        },
    };
    let (symbol, p1) = match scan_opt_str(s, p0) {
        Some((Some(v), p)) => (v, p),
        Some((None, _)) => {
            return None;
        },
        None => {
            return None;
        },
    };
    let p2 = match expect_lit(s, p1, ",\"orderId\":") {
        Some(p) => p,
        None => {
            return None;
        },
    };
    let (order_id, p3) = match scan_opt_u64(s, p2) {
        Some(p) => p,
        None => {
            return None;
        },
    };
    let p4 = match expect_lit(s, p3, ",\"clientOrderId\":") {
        Some(p) => p,
        None => {
            return None;
        },
    };
    let (client_order_id, p5) = match scan_opt_str(s, p4) {
        Some(p) => p,
        None => {
            return None;
        },
    };
    let p6 = match expect_lit(s, p5, ",\"executedQty\":") {
        Some(p) => p,
        None => {
            return None;
        },
    };
    let (executed_qty, p7) = match scan_opt_str(s, p6) {
        Some(p) => p,
        None => {
            return None;
        },
    };
    let p8 = match expect_lit(s, p7, ",\"status\":") {
        Some(p) => p,
        None => {
            return None;
        },
    };
    let (status, p9) = match scan_opt_str(s, p8) {
        Some(p) => p,
        None => {
            return None;
        },
    };
    let p10 = match expect_lit(s, p9, ",\"fillsFirstPrice\":") {
        Some(p) => p,
        None => {
            return None;
        },
    };
    let (fills_first_price, p11) = match scan_opt_str(s, p10) {
        Some(p) => p,
        None => {
            return None;
        },
    };
    let p12 = match expect_lit(s, p11, ",\"cummulativeQuoteQty\":") {
        Some(p) => p,
        None => {
            return None;
        },
    };
    let (cummulative_quote_qty, p13) = match scan_opt_str(s, p12) {
        Some(p) => p,
        None => {
            return None;
        },
    };
    let p14 = match expect_lit(s, p13, ",\"price\":") {
        Some(p) => p,
        None => {
            return None;
        },
    };
    let (price, p15) = match scan_opt_str(s, p14) {
        Some(p) => p,
        None => {
            return None;
        },
    };
    let p16 = match expect_lit(s, p15, ",\"avgPrice\":") {
        Some(p) => p,
        None => {
            return None;
        },
    };
    let (avg_price, p17) = match scan_opt_str(s, p16) {
        Some(p) => p,
        None => {
            return None;
        },
    };
    let p18 = match expect_lit(s, p17, ",\"raw\":") {
        Some(p) => p,
        None => {
            return None;
        },
    };
    if !(p18 <= n - 1 && n >= 1 && s.get_char(n - 1) == '}') {
        return None;
    }
    let raw_slice = s.substring_char(p18, n - 1);
    let raw = String::from_str(raw_slice);
    Some(
        OrderResponse {
            symbol,
            order_id,
            client_order_id,
            executed_qty,
            status,
            fills_first_price,
            cummulative_quote_qty,
            price,
            avg_price,
            raw,
        },
    )
}

proof fn lemma_mid_subrange(t: Seq<char>, a: Seq<char>, b: Seq<char>, c: Seq<char>)
    requires
        t == a + (b + c),
    ensures
        a.len() + b.len() + c.len() == t.len(),
        t.subrange(a.len() as int, a.len() + b.len() as int) == b,
        b.len() > 0 ==> t[a.len() as int] == b[0],
        forall|k: int| 0 <= k < b.len() ==> t[a.len() + k] == (#[trigger] b[k]),
    decreases 0int,
{
    assert(forall|k: int| 0 <= k < b.len() ==> t[a.len() + k] == (#[trigger] b[k]));
    assert(t.subrange(a.len() as int, a.len() + b.len() as int) =~= b);
}

/// Reading an optional string value back from its JSON text recovers
/// it and stops right after it.
proof fn lemma_scan_opt_str_at(t: Seq<char>, pos: int, v: Option<Seq<char>>)
    requires
        0 <= pos,
        pos + spec_json_opt_str(v).len() <= t.len(),
        t.subrange(pos, pos + spec_json_opt_str(v).len() as int) == spec_json_opt_str(v),
    ensures
        spec_scan_opt_str(t, pos) == Some((v, pos + spec_json_opt_str(v).len() as int)),
{
    let piece = spec_json_opt_str(v);
    assert(forall|k: int|
        0 <= k < piece.len() ==> t[pos + k] == (#[trigger] piece[k])) by {
        assert(forall|k: int|
            0 <= k < piece.len() ==> t.subrange(pos, pos + piece.len() as int)[k] == (
            #[trigger] t[pos + k]));
    }
    match v {
        Some(s) => {
            let e = crate::json::spec_escape(s);
            assert(piece[0] == '"');
            assert(t[pos] == '"');
            assert forall|k: int| 0 <= k < e.len() implies t.subrange(
                pos + 1,
                pos + 1 + e.len() as int,
            )[k] == e[k] by {
                assert(piece[k + 1] == e[k]);
                assert(t[pos + 1 + k] == piece[k + 1]);
            }
            assert(t.subrange(pos + 1, pos + 1 + e.len() as int) =~= e);
            assert(piece[1 + e.len() as int] == '"');
            assert(t[pos + 1 + e.len()] == '"');
            crate::json::lemma_scan_inverts_escape(s, t, pos + 1);
        },
        None => {
            reveal_strlit("null");
            assert("null"@.len() == 4);
            assert(piece[0] == 'n');
            assert(t[pos] == 'n');
            assert(t[pos] != '"');
            assert(spec_expect(t, pos, "null"@) == Some(pos + 4));
        },
    }
}

/// Reading an optional number back from its JSON text recovers it and
/// stops right after it, given whatever follows is no digit.
proof fn lemma_scan_opt_u64_at(t: Seq<char>, pos: int, v: Option<u64>)
    requires
        0 <= pos,
        pos + spec_json_opt_u64(v).len() < t.len(),
        t.subrange(pos, pos + spec_json_opt_u64(v).len() as int) == spec_json_opt_u64(v),
        !crate::decimal::is_digit(t[pos + spec_json_opt_u64(v).len()]),
    ensures
        spec_scan_opt_u64(t, pos) == Some((v, pos + spec_json_opt_u64(v).len() as int)),
{
    let piece = spec_json_opt_u64(v);
    assert(forall|k: int|
        0 <= k < piece.len() ==> t[pos + k] == (#[trigger] piece[k])) by {
        assert(forall|k: int|
            0 <= k < piece.len() ==> t.subrange(pos, pos + piece.len() as int)[k] == (
            #[trigger] t[pos + k]));
    }
    match v {
        Some(n) => {
            crate::decimal::lemma_uint_digits_shape(n as int);
            assert(crate::decimal::is_digit(piece[0]));
            assert(t[pos] == piece[0]);
            crate::decimal::lemma_scan_uint_inverts(n, t, pos);
        },
        None => {
            reveal_strlit("null");
            assert("null"@.len() == 4);
            assert(piece[0] == 'n');
            assert(t[pos] == 'n');
            assert(!crate::decimal::is_digit('n'));
            assert(spec_expect(t, pos, "null"@) == Some(pos + 4));
        },
    }
}

/// The JSON codec round-trips: parsing the text of any order response
/// yields that response back, every known field and the raw blob
/// preserved.
proof fn lemma_step(t: Seq<char>, pos: int, piece: Seq<char>, rest: Seq<char>)
    requires
        0 <= pos <= t.len(),
        t.subrange(pos, t.len() as int) == piece + rest,
    ensures
        pos + piece.len() + rest.len() == t.len(),
        t.subrange(pos, pos + piece.len() as int) == piece,
        t.subrange(pos + piece.len() as int, t.len() as int) == rest,
        forall|k: int| 0 <= k < piece.len() ==> t[pos + k] == (#[trigger] piece[k]),
{
    let suf = t.subrange(pos, t.len() as int);
    assert(suf.len() == t.len() - pos);
    assert(suf.len() == piece.len() + rest.len());
    assert forall|k: int| 0 <= k < piece.len() implies t[pos + k] == (#[trigger] piece[k]) by {
        assert(suf[k] == t[pos + k]);
        assert((piece + rest)[k] == piece[k]);
    }
    assert(t.subrange(pos, pos + piece.len() as int) =~= piece);
    assert forall|k: int|
        0 <= k < rest.len() implies (#[trigger] t.subrange(
        pos + piece.len() as int,
        t.len() as int,
    )[k]) == rest[k] by {
        assert(suf[piece.len() + k] == t[pos + piece.len() + k]);
        assert((piece + rest)[piece.len() + k] == rest[k]);
    }
    assert(t.subrange(pos + piece.len() as int, t.len() as int) =~= rest);
}

/// The tail of the round trip: from the fills-first-price key on,
/// the parse recovers the four price texts and the raw blob.
#[verifier::rlimit(100)]
proof fn lemma_round_trip_tail(t: Seq<char>, p9: int, m: OrderResponseModel)
    requires
        0 <= p9 <= t.len(),
        t.subrange(p9, t.len() as int) == spec_to_json_prices(m),
    ensures
        spec_from_json_tail(
            t,
            p9,
            m.symbol,
            m.order_id,
            m.client_order_id,
            m.executed_qty,
            m.status,
        ) == Some(m),
{
    reveal(spec_to_json_prices);
    let d5 = ",\"fillsFirstPrice\":"@;
    let v5 = spec_json_opt_str(m.fills_first_price);
    let d6 = ",\"cummulativeQuoteQty\":"@;
    let v6 = spec_json_opt_str(m.cummulative_quote_qty);
    let d7 = ",\"price\":"@;
    let v7 = spec_json_opt_str(m.price);
    let d8 = ",\"avgPrice\":"@;
    let v8 = spec_json_opt_str(m.avg_price);
    let d9 = ",\"raw\":"@;
    let cb = "}"@;
    reveal_strlit("}");
    let r20 = Seq::<char>::empty();
    let r19 = cb + r20;
    let r18 = m.raw + r19;
    let r17 = d9 + r18;
    let r16 = v8 + r17;
    let r15 = d8 + r16;
    let r14 = v7 + r15;
    let r13 = d7 + r14;
    let r12 = v6 + r13;
    let r11 = d6 + r12;
    let r10 = v5 + r11;

    assert(t.subrange(p9, t.len() as int) =~= d5 + r10);

    let c10 = p9 + d5.len();
    lemma_step(t, p9, d5, r10);
    let c11 = c10 + v5.len();
    lemma_step(t, c10, v5, r11);
    let c12 = c11 + d6.len();
    lemma_step(t, c11, d6, r12);
    let c13 = c12 + v6.len();
    lemma_step(t, c12, v6, r13);
    let c14 = c13 + d7.len();
    lemma_step(t, c13, d7, r14);
    let c15 = c14 + v7.len();
    lemma_step(t, c14, v7, r15);
    let c16 = c15 + d8.len();
    lemma_step(t, c15, d8, r16);
    let c17 = c16 + v8.len();
    lemma_step(t, c16, v8, r17);
    let c18 = c17 + d9.len();
    lemma_step(t, c17, d9, r18);
    let c19 = c18 + m.raw.len();
    lemma_step(t, c18, m.raw, r19);
    lemma_step(t, c19, cb, r20);

    assert(spec_expect(t, p9, d5) == Some(c10));
    lemma_scan_opt_str_at(t, c10, m.fills_first_price);
    assert(spec_expect(t, c11, d6) == Some(c12));
    lemma_scan_opt_str_at(t, c12, m.cummulative_quote_qty);
    assert(spec_expect(t, c13, d7) == Some(c14));
    lemma_scan_opt_str_at(t, c14, m.price);
    assert(spec_expect(t, c15, d8) == Some(c16));
    lemma_scan_opt_str_at(t, c16, m.avg_price);
    assert(spec_expect(t, c17, d9) == Some(c18));
    assert(t.len() == c19 + 1);
    assert(t[c19 + 0] == cb[0]);
    assert(t[t.len() - 1] == '}');
    assert(t.subrange(c18, t.len() - 1) == m.raw);
}

/// The JSON codec round-trips: parsing the text of any order response
/// yields that response back, every known field and the raw blob
/// preserved.
#[verifier::rlimit(100)]
pub proof fn lemma_order_response_json_round_trip(m: OrderResponseModel)
    ensures
        spec_from_json(spec_to_json(m)) == Some(m),
{
    let t = spec_to_json(m);
    let h = "{\"symbol\":"@;
    let v0 = spec_json_opt_str(Some(m.symbol));
    let d1 = ",\"orderId\":"@;
    let v1 = spec_json_opt_u64(m.order_id);
    let d2 = ",\"clientOrderId\":"@;
    let v2 = spec_json_opt_str(m.client_order_id);
    let d3 = ",\"executedQty\":"@;
    let v3 = spec_json_opt_str(m.executed_qty);
    let d4 = ",\"status\":"@;
    let v4 = spec_json_opt_str(m.status);
    reveal_strlit(",\"clientOrderId\":");

    let w = spec_to_json_prices(m);
    let r9 = w;
    let r8 = v4 + r9;
    let r7 = d4 + r8;
    let r6 = v3 + r7;
    let r5 = d3 + r6;
    let r4 = v2 + r5;
    let r3 = d2 + r4;
    let r2 = v1 + r3;
    let r1 = d1 + r2;
    let r0 = v0 + r1;

    assert(t.subrange(0, t.len() as int) =~= t);
    assert(t =~= h + r0);

    let c0 = h.len() as int;
    lemma_step(t, 0, h, r0);
    let c1 = c0 + v0.len();
    lemma_step(t, c0, v0, r1);
    let c2 = c1 + d1.len();
    lemma_step(t, c1, d1, r2);
    let c3 = c2 + v1.len();
    lemma_step(t, c2, v1, r3);
    let c4 = c3 + d2.len();
    lemma_step(t, c3, d2, r4);
    let c5 = c4 + v2.len();
    lemma_step(t, c4, v2, r5);
    let c6 = c5 + d3.len();
    lemma_step(t, c5, d3, r6);
    let c7 = c6 + v3.len();
    lemma_step(t, c6, v3, r7);
    let c8 = c7 + d4.len();
    lemma_step(t, c7, d4, r8);
    let c9 = c8 + v4.len();
    lemma_step(t, c8, v4, r9);

    assert(spec_expect(t, 0, h) == Some(c0));
    lemma_scan_opt_str_at(t, c0, Some(m.symbol));
    assert(spec_expect(t, c1, d1) == Some(c2));
    assert(!crate::decimal::is_digit(t[c3])) by {
        assert(t[c3 + 0] == d2[0]);
        assert(d2[0] == ',');
    }
    lemma_scan_opt_u64_at(t, c2, m.order_id);
    assert(spec_expect(t, c3, d2) == Some(c4));
    lemma_scan_opt_str_at(t, c4, m.client_order_id);
    assert(spec_expect(t, c5, d3) == Some(c6));
    lemma_scan_opt_str_at(t, c6, m.executed_qty);
    assert(spec_expect(t, c7, d4) == Some(c8));
    lemma_scan_opt_str_at(t, c8, m.status);
    lemma_round_trip_tail(t, c9, m);
    assert(spec_from_json(t) == Some(m));
}

/// Truncated body text for an error message: its first 200
/// characters.
pub fn error_body_excerpt(body: &str) -> (r: String)
    ensures
        r@ == body@.take(
            if 200 <= body@.len() {
                200int
            } else {
                body@.len() as int
            },
        ),
{
    crate::strutil::truncate_chars(body, 200)
}

/// The outcome of an order call: the parsed response iff the venue
/// answered 2xx and the body parsed. A refusal carries the status
/// text and exactly the first 200 characters of the body; an
/// unreadable body carries the parse message.
pub fn order_call_outcome(
    status_is_success: bool,
    status_text: &str,
    body: &str,
    parsed: Option<OrderResponse>,
) -> (r: Result<OrderResponse, crate::client::ExchangeError>)
    ensures
        r is Ok <==> status_is_success && parsed is Some,
        status_is_success && parsed is Some ==> r->Ok_0 == parsed->Some_0,
        !status_is_success ==> (r matches Err(crate::client::ExchangeError::Other(m)) && m@
            == "order API error: status "@ + status_text@ + ", response: "@ + body@.take(
            if 200 <= body@.len() {
                200int
            } else {
                body@.len() as int
            },
        )),
        status_is_success && parsed is None ==> (r matches Err(
            crate::client::ExchangeError::Other(m),
        ) && m@ == "failed to parse order response"@),
{
    if !status_is_success {
        let mut msg = String::from_str("order API error: status ");
        msg.append(status_text);
        msg.append(", response: ");
        let excerpt = error_body_excerpt(body);
        msg.append(excerpt.as_str());
        proof {
            assert(msg@ =~= "order API error: status "@ + status_text@ + ", response: "@
                + body@.take(
                if 200 <= body@.len() {
                    200int
                } else {
                    body@.len() as int
                },
            ));
        }
        return Err(crate::client::ExchangeError::Other(msg));
    }
    match parsed {
        Some(resp) => Ok(resp),
        None => Err(
            crate::client::ExchangeError::Other(
                String::from_str("failed to parse order response"),
            ),
        ),
    }
}

} // verus!

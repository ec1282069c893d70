//! Tests of the text layer: string primitives, parameter sorting,
//! JSON escaping, and the stored-row error paths.

use trade::order::{order_response_from_json, order_response_to_json, OrderResponse};
use trade::params::{build_payload, sort_params, str_lex_lt};
use trade::records::{trade_record_from_row, trade_record_to_row, MarketType, TradeRecord, TradeSide, TradeType};
use trade::strutil::{ascii_lowercase, str_contains, str_ends_with, str_eq, truncate_chars};
use trade::trader::BinanceTrader;

fn s(x: &str) -> String {
    x.to_string()
}

#[test]
fn string_primitives() {
    assert!(str_eq("abc", "abc"));
    assert!(!str_eq("abc", "abd"));
    assert!(!str_eq("abc", "ab"));
    assert!(str_contains("code -4046 returned", "-4046"));
    assert!(!str_contains("code -40 46", "-4046"));
    assert!(str_contains("abc", ""));
    assert!(str_ends_with("BTCUSDT", "USDT"));
    assert!(!str_ends_with("BTC", "USDT"));
    assert_eq!(truncate_chars("hello", 3), "hel");
    assert_eq!(truncate_chars("hi", 10), "hi");
    assert_eq!(ascii_lowercase("CARRY"), "carry");
    assert_eq!(ascii_lowercase("Reverse-1"), "reverse-1");
}

#[test]
fn lexicographic_order() {
    assert!(str_lex_lt("apiKey", "timestamp"));
    assert!(str_lex_lt("", "a"));
    assert!(!str_lex_lt("a", ""));
    assert!(!str_lex_lt("abc", "abc"));
    assert!(str_lex_lt("ab", "abc"));
    assert!(str_lex_lt("Z", "a")); // upper case sorts first by code point
}

#[test]
fn param_sorting_and_payload() {
    let params = vec![
        (s("timestamp"), s("2")),
        (s("apiKey"), s("K")),
        (s("recvWindow"), s("5000")),
    ];
    let sorted = sort_params(&params);
    let keys: Vec<&str> = sorted.iter().map(|p| p.0.as_str()).collect();
    assert_eq!(keys, ["apiKey", "recvWindow", "timestamp"]);
    assert_eq!(build_payload(&sorted), "apiKey=K&recvWindow=5000&timestamp=2");
    // A later binding for the same key replaces the earlier one.
    let shadowed = vec![(s("a"), s("1")), (s("b"), s("2")), (s("a"), s("3"))];
    let sorted = sort_params(&shadowed);
    assert_eq!(build_payload(&sorted), "a=3&b=2");
}

#[test]
fn json_escapes_round_trip() {
    let resp = OrderResponse {
        symbol: s("A\"B\\C\tD"),
        order_id: None,
        client_order_id: None,
        executed_qty: None,
        status: Some(s("NEW\nLINE")),
        fills_first_price: None,
        cummulative_quote_qty: None,
        price: None,
        avg_price: None,
        raw: s("{}"),
    };
    let text = order_response_to_json(&resp);
    let back = order_response_from_json(&text).expect("escaped text parses");
    assert_eq!(back.symbol, resp.symbol);
    assert_eq!(back.status, resp.status);
    assert_eq!(back.order_id, None);
    assert_eq!(back.raw, resp.raw);
    // serde agrees on what the escapes mean.
    let v: serde_json::Value = serde_json::from_str(&text).expect("well-formed JSON");
    assert_eq!(v["symbol"], "A\"B\\C\tD");
    assert_eq!(v["status"], "NEW\nLINE");
}

#[test]
fn stored_row_error_paths() {
    let rec = TradeRecord {
        executed_at_ms: 0,
        exchange: s("binance"),
        symbol: s("BTCUSDT"),
        market_type: MarketType::Spot,
        side: TradeSide::Buy,
        trade_type: TradeType::Market,
        executed_price: None,
        quantity: 1,
        request_query_string: None,
        api_response: None,
        metadata: None,
        is_liquidation: false,
    };
    let mut row = trade_record_to_row(&rec, 1);
    row.side = s("HOLD");
    assert!(trade_record_from_row(&row).is_err());
    let mut row = trade_record_to_row(&rec, 1);
    row.executed_at = s("not a time");
    assert!(trade_record_from_row(&row).is_err());
}

#[test]
fn base_asset_edge_cases() {
    assert_eq!(BinanceTrader::base_asset_from_symbol("USDT"), "");
    assert_eq!(BinanceTrader::base_asset_from_symbol("XPLUSDT"), "XPL");
    assert_eq!(BinanceTrader::base_asset_from_symbol("SOLUSD"), "SOL");
}

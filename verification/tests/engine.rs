//! End-to-end tests of the trading engine's verified core, on
//! concrete values: quantisation, sizing, basis triggers, signing,
//! records and liquidation planning.

use trade::assets::{convert_balances, convert_positions, find_available_balance, RawBalance, RawPosition};
use trade::assoc::StrMap;
use trade::basis::{basis_bps, decide_transition, ArbitrageState, CarryKind, PositionAction};
use trade::client::{
    build_futures_order_query, build_order_query, build_signed_url, build_timestamp_query,
    BinanceClient, Currency, ExchangeId, FeeInfo, HttpBinanceOrderClient,
};
use trade::decimal::{format_qty_8, parse_qty, parse_signed_qty};
use trade::events::{build_subscribe_request, classify_event_type, UserEventKind};
use trade::liquidate::{plan_futures_liquidation, plan_spot_liquidation};
use trade::lot_size::{clamp_quantity_with_filter, LotSizeFilter, QTY_SCALE};
use trade::order::{
    extract_price_from_order_response, order_call_outcome, prepare_bithumb_order_record,
    order_response_from_json, order_response_to_json, prepare_spot_order_record, OrderResponse,
};
use trade::prices::BinancePriceFeed;
use trade::records::{
    build_position_record, determine_exchanges_for_intra_basis, position_record_from_row,
    position_record_to_row, trade_record_from_row, trade_record_to_row, MarketType, PositionRecord,
    TradeRecord, TradeSide, TradeType,
};
use trade::rules::{BinanceFuturesApi, BinanceSpotApi, LotSizeEntry};
use trade::sign::generate_signature;
use trade::sizer::find_hedged_pair;
use trade::timefmt::{format_rfc3339_ms, parse_rfc3339_ms};
use trade::trader::{margin_type_change_accepted, BinanceTrader, BinanceUserStream};
use hmac::Mac;

fn s(x: &str) -> String {
    x.to_string()
}

// One 1e-8 unit per whole-coin helper.
fn units(whole: u64, frac_1e8: u64) -> u64 {
    whole * QTY_SCALE + frac_1e8
}

#[test]
fn test_binance_asset_client_id() {
    let client = BinanceClient::new(None, None);
    assert_eq!(client.id(), ExchangeId::Binance);
}

#[test]
fn fee_info_and_currencies() {
    let free = FeeInfo::free();
    assert_eq!(free.maker, 0);
    assert_eq!(free.taker, 0);
    let fee = FeeInfo::new(40_000, 40_000); // 0.04%
    assert_eq!(fee.taker, 40_000);
    assert_ne!(Currency::USDT, Currency::KRW);
}

#[test]
fn clamp_at_step() {
    // filter = (min 0.001, max 9000, step 0.001), qty 1.23456789 -> 1.234
    let filter = LotSizeFilter { min_qty: 100_000, max_qty: 9_000 * QTY_SCALE, step_size: 100_000 };
    assert_eq!(clamp_quantity_with_filter(filter, 123_456_789), 123_400_000);
}

#[test]
fn clamp_below_min_is_dust() {
    // filter = (min 0.01, max 9000, step 0.001), qty 0.009 -> 0
    let filter = LotSizeFilter {
        min_qty: 1_000_000,
        max_qty: 9_000 * QTY_SCALE,
        step_size: 100_000,
    };
    assert_eq!(clamp_quantity_with_filter(filter, 900_000), 0);
}

#[test]
fn clamp_zero_and_cap() {
    let filter = LotSizeFilter { min_qty: 100, max_qty: 1_000_000, step_size: 100 };
    assert_eq!(clamp_quantity_with_filter(filter, 0), 0);
    assert_eq!(clamp_quantity_with_filter(filter, 2_000_000), 1_000_000);
}

#[test]
fn clamp_is_idempotent_on_examples() {
    let filter = LotSizeFilter { min_qty: 100_000, max_qty: 9_000 * QTY_SCALE, step_size: 100_000 };
    for qty in [0u64, 900, 100_000, 123_456_789, u64::MAX / 2] {
        let once = clamp_quantity_with_filter(filter, qty);
        let twice = clamp_quantity_with_filter(filter, once);
        assert_eq!(once, twice);
        if once != 0 {
            assert!(filter.min_qty <= once && once <= filter.max_qty);
            assert_eq!(once % filter.step_size, 0);
        }
    }
}

#[test]
fn hedged_pair_example() {
    // steps 0.001 both, fee 0.001, target 10.0 -> fut 10.000, spot 10.010
    let step = 100_000u64;
    let spot_f = Some(LotSizeFilter { min_qty: step, max_qty: 9_000 * QTY_SCALE, step_size: step });
    let fut_f = Some(LotSizeFilter { min_qty: step, max_qty: 9_000 * QTY_SCALE, step_size: step });
    let fee = 100_000u64; // 0.001 of one
    let pair = find_hedged_pair(spot_f, fut_f, units(10, 0), fee).expect("feasible pair");
    assert_eq!(pair.fut_order_qty, units(10, 0));
    assert_eq!(pair.spot_order_qty, units(10, 1_000_000)); // 10.010
    // |delta| within 5e-4 of a coin: 5e-4 in 1e-16 units is 5e12.
    let delta_abs = pair.delta_scaled.unsigned_abs();
    assert!(delta_abs <= 5 * 10u128.pow(12), "delta {delta_abs}");
    // Tolerance promised by the sizer: half of min(step, step).
    assert!(2 * delta_abs <= (step as u128) * (QTY_SCALE as u128));
}

#[test]
fn hedged_pair_infeasible_cases() {
    let step = 100_000u64;
    let fut_f = Some(LotSizeFilter { min_qty: step, max_qty: 9_000 * QTY_SCALE, step_size: step });
    // No futures filter: no pair.
    assert!(find_hedged_pair(None, None, units(10, 0), 100_000).is_none());
    // Zero target: no pair.
    assert!(find_hedged_pair(None, fut_f, 0, 100_000).is_none());
    // Fee of 100%: no pair.
    assert!(find_hedged_pair(None, fut_f, units(10, 0), QTY_SCALE).is_none());
}

#[test]
fn basis_entry_trigger() {
    // entry 30 bps, spot 100, mark 100.35 -> bps 35, FLAT -> LONG_BASIS carry open
    let spot = units(100, 0);
    let mark = units(100, 35_000_000); // 100.35
    assert_eq!(basis_bps(spot, mark), 35);
    let t = decide_transition(ArbitrageState::Flat, spot, mark, 30, 5).expect("entry trigger");
    assert_eq!(t.carry, CarryKind::Carry);
    assert_eq!(t.action, PositionAction::Open);
    assert_eq!(t.spot_side, TradeSide::Buy);
    assert_eq!(t.fut_side, TradeSide::Sell);
    assert!(!t.reduce_only);
    assert_eq!(t.next_state, ArbitrageState::LongBasis);
}

#[test]
fn basis_exit_trigger() {
    // exit 5 bps, spot 100, mark 100.04 -> bps 4, LONG_BASIS -> FLAT carry close
    let spot = units(100, 0);
    let mark = units(100, 4_000_000); // 100.04
    assert_eq!(basis_bps(spot, mark), 4);
    let t = decide_transition(ArbitrageState::LongBasis, spot, mark, 30, 5).expect("exit trigger");
    assert_eq!(t.carry, CarryKind::Carry);
    assert_eq!(t.action, PositionAction::Close);
    assert_eq!(t.spot_side, TradeSide::Sell);
    assert_eq!(t.fut_side, TradeSide::Buy);
    assert!(t.reduce_only);
    assert_eq!(t.next_state, ArbitrageState::Flat);
}

#[test]
fn basis_no_trigger_inside_bands() {
    let spot = units(100, 0);
    let mark = units(100, 10_000_000); // 100.10 -> 10 bps
    assert!(decide_transition(ArbitrageState::Flat, spot, mark, 30, 5).is_none());
    assert!(decide_transition(ArbitrageState::LongBasis, spot, mark, 30, 5).is_none());
    // Negative basis opens the reverse position.
    let below = units(99, 60_000_000); // 99.60 -> -40 bps
    let t = decide_transition(ArbitrageState::Flat, spot, below, 30, 5).expect("reverse open");
    assert_eq!(t.carry, CarryKind::Reverse);
    assert_eq!(t.next_state, ArbitrageState::ShortBasis);
    assert_eq!(basis_bps(spot, below), -40);
}

#[test]
fn signature_known_vector() {
    // HMAC-SHA256("key", "The quick brown fox jumps over the lazy dog")
    let sig = generate_signature("The quick brown fox jumps over the lazy dog", "key");
    assert_eq!(
        sig,
        "f7bc83f430538424b13298e6aa6fb143ef4d59a14946175997479dbc2d1a3cd8"
    );
}

#[test]
fn signature_matches_reference_hmac() {
    let query = "symbol=BTCUSDT&side=BUY&type=MARKET&quantity=1.00000000&timestamp=1700000000000&recvWindow=50000";
    let secret = "SECRET-REDACTED";
    let sig = generate_signature(query, secret);
    let mut mac = hmac::Hmac::<sha2::Sha256>::new_from_slice(secret.as_bytes()).unwrap();
    mac.update(query.as_bytes());
    let expected: String = mac
        .finalize()
        .into_bytes()
        .iter()
        .map(|b| format!("{:02x}", b))
        .collect();
    assert_eq!(sig, expected);
}

#[test]
fn signature_is_order_independent() {
    let forward = vec![
        (s("apiKey"), s("K1")),
        (s("recvWindow"), s("5000")),
        (s("timestamp"), s("1700000000000")),
    ];
    let backward = vec![
        (s("timestamp"), s("1700000000000")),
        (s("apiKey"), s("K1")),
        (s("recvWindow"), s("5000")),
    ];
    let s1 = BinanceUserStream::sign_user_data_params(&forward, "secret");
    let s2 = BinanceUserStream::sign_user_data_params(&backward, "secret");
    assert_eq!(s1, s2);
    assert_eq!(s1.len(), 64);
    // And the payload it signs is the sorted join.
    let expected = generate_signature("apiKey=K1&recvWindow=5000&timestamp=1700000000000", "secret");
    assert_eq!(s1, expected);
    // A signature key among the params is never part of the payload.
    let mut with_sig = forward.clone();
    with_sig.push((s("signature"), s("deadbeef")));
    assert_eq!(BinanceUserStream::sign_user_data_params(&with_sig, "secret"), s1);
}

#[test]
fn order_query_texts() {
    let q = build_order_query("BTCUSDT", TradeSide::Buy, units(1, 0), 1_700_000_000_000);
    assert_eq!(
        q,
        "symbol=BTCUSDT&side=BUY&type=MARKET&quantity=1.00000000&timestamp=1700000000000&recvWindow=50000"
    );
    let fq = build_futures_order_query("ETHUSDT", TradeSide::Sell, 123_400_000, 7, true);
    assert_eq!(
        fq,
        "symbol=ETHUSDT&side=SELL&type=MARKET&quantity=1.23400000&timestamp=7&recvWindow=50000&reduceOnly=true"
    );
    assert_eq!(build_timestamp_query(42), "timestamp=42&recvWindow=50000");
}

#[test]
fn signed_url_embeds_signature() {
    let url = build_signed_url("https://api.binance.com", "/api/v3/order", "timestamp=1", "sec");
    let sig = generate_signature("timestamp=1", "sec");
    assert_eq!(
        url,
        format!("https://api.binance.com/api/v3/order?timestamp=1&signature={}", sig)
    );
}

#[test]
fn order_client_refuses_unsigned() {
    let no_creds = BinanceClient::new(None, None);
    let with_creds = BinanceClient::new(Some(s("K")), Some(s("S")));
    let client = HttpBinanceOrderClient::new(no_creds, with_creds.clone());
    assert!(client
        .build_spot_order_request("https://x", "/o", "BTCUSDT", TradeSide::Buy, 1, 1)
        .is_err());
    let ok = client
        .build_futures_order_request("https://x", "/f", "BTCUSDT", TradeSide::Sell, 5, 1, true)
        .expect("credentials present");
    assert_eq!(ok.api_key, "K");
    assert!(ok.query_string.ends_with("&reduceOnly=true"));
}

#[test]
fn decimal_parse_and_format() {
    assert_eq!(parse_qty("1.23456789"), Some(123_456_789));
    assert_eq!(parse_qty("0.009"), Some(900_000));
    assert_eq!(parse_qty("10"), Some(units(10, 0)));
    assert_eq!(parse_qty("0.000000001"), Some(0)); // floors past 8 places
    assert_eq!(parse_qty(""), None);
    assert_eq!(parse_qty("."), None);
    assert_eq!(parse_qty("1..2"), None);
    assert_eq!(parse_qty("1e3"), None);
    assert_eq!(parse_qty("99999999999999999999999"), None); // beyond u64
    assert_eq!(format_qty_8(123_400_000), "1.23400000");
    assert_eq!(format_qty_8(0), "0.00000000");
    assert_eq!(format_qty_8(units(10, 1_000_000)), "10.01000000");
    assert_eq!(parse_signed_qty("-0.5"), Some((true, 50_000_000)));
    assert_eq!(parse_signed_qty("0.5"), Some((false, 50_000_000)));
    assert_eq!(parse_signed_qty("-"), None);
}

#[test]
fn rfc3339_round_trip() {
    assert_eq!(format_rfc3339_ms(0), "1970-01-01T00:00:00+00:00");
    for t in [0i64, 1_700_000_000_123, 253_402_300_799_999] {
        let text = format_rfc3339_ms(t);
        assert_eq!(parse_rfc3339_ms(&text), Some(t));
    }
    assert_eq!(parse_rfc3339_ms("not a time"), None);
}

fn sample_response() -> OrderResponse {
    OrderResponse {
        symbol: s("BTCUSDT"),
        order_id: Some(42),
        client_order_id: Some(s("cid-1")),
        executed_qty: Some(s("10")),
        status: Some(s("FILLED")),
        fills_first_price: None,
        cummulative_quote_qty: None,
        price: None,
        avg_price: None,
        raw: s("{\"symbol\":\"BTCUSDT\",\"orderId\":42}"),
    }
}

#[test]
fn price_extraction_priority() {
    let mut r = sample_response();
    assert_eq!(extract_price_from_order_response(&r), None);
    // avgPrice is the last resort.
    r.avg_price = Some(s("99.5"));
    assert_eq!(extract_price_from_order_response(&r), Some(units(99, 50_000_000)));
    // A top-level price beats it.
    r.price = Some(s("100"));
    assert_eq!(extract_price_from_order_response(&r), Some(units(100, 0)));
    // The cumulative-quote average beats both: 1005 / 10 = 100.5.
    r.cummulative_quote_qty = Some(s("1005"));
    assert_eq!(
        extract_price_from_order_response(&r),
        Some(units(100, 50_000_000))
    );
    // The first fill's price wins outright.
    r.fills_first_price = Some(s("101.25"));
    assert_eq!(extract_price_from_order_response(&r), Some(units(101, 25_000_000)));
    // Non-positive values are never accepted.
    let mut zero = sample_response();
    zero.price = Some(s("0"));
    assert_eq!(extract_price_from_order_response(&zero), None);
    // An average below one 1e-8 unit floors to zero and is no price:
    // the extraction falls through to the next candidate.
    let mut tiny = sample_response();
    tiny.cummulative_quote_qty = Some(s("0.01"));
    tiny.executed_qty = Some(s("2000000"));
    assert_eq!(extract_price_from_order_response(&tiny), None);
    tiny.avg_price = Some(s("99.5"));
    assert_eq!(extract_price_from_order_response(&tiny), Some(units(99, 50_000_000)));
}

#[test]
fn order_outcome_truncates_error_body() {
    let body: String = "x".repeat(250);
    let err = order_call_outcome(false, "418", &body, None).unwrap_err();
    let msg = match err {
        trade::client::ExchangeError::Other(m) => m,
        trade::client::ExchangeError::Http(m) => m,
    };
    assert_eq!(
        msg,
        format!("order API error: status 418, response: {}", "x".repeat(200))
    );
    assert!(order_call_outcome(true, "200", "", Some(sample_response())).is_ok());
    assert!(order_call_outcome(true, "200", "{}", None).is_err());
}

#[test]
fn trade_record_row_round_trip() {
    let rec = TradeRecord {
        executed_at_ms: 1_700_000_000_123,
        exchange: s("binance"),
        symbol: s("BTCUSDT"),
        market_type: MarketType::Futures,
        side: TradeSide::Sell,
        trade_type: TradeType::Market,
        executed_price: Some(units(100, 0)),
        quantity: units(2, 50_000_000),
        request_query_string: Some(s("symbol=BTCUSDT")),
        api_response: Some(s("{\"ok\":true}")),
        metadata: None,
        is_liquidation: true,
    };
    let row = trade_record_to_row(&rec, 7);
    assert_eq!(row.market_type, "FUTURES");
    assert_eq!(row.side, "SELL");
    assert_eq!(row.trade_type, "MARKET");
    let back = trade_record_from_row(&row).expect("row reads back");
    assert_eq!(back.id, 7);
    assert_eq!(back.record.executed_at_ms, rec.executed_at_ms);
    assert_eq!(back.record.exchange, rec.exchange);
    assert_eq!(back.record.symbol, rec.symbol);
    assert_eq!(back.record.market_type, rec.market_type);
    assert_eq!(back.record.side, rec.side);
    assert_eq!(back.record.trade_type, rec.trade_type);
    assert_eq!(back.record.executed_price, rec.executed_price);
    assert_eq!(back.record.quantity, rec.quantity);
    assert_eq!(back.record.request_query_string, rec.request_query_string);
    assert_eq!(back.record.api_response, rec.api_response);
    assert_eq!(back.record.metadata, rec.metadata);
    assert_eq!(back.record.is_liquidation, rec.is_liquidation);
}

#[test]
fn position_record_row_round_trip() {
    let rec = PositionRecord {
        executed_at_ms: 1_700_000_000_000,
        bot_name: s("intra_basis"),
        carry: s("CARRY"),
        action: s("OPEN"),
        symbol: s("BTCUSDT"),
        spot_price: units(100, 0),
        futures_mark: units(100, 35_000_000),
        buy_exchange: s("binance_spot"),
        sell_exchange: s("binance_futures"),
    };
    let row = position_record_to_row(&rec, 3);
    let back = position_record_from_row(&row).expect("row reads back");
    assert_eq!(back.id, 3);
    assert_eq!(back.record.executed_at_ms, rec.executed_at_ms);
    assert_eq!(back.record.bot_name, rec.bot_name);
    assert_eq!(back.record.carry, rec.carry);
    assert_eq!(back.record.action, rec.action);
    assert_eq!(back.record.symbol, rec.symbol);
    assert_eq!(back.record.spot_price, rec.spot_price);
    assert_eq!(back.record.futures_mark, rec.futures_mark);
    assert_eq!(back.record.buy_exchange, rec.buy_exchange);
    assert_eq!(back.record.sell_exchange, rec.sell_exchange);
}

#[test]
fn intra_basis_exchange_sides() {
    let e = |c: &str, a: &str| determine_exchanges_for_intra_basis("binance", c, a);
    assert_eq!(e("carry", "OPEN"), (s("binance_spot"), s("binance_futures")));
    assert_eq!(e("carry", "CLOSE"), (s("binance_futures"), s("binance_spot")));
    assert_eq!(e("reverse", "OPEN"), (s("binance_futures"), s("binance_spot")));
    assert_eq!(e("reverse", "CLOSE"), (s("binance_spot"), s("binance_futures")));
    assert_eq!(e("sideways", "OPEN"), (s("unknown"), s("unknown")));
}

#[test]
fn position_record_lowers_carry() {
    let rec = build_position_record(
        "intra_basis",
        "CARRY",
        "OPEN",
        "BTCUSDT",
        units(100, 0),
        units(100, 35_000_000),
        "binance",
        1_700_000_000_000,
    );
    assert_eq!(rec.carry, "CARRY");
    assert_eq!(rec.buy_exchange, "binance_spot");
    assert_eq!(rec.sell_exchange, "binance_futures");
}

#[test]
fn rule_cache_loads_and_clamps() {
    let client = BinanceClient::new(None, None);
    let mut spot = BinanceSpotApi::new(client.clone());
    let entries = vec![
        LotSizeEntry {
            symbol: s("BTCUSDT"),
            min_qty: s("0.001"),
            max_qty: s("9000"),
            step_size: s("0.001"),
        },
        LotSizeEntry {
            symbol: s("ETHUSDT"),
            min_qty: s("garbled"),
            max_qty: s("garbled"),
            step_size: s("garbled"),
        },
    ];
    spot.load_exchange_info(&entries);
    let f = spot.get_lot_size("BTCUSDT").expect("loaded");
    assert_eq!(f.min_qty, 100_000);
    assert_eq!(f.max_qty, 9_000 * QTY_SCALE);
    assert_eq!(f.step_size, 100_000);
    // Unreadable bounds fall back to no-min, no-max, one-unit step.
    let g = spot.get_lot_size("ETHUSDT").expect("loaded with defaults");
    assert_eq!(g.min_qty, 0);
    assert_eq!(g.max_qty, u64::MAX);
    assert_eq!(g.step_size, QTY_SCALE);
    // Clamping a symbol without a rule passes through.
    assert_eq!(spot.clamp_quantity("XRPUSDT", 12_345), 12_345);
    assert_eq!(spot.clamp_quantity("BTCUSDT", 123_456_789), 123_400_000);

    let mut fut = BinanceFuturesApi::new(client);
    fut.load_exchange_info(&entries);
    assert_eq!(fut.clamp_quantity("BTCUSDT", 123_456_789), 123_400_000);
}

#[test]
fn trader_facade_sizes_from_caches() {
    let client = BinanceClient::new(None, None);
    let mut spot = BinanceSpotApi::new(client.clone());
    let mut fut = BinanceFuturesApi::new(client.clone());
    let entries = vec![LotSizeEntry {
        symbol: s("BTCUSDT"),
        min_qty: s("0.001"),
        max_qty: s("9000"),
        step_size: s("0.001"),
    }];
    spot.load_exchange_info(&entries);
    fut.load_exchange_info(&entries);
    let trader = BinanceTrader::assemble(
        HttpBinanceOrderClient::new(client.clone(), client.clone()),
        spot,
        fut,
        BinancePriceFeed::new(),
        None,
    );
    assert_eq!(trader.exchange_name(), "binance");
    assert_eq!(trader.clamp_spot_quantity("BTCUSDT", 123_456_789), 123_400_000);
    let pair = trader
        .find_hedged_pair("BTCUSDT", units(10, 0), 100_000)
        .expect("feasible");
    assert_eq!(pair.fut_order_qty, units(10, 0));
    assert_eq!(pair.spot_order_qty, units(10, 1_000_000));
}

#[test]
fn base_asset_strips_quote() {
    assert_eq!(BinanceTrader::base_asset_from_symbol("BTCUSDT"), "BTC");
    assert_eq!(BinanceTrader::base_asset_from_symbol("ETHUSD"), "ETH");
    assert_eq!(BinanceTrader::base_asset_from_symbol("BTC-KRW"), "BTC-KRW");
}

#[test]
fn balances_and_positions_convert() {
    let rows = vec![
        RawBalance { asset: s("BTC"), free: s("1.5"), locked: s("0.5") },
        RawBalance { asset: s("DUST"), free: s("0"), locked: s("0") },
        RawBalance { asset: s("USDT"), free: s("100"), locked: s("bad") },
    ];
    let assets = convert_balances(&rows, 1_000);
    assert_eq!(assets.len(), 2);
    assert_eq!(assets[0].currency, "BTC");
    assert_eq!(assets[0].total, units(2, 0));
    assert_eq!(assets[0].available, units(1, 50_000_000));
    assert_eq!(assets[0].in_use, units(0, 50_000_000));
    assert_eq!(assets[0].total, assets[0].available + assets[0].in_use);
    assert_eq!(find_available_balance(&assets, "USDT"), units(100, 0));
    assert_eq!(find_available_balance(&assets, "XRP"), 0);

    let pos_rows = vec![
        RawPosition { symbol: s("BTCUSDT"), position_amt: s("-0.25") },
        RawPosition { symbol: s("ETHUSDT"), position_amt: s("0") },
    ];
    let positions = convert_positions(&pos_rows, 1_000);
    assert_eq!(positions.len(), 1);
    assert_eq!(positions[0].symbol, "BTCUSDT");
    assert_eq!(positions[0].position_amt, -(units(0, 25_000_000) as i128));
}

#[test]
fn price_feed_caches_and_stamps() {
    let mut feed = BinancePriceFeed::new();
    assert_eq!(feed.get_spot_price("BTCUSDT"), None);
    feed.record_spot_price("BTCUSDT", units(100, 0), 100);
    feed.record_futures_mark_price("BTCUSDT", units(101, 0), 50);
    assert_eq!(feed.get_spot_price("BTCUSDT"), Some(units(100, 0)));
    assert_eq!(feed.get_futures_mark_price("BTCUSDT"), Some(units(101, 0)));
    // The stamp never moves backwards.
    let st = feed.price_state.get("BTCUSDT").expect("state present");
    assert_eq!(st.last_updated_ms, Some(100));

    // A ticker for another symbol is skipped; a bad price is an error.
    assert_eq!(
        feed.apply_spot_ticker("BTCUSDT", "ETHUSDT", "1", 200).unwrap(),
        false
    );
    assert!(feed.apply_spot_ticker("BTCUSDT", "BTCUSDT", "junk", 200).is_err());
    assert_eq!(
        feed.apply_spot_ticker("BTCUSDT", "BTCUSDT", "102.5", 200).unwrap(),
        true
    );
    assert_eq!(feed.get_spot_price("BTCUSDT"), Some(units(102, 50_000_000)));
}

#[test]
fn liquidation_plans_sales_and_closes() {
    let mut rules: StrMap<LotSizeFilter> = StrMap::new();
    rules.insert(
        s("BTCUSDT"),
        LotSizeFilter { min_qty: 100_000, max_qty: 9_000 * QTY_SCALE, step_size: 100_000 },
    );
    let assets = convert_balances(
        &vec![
            RawBalance { asset: s("BTC"), free: s("1.2345678"), locked: s("0") },
            RawBalance { asset: s("USDT"), free: s("1000"), locked: s("0") },
        ],
        0,
    );
    let plan = plan_spot_liquidation(&assets, "USDT", "USDT", &rules);
    assert_eq!(plan.len(), 1);
    assert_eq!(plan[0].symbol, "BTCUSDT");
    assert_eq!(plan[0].side, TradeSide::Sell);
    assert_eq!(plan[0].market, MarketType::Spot);
    assert_eq!(plan[0].qty, 123_400_000); // clamped to the grid
    assert!(!plan[0].reduce_only);

    let positions = convert_positions(
        &vec![RawPosition { symbol: s("BTCUSDT"), position_amt: s("-0.5") }],
        0,
    );
    let fplan = plan_futures_liquidation(&positions, &rules);
    assert_eq!(fplan.len(), 1);
    assert_eq!(fplan[0].side, TradeSide::Buy); // shorts buy back
    assert_eq!(fplan[0].qty, units(0, 50_000_000));
    assert!(fplan[0].reduce_only);
}

#[test]
fn liquidation_is_idempotent_on_flat_portfolio() {
    let rules: StrMap<LotSizeFilter> = StrMap::new();
    // A portfolio holding only the quote currency plans nothing,
    // however many times the liquidator runs.
    let assets = convert_balances(
        &vec![RawBalance { asset: s("USDT"), free: s("1000"), locked: s("0") }],
        0,
    );
    let positions = convert_positions(&Vec::new(), 0);
    for _ in 0..2 {
        assert!(plan_spot_liquidation(&assets, "USDT", "USDT", &rules).is_empty());
        assert!(plan_futures_liquidation(&positions, &rules).is_empty());
    }
}

#[test]
fn margin_change_accepts_no_change_error() {
    assert!(margin_type_change_accepted(true, ""));
    assert!(margin_type_change_accepted(
        false,
        "{\"code\":-4046,\"msg\":\"No need to change margin type.\"}"
    ));
    assert!(!margin_type_change_accepted(false, "{\"code\":-1102}"));
}

#[test]
fn event_classification() {
    assert_eq!(classify_event_type("executionReport"), UserEventKind::ExecutionReport);
    assert_eq!(
        classify_event_type("outboundAccountPosition"),
        UserEventKind::OutboundAccountPosition
    );
    assert_eq!(classify_event_type("balanceUpdate"), UserEventKind::BalanceUpdate);
    assert_eq!(classify_event_type("listenKeyExpired"), UserEventKind::Unknown);
}

#[test]
fn subscribe_request_shape() {
    let (msg, sig) = build_subscribe_request("KEY123", "1700000000000", "secret");
    let expected_sig = generate_signature("apiKey=KEY123&timestamp=1700000000000", "secret");
    assert_eq!(sig, expected_sig);
    assert_eq!(
        msg,
        format!(
            "{{\"id\":\"user-stream-1\",\"method\":\"userDataStream.subscribe.signature\",\"params\":{{\"apiKey\":\"KEY123\",\"signature\":\"{}\",\"timestamp\":\"1700000000000\"}}}}",
            sig
        )
    );
    // The message parses as the JSON object serde would have produced.
    let v: serde_json::Value = serde_json::from_str(&msg).expect("well-formed JSON");
    assert_eq!(v["params"]["apiKey"], "KEY123");
}

#[test]
fn spot_order_record_preparation() {
    let resp = sample_response();
    let rec = prepare_spot_order_record(
        "binance", "BTCUSDT", "BUY", units(1, 0), "q=1", &resp, false, 1_000,
    )
    .expect("valid side");
    assert_eq!(rec.side, TradeSide::Buy);
    assert_eq!(rec.market_type, MarketType::Spot);
    // The stored response text reads back as the response itself.
    let stored = rec.api_response.as_deref().expect("response stored");
    let back = trade::order::order_response_from_json(stored).expect("stored text parses");
    assert_eq!(back.symbol, resp.symbol);
    assert_eq!(back.order_id, resp.order_id);
    assert_eq!(back.raw, resp.raw);
    assert!(prepare_spot_order_record(
        "binance", "BTCUSDT", "HOLD", 1, "q", &resp, false, 0
    )
    .is_none());
    // Bithumb reads the side off the endpoint path.
    let b = prepare_bithumb_order_record(
        "bithumb", "BTC-KRW", "/trade/market_sell", 1, "p", &resp, true, 0,
    )
    .expect("sell endpoint");
    assert_eq!(b.side, TradeSide::Sell);
    assert!(b.is_liquidation);
}

#[test]
fn order_response_json_round_trip() {
    let resp = OrderResponse {
        symbol: s("BTCUSDT"),
        order_id: Some(123456789),
        client_order_id: Some(s("my \"order\" \\ 1")),
        executed_qty: Some(s("10.5")),
        status: None,
        fills_first_price: Some(s("100.25")),
        cummulative_quote_qty: None,
        price: None,
        avg_price: Some(s("100.30")),
        raw: s("{\"symbol\":\"BTCUSDT\",\"orderId\":123456789,\"fills\":[{\"price\":\"100.25\"}]}"),
    };
    let text = order_response_to_json(&resp);
    let back = order_response_from_json(&text).expect("canonical text parses");
    assert_eq!(back.symbol, resp.symbol);
    assert_eq!(back.order_id, resp.order_id);
    assert_eq!(back.client_order_id, resp.client_order_id);
    assert_eq!(back.executed_qty, resp.executed_qty);
    assert_eq!(back.status, resp.status);
    assert_eq!(back.fills_first_price, resp.fills_first_price);
    assert_eq!(back.cummulative_quote_qty, resp.cummulative_quote_qty);
    assert_eq!(back.price, resp.price);
    assert_eq!(back.avg_price, resp.avg_price);
    assert_eq!(back.raw, resp.raw);
    // The text is itself well-formed JSON carrying the known fields.
    let v: serde_json::Value = serde_json::from_str(&text).expect("well-formed JSON");
    assert_eq!(v["symbol"], "BTCUSDT");
    assert_eq!(v["orderId"], 123456789);
    // A non-canonical text is rejected, not misread.
    assert!(order_response_from_json("{\"other\":1}").is_none());
}

//! Trade and position records: what every order and state transition
//! leaves behind, and their exact mapping onto stored rows.

use vstd::prelude::*;
use crate::strutil::str_eq;
use crate::timefmt::{rfc3339_of, format_rfc3339_ms, parse_rfc3339_ms, MAX_TIMESTAMP_MS};

verus! {

/// Order execution style.
#[derive(Debug, Clone, Copy, PartialEq, Eq, Structural)]
pub enum TradeType {
    Market,
    Limit,
    Other,
}

/// Spot or futures market.
#[derive(Debug, Clone, Copy, PartialEq, Eq, Structural)]
pub enum MarketType {
    Spot,
    Futures,
}

/// Buy or sell.
#[derive(Debug, Clone, Copy, PartialEq, Eq, Structural)]
pub enum TradeSide {
    Buy,
    Sell,
}

impl TradeType {
    /// The text a row stores for this trade type.
    pub open spec fn spec_str(self) -> Seq<char> {
        match self {
            TradeType::Market => "MARKET"@,
            TradeType::Limit => "LIMIT"@,
            TradeType::Other => "OTHER"@,
        }
    }

    /// Row text of the trade type.
    pub fn as_str(&self) -> (r: &'static str)
        ensures
            r@ == self.spec_str(),
    {
        match self {
            TradeType::Market => "MARKET",
            TradeType::Limit => "LIMIT",
            TradeType::Other => "OTHER",
        }
    }

    /// Which trade type a row text denotes, if any.
    pub open spec fn spec_from_str(s: Seq<char>) -> Option<TradeType> {
        if s == "MARKET"@ {
            Some(TradeType::Market)
        } else if s == "LIMIT"@ {
            Some(TradeType::Limit)
        } else if s == "OTHER"@ {
            Some(TradeType::Other)
        } else {
            None
        }
    }

    /// Read a trade type back from its row text.
    pub fn from_str(s: &str) -> (r: Option<TradeType>)
        ensures
            r == TradeType::spec_from_str(s@),
    {
        if str_eq(s, "MARKET") {
            Some(TradeType::Market)
        } else if str_eq(s, "LIMIT") {
            Some(TradeType::Limit)
        } else if str_eq(s, "OTHER") {
            Some(TradeType::Other)
        } else {
            None
        }
    }
}

/// The row text of each trade type names it back: the enum round-trips
/// through its stored text.
pub proof fn lemma_trade_type_round_trip(t: TradeType)
    ensures
        TradeType::spec_from_str(t.spec_str()) == Some(t),
{
    reveal_strlit("MARKET");
    reveal_strlit("LIMIT");
    reveal_strlit("OTHER");
    assert("MARKET"@.len() == 6);
    assert("LIMIT"@.len() == 5);
    assert("OTHER"@.len() == 5);
    assert("LIMIT"@[0] == 'L' && "OTHER"@[0] == 'O');
    assert("OTHER"@ != "MARKET"@ && "OTHER"@ != "LIMIT"@);
}

impl MarketType {
    /// The text a row stores for this market.
    pub open spec fn spec_str(self) -> Seq<char> {
        match self {
            MarketType::Spot => "SPOT"@,
            MarketType::Futures => "FUTURES"@,
        }
    }

    /// Row text of the market.
    pub fn as_str(&self) -> (r: &'static str)
        ensures
            r@ == self.spec_str(),
    {
        match self {
            MarketType::Spot => "SPOT",
            MarketType::Futures => "FUTURES",
        }
    }

    /// Which market a row text denotes, if any.
    pub open spec fn spec_from_str(s: Seq<char>) -> Option<MarketType> {
        if s == "SPOT"@ {
            Some(MarketType::Spot)
        } else if s == "FUTURES"@ {
            Some(MarketType::Futures)
        } else {
            None
        }
    }

    /// Read a market back from its row text.
    pub fn from_str(s: &str) -> (r: Option<MarketType>)
        ensures
            r == MarketType::spec_from_str(s@),
    {
        if str_eq(s, "SPOT") {
            Some(MarketType::Spot)
        } else if str_eq(s, "FUTURES") {
            Some(MarketType::Futures)
        } else {
            None
        }
    }
}

/// The row text of each market names it back.
pub proof fn lemma_market_type_round_trip(t: MarketType)
    ensures
        MarketType::spec_from_str(t.spec_str()) == Some(t),
{
    reveal_strlit("SPOT");
    reveal_strlit("FUTURES");
    assert("SPOT"@.len() == 4);
    assert("FUTURES"@.len() == 7);
    assert("FUTURES"@ != "SPOT"@);
}

impl TradeSide {
    /// The text a row stores for this side.
    pub open spec fn spec_str(self) -> Seq<char> {
        match self {
            TradeSide::Buy => "BUY"@,
            TradeSide::Sell => "SELL"@,
        }
    }

    /// Row text of the side.
    pub fn as_str(&self) -> (r: &'static str)
        ensures
            r@ == self.spec_str(),
    {
        match self {
            TradeSide::Buy => "BUY",
            TradeSide::Sell => "SELL",
        }
    }

    /// Which side a row text denotes, if any.
    pub open spec fn spec_from_str(s: Seq<char>) -> Option<TradeSide> {
        if s == "BUY"@ {
            Some(TradeSide::Buy)
        } else if s == "SELL"@ {
            Some(TradeSide::Sell)
        } else {
            None
        }
    }

    /// Read a side back from its row text.
    pub fn from_str(s: &str) -> (r: Option<TradeSide>)
        ensures
            r == TradeSide::spec_from_str(s@),
    {
        if str_eq(s, "BUY") {
            Some(TradeSide::Buy)
        } else if str_eq(s, "SELL") {
            Some(TradeSide::Sell)
        } else {
            None
        }
    }
}

/// The row text of each side names it back.
pub proof fn lemma_trade_side_round_trip(t: TradeSide)
    ensures
        TradeSide::spec_from_str(t.spec_str()) == Some(t),
{
    reveal_strlit("BUY");
    reveal_strlit("SELL");
    assert("BUY"@.len() == 3);
    assert("SELL"@.len() == 4);
    assert("SELL"@ != "BUY"@);
}

/// One executed order, immutable once persisted. The timestamp counts
/// UTC milliseconds; prices and quantities are 1e-8 units.
#[derive(Debug, Clone)]
pub struct TradeRecord {
    pub executed_at_ms: i64,
    pub exchange: String,
    pub symbol: String,
    pub market_type: MarketType,
    pub side: TradeSide,
    pub trade_type: TradeType,
    pub executed_price: Option<u64>,
    pub quantity: u64,
    pub request_query_string: Option<String>,
    pub api_response: Option<String>,
    pub metadata: Option<String>,
    pub is_liquidation: bool,
}

impl TradeRecord {
    /// The timestamp lies in the storable range.
    pub open spec fn wf(self) -> bool {
        0 <= self.executed_at_ms <= MAX_TIMESTAMP_MS
    }
}

/// A trade record as the store lays it out: timestamps as RFC-3339
/// text, enums as their row text.
#[derive(Debug, Clone)]
pub struct TradeRecordRow {
    pub id: i64,
    pub executed_at: String,
    pub exchange: String,
    pub symbol: String,
    pub market_type: String,
    pub side: String,
    pub trade_type: String,
    pub executed_price: Option<u64>,
    pub quantity: u64,
    pub request_query_string: Option<String>,
    pub api_response: Option<String>,
    pub metadata: Option<String>,
    pub is_liquidation: bool,
}

/// A record the store has assigned an id.
#[derive(Debug, Clone)]
pub struct StoredTradeRecord {
    pub id: i64,
    pub record: TradeRecord,
}

/// Why the record layer failed.
#[derive(Debug, Clone)]
pub enum RecordError {
    Database(String),
    Serialization(String),
    Other(String),
}

/// Views of two optional strings agree.
pub open spec fn opt_str_eq(a: Option<String>, b: Option<String>) -> bool {
    match (a, b) {
        (Some(x), Some(y)) => x@ == y@,
        (None, None) => true,
        _ => false,
    }
}

/// The row holds exactly this record under this id: every text field
/// is the record's field rendered, every scalar is copied.
pub open spec fn trade_row_matches(row: TradeRecordRow, id: i64, rec: TradeRecord) -> bool {
    &&& row.id == id
    &&& row.executed_at@ == rfc3339_of(rec.executed_at_ms)
    &&& row.exchange@ == rec.exchange@
    &&& row.symbol@ == rec.symbol@
    &&& row.market_type@ == rec.market_type.spec_str()
    &&& row.side@ == rec.side.spec_str()
    &&& row.trade_type@ == rec.trade_type.spec_str()
    &&& row.executed_price == rec.executed_price
    &&& row.quantity == rec.quantity
    &&& opt_str_eq(row.request_query_string, rec.request_query_string)
    &&& opt_str_eq(row.api_response, rec.api_response)
    &&& opt_str_eq(row.metadata, rec.metadata)
    &&& row.is_liquidation == rec.is_liquidation
}

/// Two trade records agree field by field (texts by view).
pub open spec fn trade_record_eq(a: TradeRecord, b: TradeRecord) -> bool {
    &&& a.executed_at_ms == b.executed_at_ms
    &&& a.exchange@ == b.exchange@
    &&& a.symbol@ == b.symbol@
    &&& a.market_type == b.market_type
    &&& a.side == b.side
    &&& a.trade_type == b.trade_type
    &&& a.executed_price == b.executed_price
    &&& a.quantity == b.quantity
    &&& opt_str_eq(a.request_query_string, b.request_query_string)
    &&& opt_str_eq(a.api_response, b.api_response)
    &&& opt_str_eq(a.metadata, b.metadata)
    &&& a.is_liquidation == b.is_liquidation
}

/// Lay a trade record out as a stored row.
pub fn trade_record_to_row(rec: &TradeRecord, id: i64) -> (row: TradeRecordRow)
    requires
        rec.wf(),
    ensures
        trade_row_matches(row, id, *rec),
{
    TradeRecordRow {
        id,
        executed_at: format_rfc3339_ms(rec.executed_at_ms),
        exchange: rec.exchange.clone(),
        symbol: rec.symbol.clone(),
        market_type: String::from_str(rec.market_type.as_str()),
        side: String::from_str(rec.side.as_str()),
        trade_type: String::from_str(rec.trade_type.as_str()),
        executed_price: rec.executed_price,
        quantity: rec.quantity,
        request_query_string: clone_opt_string(&rec.request_query_string),
        api_response: clone_opt_string(&rec.api_response),
        metadata: clone_opt_string(&rec.metadata),
        is_liquidation: rec.is_liquidation,
    }
}

fn clone_opt_string(s: &Option<String>) -> (r: Option<String>)
    ensures
        opt_str_eq(r, *s),
{
    match s {
        Some(x) => Some(x.clone()),
        None => None,
    }
}

/// Read a stored row back into a record. Reading back a row that was
/// laid out from a well-formed record returns that record under its
/// id: the store round-trips every field, timestamps through their
/// RFC-3339 text. A row whose market, side or trade-type text names
/// no variant is rejected; a row that reads back carries exactly the
/// variants its texts name.
pub fn trade_record_from_row(row: &TradeRecordRow) -> (r: Result<StoredTradeRecord, RecordError>)
    ensures
        forall|id: i64, rec: TradeRecord|
            trade_row_matches(*row, id, rec) && rec.wf() ==> r is Ok && r->Ok_0.id == id
                && trade_record_eq(r->Ok_0.record, rec),
        MarketType::spec_from_str(row.market_type@) is None ==> r is Err,
        TradeSide::spec_from_str(row.side@) is None ==> r is Err,
        TradeType::spec_from_str(row.trade_type@) is None ==> r is Err,
        r matches Ok(stored) ==> {
            &&& stored.id == row.id
            &&& Some(stored.record.market_type) == MarketType::spec_from_str(row.market_type@)
            &&& Some(stored.record.side) == TradeSide::spec_from_str(row.side@)
            &&& Some(stored.record.trade_type) == TradeType::spec_from_str(row.trade_type@)
            &&& stored.record.executed_price == row.executed_price
            &&& stored.record.quantity == row.quantity
            &&& stored.record.is_liquidation == row.is_liquidation
        },
{
    proof {
        assert forall|mt: MarketType| MarketType::spec_from_str(mt.spec_str()) == Some(mt) by {
            lemma_market_type_round_trip(mt);
        }
        assert forall|ts: TradeSide| TradeSide::spec_from_str(ts.spec_str()) == Some(ts) by {
            lemma_trade_side_round_trip(ts);
        }
        assert forall|tt: TradeType| TradeType::spec_from_str(tt.spec_str()) == Some(tt) by {
            lemma_trade_type_round_trip(tt);
        }
    }
    let executed_at_ms = match parse_rfc3339_ms(row.executed_at.as_str()) {
        Some(t) => t,
        None => {
            return Err(RecordError::Other(String::from_str("unreadable executed_at")));
        },
    };
    let market_type = match MarketType::from_str(row.market_type.as_str()) {
        Some(m) => m,
        None => {
            return Err(RecordError::Other(String::from_str("unreadable market_type")));
        },
    };
    let side = match TradeSide::from_str(row.side.as_str()) {
        Some(s) => s,
        None => {
            return Err(RecordError::Other(String::from_str("unreadable side")));
        },
    };
    let trade_type = match TradeType::from_str(row.trade_type.as_str()) {
        Some(t) => t,
        None => {
            return Err(RecordError::Other(String::from_str("unreadable trade_type")));
        },
    };
    Ok(StoredTradeRecord {
        id: row.id,
        record: TradeRecord {
            executed_at_ms,
            exchange: row.exchange.clone(),
            symbol: row.symbol.clone(),
            market_type,
            side,
            trade_type,
            executed_price: row.executed_price,
            quantity: row.quantity,
            request_query_string: clone_opt_string(&row.request_query_string),
            api_response: clone_opt_string(&row.api_response),
            metadata: clone_opt_string(&row.metadata),
            is_liquidation: row.is_liquidation,
        },
    })
}

/// One strategy state transition, as persisted. Prices are 1e-8
/// units; the timestamp counts UTC milliseconds.
#[derive(Debug, Clone)]
pub struct PositionRecord {
    pub executed_at_ms: i64,
    pub bot_name: String,
    pub carry: String,
    pub action: String,
    pub symbol: String,
    pub spot_price: u64,
    pub futures_mark: u64,
    pub buy_exchange: String,
    pub sell_exchange: String,
}

impl PositionRecord {
    /// The timestamp lies in the storable range.
    pub open spec fn wf(self) -> bool {
        0 <= self.executed_at_ms <= MAX_TIMESTAMP_MS
    }
}

/// A position record as the store lays it out.
#[derive(Debug, Clone)]
pub struct PositionRecordRow {
    pub id: i64,
    pub executed_at: String,
    pub bot_name: String,
    pub carry: String,
    pub action: String,
    pub symbol: String,
    pub spot_price: u64,
    pub futures_mark: u64,
    pub buy_exchange: String,
    pub sell_exchange: String,
}

/// A position record the store has assigned an id.
#[derive(Debug, Clone)]
pub struct StoredPositionRecord {
    pub id: i64,
    pub record: PositionRecord,
}

/// The row holds exactly this position record under this id.
pub open spec fn position_row_matches(row: PositionRecordRow, id: i64, rec: PositionRecord) -> bool {
    &&& row.id == id
    &&& row.executed_at@ == rfc3339_of(rec.executed_at_ms)
    &&& row.bot_name@ == rec.bot_name@
    &&& row.carry@ == rec.carry@
    &&& row.action@ == rec.action@
    &&& row.symbol@ == rec.symbol@
    &&& row.spot_price == rec.spot_price
    &&& row.futures_mark == rec.futures_mark
    &&& row.buy_exchange@ == rec.buy_exchange@
    &&& row.sell_exchange@ == rec.sell_exchange@
}

/// Two position records agree field by field (texts by view).
pub open spec fn position_record_eq(a: PositionRecord, b: PositionRecord) -> bool {
    &&& a.executed_at_ms == b.executed_at_ms
    &&& a.bot_name@ == b.bot_name@
    &&& a.carry@ == b.carry@
    &&& a.action@ == b.action@
    &&& a.symbol@ == b.symbol@
    &&& a.spot_price == b.spot_price
    &&& a.futures_mark == b.futures_mark
    &&& a.buy_exchange@ == b.buy_exchange@
    &&& a.sell_exchange@ == b.sell_exchange@
}

/// Lay a position record out as a stored row.
pub fn position_record_to_row(rec: &PositionRecord, id: i64) -> (row: PositionRecordRow)
    requires
        rec.wf(),
    ensures
        position_row_matches(row, id, *rec),
{
    PositionRecordRow {
        id,
        executed_at: format_rfc3339_ms(rec.executed_at_ms),
        bot_name: rec.bot_name.clone(),
        carry: rec.carry.clone(),
        action: rec.action.clone(),
        symbol: rec.symbol.clone(),
        spot_price: rec.spot_price,
        futures_mark: rec.futures_mark,
        buy_exchange: rec.buy_exchange.clone(),
        sell_exchange: rec.sell_exchange.clone(),
    }
}

/// Read a stored position row back; a row laid out from a well-formed
/// record returns that record under its id.
pub fn position_record_from_row(row: &PositionRecordRow) -> (r: Result<
    StoredPositionRecord,
    RecordError,
>)
    ensures
        forall|id: i64, rec: PositionRecord|
            position_row_matches(*row, id, rec) && rec.wf() ==> r is Ok && r->Ok_0.id == id
                && position_record_eq(r->Ok_0.record, rec),
{
    let executed_at_ms = match parse_rfc3339_ms(row.executed_at.as_str()) {
        Some(t) => t,
        None => {
            return Err(RecordError::Other(String::from_str("unreadable executed_at")));
        },
    };
    Ok(StoredPositionRecord {
        id: row.id,
        record: PositionRecord {
            executed_at_ms,
            bot_name: row.bot_name.clone(),
            carry: row.carry.clone(),
            action: row.action.clone(),
            symbol: row.symbol.clone(),
            spot_price: row.spot_price,
            futures_mark: row.futures_mark,
            buy_exchange: row.buy_exchange.clone(),
            sell_exchange: row.sell_exchange.clone(),
        },
    })
}

/// The venue pair a transition trades on when spot and futures legs
/// sit on the same exchange: `<name>_spot` and `<name>_futures`,
/// ordered by which side buys.
pub open spec fn spec_intra_basis_exchanges(
    exchange_name: Seq<char>,
    carry: Seq<char>,
    action: Seq<char>,
) -> (Seq<char>, Seq<char>) {
    let spot_ex = exchange_name + "_spot"@;
    let fut_ex = exchange_name + "_futures"@;
    if carry == "carry"@ && action == "OPEN"@ {
        (spot_ex, fut_ex)
    } else if carry == "carry"@ && action == "CLOSE"@ {
        (fut_ex, spot_ex)
    } else if carry == "reverse"@ && action == "OPEN"@ {
        (fut_ex, spot_ex)
    } else if carry == "reverse"@ && action == "CLOSE"@ {
        (spot_ex, fut_ex)
    } else {
        ("unknown"@, "unknown"@)
    }
}

/// The position record one strategy transition leaves: the carry text
/// lowered (where it is ASCII) picks the buying and selling exchange
/// for the intra-exchange pair.
pub fn build_position_record(
    bot_name: &str,
    carry: &str,
    action: &str,
    symbol: &str,
    spot_price: u64,
    futures_mark: u64,
    exchange_name: &str,
    now_ms: i64,
) -> (rec: PositionRecord)
    ensures
        rec.executed_at_ms == now_ms,
        rec.bot_name@ == bot_name@,
        rec.carry@ == carry@,
        rec.action@ == action@,
        rec.symbol@ == symbol@,
        rec.spot_price == spot_price,
        rec.futures_mark == futures_mark,
        carry.is_ascii() ==> (rec.buy_exchange@, rec.sell_exchange@)
            == spec_intra_basis_exchanges(
            exchange_name@,
            carry@.map_values(|c: char| crate::strutil::lower_char(c)),
            action@,
        ),
{
    let carry_lower = if carry.is_ascii() {
        crate::strutil::ascii_lowercase(carry)
    } else {
        String::from_str(carry)
    };
    let (buy_exchange, sell_exchange) = determine_exchanges_for_intra_basis(
        exchange_name,
        carry_lower.as_str(),
        action,
    );
    PositionRecord {
        executed_at_ms: now_ms,
        bot_name: String::from_str(bot_name),
        carry: String::from_str(carry),
        action: String::from_str(action),
        symbol: String::from_str(symbol),
        spot_price,
        futures_mark,
        buy_exchange,
        sell_exchange,
    }
}

/// Decide which exchange buys and which sells for an intra-exchange
/// basis transition: carry opens buy spot and sell futures, carry
/// closes the reverse, and reverse positions mirror them.
pub fn determine_exchanges_for_intra_basis(exchange_name: &str, carry: &str, action: &str) -> (r:
    (String, String))
    ensures
        (r.0@, r.1@) == spec_intra_basis_exchanges(exchange_name@, carry@, action@),
{
    let mut spot_ex = String::from_str(exchange_name);
    spot_ex.append("_spot");
    let mut fut_ex = String::from_str(exchange_name);
    fut_ex.append("_futures");
    let is_carry = str_eq(carry, "carry");
    let is_reverse = str_eq(carry, "reverse");
    let is_open = str_eq(action, "OPEN");
    let is_close = str_eq(action, "CLOSE");
    if is_carry && is_open {
        (spot_ex, fut_ex)
    } else if is_carry && is_close {
        (fut_ex, spot_ex)
    } else if is_reverse && is_open {
        (fut_ex, spot_ex)
    } else if is_reverse && is_close {
        (spot_ex, fut_ex)
    } else {
        (String::from_str("unknown"), String::from_str("unknown"))
    }
}

} // verus!

//! User-data stream events: the subscription message the engine
//! sends, and the shapes of the events the venue pushes back.

use vstd::prelude::*;
use vstd::string::StringSliceAdditionalSpecFns;
use crate::json::{push_json_string, spec_escape};
use crate::params::{pairs_view, sign_params, spec_user_data_signature};
use crate::strutil::str_eq;

verus! {

/// Per-order lifecycle update, field for field as the venue sends it.
#[derive(Debug, Clone)]
pub struct ExecutionReport {
    pub event_type: String,
    pub event_time: u64,
    pub symbol: String,
    pub client_order_id: String,
    pub side: String,
    pub order_type: String,
    pub time_in_force: String,
    pub order_quantity: String,
    pub order_price: String,
    pub current_order_status: String,
    pub last_executed_quantity: String,
    pub cumulative_filled_quantity: String,
    pub last_executed_price: String,
    pub commission_amount: String,
    pub commission_asset: Option<String>,
    pub order_create_time: u64,
    pub transaction_time: u64,
    pub order_id: u64,
    pub cumulative_quote_quantity: Option<String>,
    pub last_quote_transacted: Option<String>,
    pub order_list_id: Option<i64>,
    pub original_client_order_id: Option<String>,
    pub stop_price: Option<String>,
    pub rejected_quantity: Option<String>,
    pub reject_reason: Option<String>,
}

/// One asset's balances inside an account snapshot.
#[derive(Debug, Clone)]
pub struct BalanceInfo {
    pub asset: String,
    pub free: String,
    pub locked: String,
}

/// Account balance snapshot delta.
#[derive(Debug, Clone)]
pub struct OutboundAccountPosition {
    pub event_type: String,
    pub event_time: u64,
    pub last_update_time: u64,
    pub balances: Vec<BalanceInfo>,
}

/// Single-asset balance delta.
#[derive(Debug, Clone)]
pub struct BalanceUpdate {
    pub event_type: String,
    pub event_time: u64,
    pub asset: String,
    pub balance_delta: String,
    pub wallet_type: Option<String>,
}

/// An event the user-data stream delivered; unrecognised kinds pass
/// through as their raw text.
#[derive(Debug, Clone)]
pub enum UserDataEvent {
    ExecutionReport(ExecutionReport),
    OutboundAccountPosition(OutboundAccountPosition),
    BalanceUpdate(BalanceUpdate),
    Unknown(String),
}

/// The recognised event kinds.
#[derive(Debug, Clone, Copy, PartialEq, Eq, Structural)]
pub enum UserEventKind {
    ExecutionReport,
    OutboundAccountPosition,
    BalanceUpdate,
    Unknown,
}

/// Which kind an event-type text names.
pub open spec fn spec_event_kind(t: Seq<char>) -> UserEventKind {
    if t == "executionReport"@ {
        UserEventKind::ExecutionReport
    } else if t == "outboundAccountPosition"@ {
        UserEventKind::OutboundAccountPosition
    } else if t == "balanceUpdate"@ {
        UserEventKind::BalanceUpdate
    } else {
        UserEventKind::Unknown
    }
}

/// Classify an incoming event by its type tag; anything else is
/// forwarded opaque.
pub fn classify_event_type(event_type: &str) -> (r: UserEventKind)
    ensures
        r == spec_event_kind(event_type@),
{
    if str_eq(event_type, "executionReport") {
        UserEventKind::ExecutionReport
    } else if str_eq(event_type, "outboundAccountPosition") {
        UserEventKind::OutboundAccountPosition
    } else if str_eq(event_type, "balanceUpdate") {
        UserEventKind::BalanceUpdate
    } else {
        UserEventKind::Unknown
    }
}

/// The exact subscription message for the user-data stream: a
/// JSON-RPC call whose params carry the API key, the signature over
/// the other params in key order, and the timestamp.
pub open spec fn spec_subscribe_request(
    api_key: Seq<char>,
    timestamp_text: Seq<char>,
    signature: Seq<char>,
) -> Seq<char> {
    "{\"id\":\"user-stream-1\",\"method\":\"userDataStream.subscribe.signature\",\"params\":{\"apiKey\":\""@
        + spec_escape(api_key) + "\",\"signature\":\""@ + spec_escape(signature)
        + "\",\"timestamp\":\""@ + spec_escape(timestamp_text) + "\"}}"@
}

/// Build the user-data subscription message: the signature covers
/// `apiKey` and `timestamp` in lexicographic key order under the
/// secret, and the params appear in that same order.
pub fn build_subscribe_request(api_key: &str, timestamp_text: &str, secret: &str) -> (r: (
    String,
    String,
))
    ensures
        r.1@ == spec_user_data_signature(
            seq![("apiKey"@, api_key@), ("timestamp"@, timestamp_text@)],
            secret.spec_bytes(),
        ),
        r.1@.len() == 64,
        r.0@ == spec_subscribe_request(api_key@, timestamp_text@, r.1@),
{
    let mut params: Vec<(String, String)> = Vec::new();
    params.push((String::from_str("apiKey"), String::from_str(api_key)));
    params.push((String::from_str("timestamp"), String::from_str(timestamp_text)));
    let signature = sign_params(&params, secret);
    proof {
        assert(pairs_view(params@) =~= seq![("apiKey"@, api_key@), ("timestamp"@, timestamp_text@)]);
    }
    let mut out = String::from_str(
        "{\"id\":\"user-stream-1\",\"method\":\"userDataStream.subscribe.signature\",\"params\":{\"apiKey\":",
    );
    push_json_string(&mut out, api_key);
    out.append(",\"signature\":");
    push_json_string(&mut out, signature.as_str());
    out.append(",\"timestamp\":");
    push_json_string(&mut out, timestamp_text);
    out.append("}}");
    proof {
        reveal_strlit(
            "{\"id\":\"user-stream-1\",\"method\":\"userDataStream.subscribe.signature\",\"params\":{\"apiKey\":",
        );
        reveal_strlit(
            "{\"id\":\"user-stream-1\",\"method\":\"userDataStream.subscribe.signature\",\"params\":{\"apiKey\":\"",
        );
        reveal_strlit(",\"signature\":");
        reveal_strlit("\",\"signature\":\"");
        reveal_strlit(",\"timestamp\":");
        reveal_strlit("\",\"timestamp\":\"");
        reveal_strlit("}}");
        reveal_strlit("\"}}");
        assert(out@ =~= spec_subscribe_request(api_key@, timestamp_text@, signature@));
    }
    (out, signature)
}

} // verus!

//! Gateway protocol values: broadcast events, JSON-RPC responses and the
//! JSON-RPC error codes.

use vstd::prelude::*;
use crate::json::{json_get_str, json_keys, lemma_assoc_get_distinct, Json};
use crate::text::owned;

verus! {

/// The current UTC time in RFC 3339 form (`chrono::Utc::now().to_rfc3339()`).
/// Nothing is stated of the text: it depends on the clock.
#[verifier::external_body]
pub(crate) fn utc_now_rfc3339() -> (r: String) {
    chrono::Utc::now().to_rfc3339()
}

/// An event broadcast to every connected WebSocket client.
#[derive(Debug)]
pub struct GatewayEvent {
    pub event: String,
    pub data: Json,
    pub timestamp: Option<String>,
}

/// The keys of a transaction event's data object.
pub open spec fn tx_event_keys(last: Seq<char>) -> Seq<Seq<char>> {
    seq!["tx_hash"@, "network"@, last]
}

/// The data object `{ "tx_hash", "network", <last_key> }` of a transaction
/// event, each member a string.
pub open spec fn is_tx_event_data(data: Json, tx_hash: Seq<char>, network: Seq<char>, last_key: Seq<char>, last: Seq<char>) -> bool {
    &&& json_keys(data) == tx_event_keys(last_key)
    &&& json_get_str(data, "tx_hash"@) == Some(tx_hash)
    &&& json_get_str(data, "network"@) == Some(network)
    &&& json_get_str(data, last_key) == Some(last)
}

/// Builds the data object of a transaction event.
fn tx_event_data(tx_hash: &str, network: &str, last_key: &str, last: &str) -> (r: Json)
    requires
        last_key@ == "explorer_url"@ || last_key@ == "status"@,
    ensures
        is_tx_event_data(r, tx_hash@, network@, last_key@, last@),
{
    let mut fields: Vec<(String, Json)> = Vec::new();
    fields.push((owned("tx_hash"), Json::string(tx_hash)));
    fields.push((owned("network"), Json::string(network)));
    fields.push((owned(last_key), Json::string(last)));
    proof {
        reveal_strlit("tx_hash");
        reveal_strlit("network");
        reveal_strlit("explorer_url");
        reveal_strlit("status");
        let f = fields@;
        assert(f[0].0@ != f[1].0@) by {
            assert(f[0].0@[0] != f[1].0@[0]);
        }
        assert(f[0].0@ != f[2].0@) by {
            if last_key@ == "explorer_url"@ {
                assert(f[0].0@.len() != f[2].0@.len());
            } else {
                assert(f[0].0@.len() != f[2].0@.len());
            }
        }
        assert(f[1].0@ != f[2].0@) by {
            assert(f[1].0@.len() != f[2].0@.len());
        }
        lemma_assoc_get_distinct(f);
        assert(crate::json::assoc_get(f, f[0].0@) == Some(f[0].1));
        assert(crate::json::assoc_get(f, f[1].0@) == Some(f[1].1));
        assert(crate::json::assoc_get(f, f[2].0@) == Some(f[2].1));
        assert(json_keys(Json::Object(fields)) =~= tx_event_keys(last_key@));
    }
    Json::Object(fields)
}

impl GatewayEvent {
    /// An event with the given name and data, stamped with the current time.
    pub fn new(event: String, data: Json) -> (r: GatewayEvent)
        ensures
            r.event == event,
            r.data == data,
            r.timestamp is Some,
    {
        GatewayEvent { event, data, timestamp: Some(utc_now_rfc3339()) }
    }

    /// An event with a caller-chosen name; the same as `new`.
    pub fn custom(event: String, data: Json) -> (r: GatewayEvent)
        ensures
            r.event == event,
            r.data == data,
            r.timestamp is Some,
    {
        Self::new(event, data)
    }

    /// `tx.pending`: a transaction was broadcast.  The task id is not part
    /// of the event.
    pub fn tx_pending(task_id: u64, tx_hash: &str, network: &str, explorer_url: &str) -> (r: GatewayEvent)
        ensures
            r.event@ == "tx.pending"@,
            is_tx_event_data(r.data, tx_hash@, network@, "explorer_url"@, explorer_url@),
            r.timestamp is Some,
    {
        let data = tx_event_data(tx_hash, network, "explorer_url", explorer_url);
        Self::new(owned("tx.pending"), data)
    }

    /// `tx.confirmed`: a transaction reached a final status.  The task id is
    /// not part of the event.
    pub fn tx_confirmed(task_id: u64, tx_hash: &str, network: &str, status: &str) -> (r: GatewayEvent)
        ensures
            r.event@ == "tx.confirmed"@,
            is_tx_event_data(r.data, tx_hash@, network@, "status"@, status@),
            r.timestamp is Some,
    {
        let data = tx_event_data(tx_hash, network, "status", status);
        Self::new(owned("tx.confirmed"), data)
    }
}

/// A JSON-RPC request from a WebSocket client (`params` is `null` when the
/// request has none).
#[derive(Debug)]
pub struct RpcRequest {
    pub id: String,
    pub method: String,
    pub params: Json,
}

/// A JSON-RPC response: exactly one of `result` and `error` is set by the
/// constructors.
#[derive(Debug)]
pub struct RpcResponse {
    pub id: String,
    pub result: Option<Json>,
    pub error: Option<RpcError>,
}

impl RpcResponse {
    /// A successful response.
    pub fn success(id: String, result: Json) -> (r: RpcResponse)
        ensures
            r.id == id,
            r.result == Some(result),
            r.error is None,
    {
        RpcResponse { id, result: Some(result), error: None }
    }

    /// A failed response.
    pub fn error(id: String, error: RpcError) -> (r: RpcResponse)
        ensures
            r.id == id,
            r.result is None,
            r.error == Some(error),
    {
        RpcResponse { id, result: None, error: Some(error) }
    }
}

/// A JSON-RPC error object.
#[derive(Debug)]
pub struct RpcError {
    pub code: i32,
    pub message: String,
}

impl RpcError {
    /// An error with any code and message.
    pub fn new(code: i32, message: String) -> (r: RpcError)
        ensures
            r.code == code,
            r.message == message,
    {
        RpcError { code, message }
    }

    /// `-32700 Parse error`: the request was not valid JSON.
    pub fn parse_error() -> (r: RpcError)
        ensures
            r.code == -32700,
            r.message@ == "Parse error"@,
    {
        RpcError { code: -32700, message: owned("Parse error") }
    }

    /// `-32602`: the parameters were invalid.
    pub fn invalid_params(message: String) -> (r: RpcError)
        ensures
            r.code == -32602,
            r.message == message,
    {
        RpcError { code: -32602, message }
    }

    /// `-32601 Method not found`.
    pub fn method_not_found() -> (r: RpcError)
        ensures
            r.code == -32601,
            r.message@ == "Method not found"@,
    {
        RpcError { code: -32601, message: owned("Method not found") }
    }

    /// `-32603`: an internal error.
    pub fn internal_error(message: String) -> (r: RpcError)
        ensures
            r.code == -32603,
            r.message == message,
    {
        RpcError { code: -32603, message }
    }
}

} // verus!

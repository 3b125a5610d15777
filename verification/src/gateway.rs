//! Decisions of the WebSocket gateway: the authentication exchange, the
//! dispatch of requests once authenticated, and the replies for the
//! transaction queue.

use vstd::prelude::*;
use crate::json::{json_as_str, json_get, json_get_str, json_keys, lemma_assoc_get_distinct, Json};
use crate::protocol::{RpcError, RpcResponse};
use crate::text::{chars_of, owned, push_str, same_text, string_from};

verus! {

/// How long a client has to authenticate, in seconds.
pub const AUTH_TIMEOUT_SECS: u64 = 30;

/// What arrived on the socket while waiting for authentication, or the
/// outcome of a lookup requested by the previous step.
pub enum AuthEvent {
    /// A text message that is not a JSON-RPC request.
    BadRequest,
    /// A JSON-RPC request.
    Request { id: String, method: String },
    /// The parameters of the pending `auth` request, read as a token, or
    /// the error reading them.
    AuthParams(Result<String, String>),
    /// The stored session for the token: whether it is valid, or the
    /// database error.
    Validated(Result<bool, String>),
    /// A ping frame.
    Ping,
    /// A close frame.
    Close,
    /// A protocol error.
    StreamError(String),
    /// The stream ended.
    StreamEnd,
    /// Any other frame.
    Other,
}

/// What to do next.
#[derive(Debug)]
pub enum AuthStep {
    /// Send this response and wait for the next message.
    Reply(RpcResponse),
    /// Read the parameters of the pending `auth` request as a token.
    ReadAuthParams,
    /// Look the token up.
    Validate(String),
    /// Answer the ping.
    Pong,
    /// Wait for the next message.
    Wait,
    /// Send this response (when there is one), then stop: authenticated
    /// or not.
    Finish(Option<RpcResponse>, bool),
    /// Stop with this error.
    Fail(String),
}

/// The phase of the authentication exchange.
#[derive(Clone, Copy, Debug, PartialEq, Eq, Structural)]
pub enum AuthStage {
    /// Waiting for a message.
    Waiting,
    /// An `auth` request arrived; its parameters are being read.
    ReadingParams,
    /// The token is being looked up.
    Validating,
    /// Finished.
    Done,
}

/// The authentication gate of one connection.
pub struct AuthGate {
    pub stage: AuthStage,
    /// The id of the pending `auth` request.
    pub pending_id: String,
}

/// Events that can occur at a stage.
pub open spec fn auth_event_fits(stage: AuthStage, event: AuthEvent) -> bool {
    match stage {
        AuthStage::Waiting => !(event is AuthParams) && !(event is Validated),
        AuthStage::ReadingParams => event is AuthParams,
        AuthStage::Validating => event is Validated,
        AuthStage::Done => false,
    }
}

/// The texts of a response: id, result, error code and message.
pub open spec fn response_is(r: RpcResponse, id: Seq<char>, code: int, message: Seq<char>) -> bool {
    &&& r.id@ == id
    &&& r.result is None
    &&& r.error is Some
    &&& r.error->Some_0.code == code
    &&& r.error->Some_0.message@ == message
}

/// A successful response whose result is the string `pong`.
pub open spec fn is_pong(r: RpcResponse, id: Seq<char>) -> bool {
    r.id@ == id && r.error is None && r.result is Some && json_as_str(r.result->Some_0) == Some("pong"@)
}

fn error_response(id: String, code: i32, message: String) -> (r: RpcResponse)
    ensures
        response_is(r, id@, code as int, message@),
{
    RpcResponse::error(id, RpcError::new(code, message))
}

fn pong_response(id: String) -> (r: RpcResponse)
    ensures
        is_pong(r, id@),
{
    RpcResponse::success(id, Json::string("pong"))
}

fn text_cat(a: &str, b: &str) -> (r: String)
    ensures
        r@ == a@ + b@,
{
    let mut v = chars_of(a);
    push_str(&mut v, b);
    string_from(v.as_slice())
}

/// The message sent for a parse error.
pub open spec fn parse_error_message() -> Seq<char> {
    "Parse error"@
}

impl AuthGate {
    /// A gate waiting for the first message.
    pub fn new() -> (r: AuthGate)
        ensures
            r.stage == AuthStage::Waiting,
    {
        AuthGate { stage: AuthStage::Waiting, pending_id: String::new() }
    }

    /// Takes the next event and says what to do.
    pub fn next(&mut self, event: AuthEvent) -> (step: AuthStep)
        requires
            auth_event_fits(old(self).stage, event),
        ensures
            match event {
                AuthEvent::BadRequest => final(self).stage == AuthStage::Waiting && step is Reply && response_is(
                    step->Reply_0,
                    Seq::empty(),
                    -32700,
                    parse_error_message(),
                ),
                AuthEvent::Request { id, method } => if method@ == "auth"@ {
                    final(self).stage == AuthStage::ReadingParams && final(self).pending_id == id && step is ReadAuthParams
                } else if method@ == "ping"@ {
                    final(self).stage == AuthStage::Waiting && step is Reply && is_pong(step->Reply_0, id@)
                } else {
                    final(self).stage == AuthStage::Waiting && step is Reply && response_is(
                        step->Reply_0,
                        id@,
                        -32002,
                        "Authentication required"@,
                    )
                },
                AuthEvent::AuthParams(Err(e)) => final(self).stage == AuthStage::Waiting && step is Reply
                    && response_is(step->Reply_0, old(self).pending_id@, -32602, "Invalid token: "@ + e@),
                AuthEvent::AuthParams(Ok(token)) => final(self).stage == AuthStage::Validating && final(self).pending_id
                    == old(self).pending_id && step == AuthStep::Validate(token),
                AuthEvent::Validated(Ok(true)) => {
                    &&& final(self).stage == AuthStage::Done
                    &&& step is Finish
                    &&& step->Finish_1
                    &&& step->Finish_0 is Some
                    &&& ({
                        let r = step->Finish_0->Some_0;
                        &&& r.id@ == old(self).pending_id@
                        &&& r.error is None
                        &&& r.result is Some
                        &&& json_keys(r.result->Some_0) == seq!["authenticated"@]
                        &&& json_get(r.result->Some_0, "authenticated"@) == Some(Json::Bool(true))
                    })
                },
                AuthEvent::Validated(Ok(false)) => final(self).stage == AuthStage::Done && step is Finish
                    && !step->Finish_1 && step->Finish_0 is Some && response_is(
                    step->Finish_0->Some_0,
                    old(self).pending_id@,
                    -32001,
                    "Invalid or expired token"@,
                ),
                AuthEvent::Validated(Err(e)) => final(self).stage == AuthStage::Done && step is Finish
                    && !step->Finish_1 && step->Finish_0 is Some && response_is(
                    step->Finish_0->Some_0,
                    old(self).pending_id@,
                    -32603,
                    "Database error: "@ + e@,
                ),
                AuthEvent::Ping => final(self).stage == AuthStage::Waiting && step is Pong,
                AuthEvent::Close | AuthEvent::StreamEnd => final(self).stage == AuthStage::Done && step is Finish
                    && step->Finish_0 is None && !step->Finish_1,
                AuthEvent::StreamError(e) => final(self).stage == AuthStage::Done && step is Fail && step->Fail_0@
                    == "WebSocket error: "@ + e@,
                AuthEvent::Other => final(self).stage == AuthStage::Waiting && step is Wait,
            },
    {
        match event {
            AuthEvent::BadRequest => {
                self.stage = AuthStage::Waiting;
                AuthStep::Reply(RpcResponse::error(String::new(), RpcError::parse_error()))
            },
            AuthEvent::Request { id, method } => {
                if same_text(method.as_str(), "auth") {
                    self.stage = AuthStage::ReadingParams;
                    self.pending_id = id;
                    AuthStep::ReadAuthParams
                } else if same_text(method.as_str(), "ping") {
                    self.stage = AuthStage::Waiting;
                    AuthStep::Reply(pong_response(id))
                } else {
                    self.stage = AuthStage::Waiting;
                    AuthStep::Reply(error_response(id, -32002, owned("Authentication required")))
                }
            },
            AuthEvent::AuthParams(Err(e)) => {
                self.stage = AuthStage::Waiting;
                let msg = text_cat("Invalid token: ", e.as_str());
                AuthStep::Reply(RpcResponse::error(self.pending_id.clone(), RpcError::invalid_params(msg)))
            },
            AuthEvent::AuthParams(Ok(token)) => {
                self.stage = AuthStage::Validating;
                AuthStep::Validate(token)
            },
            AuthEvent::Validated(Ok(true)) => {
                self.stage = AuthStage::Done;
                let mut fields: Vec<(String, Json)> = Vec::new();
                fields.push((owned("authenticated"), Json::Bool(true)));
                let result = Json::Object(fields);
                proof {
                    reveal_with_fuel(crate::json::assoc_get, 2);
                    assert(json_keys(result) =~= seq!["authenticated"@]);
                }
                AuthStep::Finish(Some(RpcResponse::success(self.pending_id.clone(), result)), true)
            },
            AuthEvent::Validated(Ok(false)) => {
                self.stage = AuthStage::Done;
                AuthStep::Finish(
                    Some(error_response(self.pending_id.clone(), -32001, owned("Invalid or expired token"))),
                    false,
                )
            },
            AuthEvent::Validated(Err(e)) => {
                self.stage = AuthStage::Done;
                let msg = text_cat("Database error: ", e.as_str());
                AuthStep::Finish(Some(RpcResponse::error(self.pending_id.clone(), RpcError::internal_error(msg))), false)
            },
            AuthEvent::Ping => AuthStep::Pong,
            AuthEvent::Close => {
                self.stage = AuthStage::Done;
                AuthStep::Finish(None, false)
            },
            AuthEvent::StreamEnd => {
                self.stage = AuthStage::Done;
                AuthStep::Finish(None, false)
            },
            AuthEvent::StreamError(e) => {
                self.stage = AuthStage::Done;
                AuthStep::Fail(text_cat("WebSocket error: ", e.as_str()))
            },
            AuthEvent::Other => AuthStep::Wait,
        }
    }
}

/// The response sent when a client does not authenticate in time.
pub fn auth_timeout_response() -> (r: RpcResponse)
    ensures
        response_is(r, Seq::empty(), -32000, "Authentication timeout"@),
{
    error_response(String::new(), -32000, owned("Authentication timeout"))
}

/// What an authenticated request asks for.
#[derive(Debug)]
pub enum Dispatch {
    /// Answer with this response.
    Respond(RpcResponse),
    /// Answer with the number of connected clients.
    Status(String),
    /// Read the parameters as a transaction id, then confirm it.
    Confirm(String),
    /// Read the parameters as a transaction id, then deny it.
    Deny(String),
}

/// Dispatches an authenticated request (`None`: the text was not a
/// request).
pub fn dispatch(request: Option<(String, String)>) -> (r: Dispatch)
    ensures
        match request {
            None => r is Respond && response_is(r->Respond_0, Seq::empty(), -32700, parse_error_message()),
            Some((id, method)) => if method@ == "ping"@ {
                r is Respond && is_pong(r->Respond_0, id@)
            } else if method@ == "status"@ {
                r == Dispatch::Status(id)
            } else if method@ == "tx_queue.confirm"@ {
                r == Dispatch::Confirm(id)
            } else if method@ == "tx_queue.deny"@ {
                r == Dispatch::Deny(id)
            } else {
                r is Respond && response_is(r->Respond_0, id@, -32601, "Method not found"@)
            },
        },
{
    match request {
        None => Dispatch::Respond(RpcResponse::error(String::new(), RpcError::parse_error())),
        Some((id, method)) => {
            let m = method.as_str();
            if same_text(m, "ping") {
                Dispatch::Respond(pong_response(id))
            } else if same_text(m, "status") {
                Dispatch::Status(id)
            } else if same_text(m, "tx_queue.confirm") {
                Dispatch::Confirm(id)
            } else if same_text(m, "tx_queue.deny") {
                Dispatch::Deny(id)
            } else {
                Dispatch::Respond(RpcResponse::error(id, RpcError::method_not_found()))
            }
        },
    }
}

/// The answer to `status`.
pub fn status_response(id: String, connected_clients: u64) -> (r: RpcResponse)
    ensures
        r.id == id,
        r.error is None,
        r.result is Some,
        json_keys(r.result->Some_0) == seq!["connected_clients"@],
        json_get(r.result->Some_0, "connected_clients"@) is Some,
        crate::json::json_as_u64(json_get(r.result->Some_0, "connected_clients"@)->Some_0) == Some(connected_clients),
{
    let mut fields: Vec<(String, Json)> = Vec::new();
    fields.push((owned("connected_clients"), Json::number(connected_clients)));
    let result = Json::Object(fields);
    proof {
        reveal_with_fuel(crate::json::assoc_get, 2);
        assert(json_keys(result) =~= seq!["connected_clients"@]);
    }
    RpcResponse::success(id, result)
}

/// The answer when the transaction-queue parameters cannot be read.
pub fn invalid_queue_params(id: String, error: &str) -> (r: RpcResponse)
    ensures
        response_is(r, id@, -32602, "Invalid params: "@ + error@),
{
    RpcResponse::error(id, RpcError::invalid_params(text_cat("Invalid params: ", error)))
}

/// Why a confirmation cannot go ahead: no wallet, or the transaction is not
/// queued.
pub fn confirm_precheck(has_wallet: bool, queued: bool, uuid: &str) -> (r: Result<(), RpcError>)
    ensures
        match r {
            Ok(()) => has_wallet && queued,
            Err(e) => e.code == -32000 && if !has_wallet {
                e.message@ == "No wallet configured"@
            } else {
                !queued && e.message@ == "Transaction "@ + uuid@ + " not found in queue"@
            },
        },
{
    if !has_wallet {
        return Err(RpcError::new(-32000, owned("No wallet configured")));
    }
    if !queued {
        let mut v = chars_of("Transaction ");
        push_str(&mut v, uuid);
        push_str(&mut v, " not found in queue");
        return Err(RpcError::new(-32000, string_from(v.as_slice())));
    }
    Ok(())
}

/// The result of a confirmed or denied transaction: `{"uuid", "tx_hash"}`
/// or `{"uuid", "status": "denied"}`.
pub fn queue_result(uuid: &str, tx_hash: Option<&str>) -> (r: Json)
    ensures
        json_get_str(r, "uuid"@) == Some(uuid@),
        match tx_hash {
            Some(h) => json_keys(r) == seq!["uuid"@, "tx_hash"@] && json_get_str(r, "tx_hash"@) == Some(h@),
            None => json_keys(r) == seq!["uuid"@, "status"@] && json_get_str(r, "status"@) == Some("denied"@),
        },
{
    let mut fields: Vec<(String, Json)> = Vec::new();
    fields.push((owned("uuid"), Json::string(uuid)));
    match tx_hash {
        Some(h) => fields.push((owned("tx_hash"), Json::string(h))),
        None => fields.push((owned("status"), Json::string("denied"))),
    }
    proof {
        reveal_strlit("uuid");
        reveal_strlit("tx_hash");
        reveal_strlit("status");
        let f = fields@;
        assert(f[0].0@.len() != f[1].0@.len());
        lemma_assoc_get_distinct(f);
        assert(crate::json::assoc_get(f, f[0].0@) == Some(f[0].1));
        assert(crate::json::assoc_get(f, f[1].0@) == Some(f[1].1));
        assert(json_keys(Json::Object(fields)) =~= seq![f[0].0@, f[1].0@]);
    }
    Json::Object(fields)
}

} // verus!

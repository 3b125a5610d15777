//! Decisions of the credits-aware HTTP client.
//!
//! For credits endpoints, payment is always via credits (a Bearer session
//! token, or ERC-8128 signed headers); the client never falls through to an
//! on-chain payment: when credits are refused, the request fails.  For
//! custom endpoints no payment protocol is used.
//!
//! The network work (sending, signing, fetching session tokens) is done by
//! the caller; these machines say what to do next after each outcome.

use vstd::prelude::*;
use crate::text::{chars_of, owned, string_from};

verus! {

/// How the client pays for requests.
#[derive(Clone, Copy, Debug, PartialEq, Eq, Structural)]
pub enum PaymentMode {
    /// Credits only: session Bearer tokens and ERC-8128 signed headers.
    Credits,
    /// A custom endpoint: no payment protocol.
    CustomEndpoint,
}

/// Where a POST stands.
#[derive(Clone, Copy, Debug, PartialEq, Eq, Structural)]
pub enum PostStage {
    Begin,
    Plain,
    Session,
    Proactive,
    Initial,
    Discovered,
    Finished,
}

/// What happened last.
pub enum PostEvent {
    /// The POST is started; `body_error` holds a body serialization failure.
    Begin { body_error: Option<String> },
    /// The session path handed back a response.
    SessionAccepted,
    /// The session path failed.
    SessionFailed,
    /// A response arrived; `credits_header` says whether it announced
    /// ERC-8128 credits.
    Response { status: u16, credits_header: bool },
    /// Sending failed with this transport error.
    SendError(String),
    /// ERC-8128 signing failed with this error.
    SignError(String),
}

/// What the caller does next.
pub enum PostStep {
    /// POST the JSON body with no payment headers and no signing.
    SendPlain,
    /// Run the Bearer-session path (see `SessionFlow`).
    TrySession,
    /// Sign the request with ERC-8128 headers and send it.
    SendSigned,
    /// Send the request without payment headers.
    SendUnsigned,
    /// Record the URL's host as a credits host, then sign and send.
    MarkHostAndSendSigned,
    /// Return the last response to the caller.
    ReturnResponse,
    /// Fail with this message.
    Fail(String),
}

/// The state of one POST.
pub struct PostFlow {
    pub mode: PaymentMode,
    pub has_session: bool,
    pub known_credits_host: bool,
    pub stage: PostStage,
}

/// Events that can occur at a stage.
pub open spec fn post_event_fits(stage: PostStage, event: PostEvent) -> bool {
    match stage {
        PostStage::Begin => event is Begin,
        PostStage::Plain => event is Response || event is SendError,
        PostStage::Session => event is SessionAccepted || event is SessionFailed,
        PostStage::Proactive => event is Response || event is SendError || event is SignError,
        PostStage::Initial => event is Response || event is SendError,
        PostStage::Discovered => event is Response || event is SendError || event is SignError,
        PostStage::Finished => false,
    }
}

pub open spec fn msg_serialize(e: Seq<char>) -> Seq<char> {
    "Failed to serialize request body: "@ + e
}

pub open spec fn msg_request_failed(e: Seq<char>) -> Seq<char> {
    "Request failed: "@ + e
}

pub open spec fn msg_credits_request_failed(e: Seq<char>) -> Seq<char> {
    "Credits request failed: "@ + e
}

pub open spec fn msg_signing_failed(e: Seq<char>) -> Seq<char> {
    "ERC-8128 signing failed: "@ + e
}

pub open spec fn msg_proactive_402() -> Seq<char> {
    "Insufficient credits (ERC-8128 proactive got 402). Top up your credits balance."@
}

pub open spec fn msg_discovered_402() -> Seq<char> {
    "Insufficient credits (ERC-8128 discovered but got 402). Top up your credits balance."@
}

pub open spec fn msg_no_credits_support() -> Seq<char> {
    "Endpoint returned 402 but does not support credits (no x-erc8128-credits header). Cannot proceed without credits."@
}

/// The stage and step after the session path, by what is known of the host.
pub open spec fn after_session_stage(known: bool) -> PostStage {
    if known {
        PostStage::Proactive
    } else {
        PostStage::Initial
    }
}

fn prefixed(head: &str, tail: &str) -> (r: String)
    ensures
        r@ == head@ + tail@,
{
    let mut v = chars_of(head);
    v.extend_from_slice(chars_of(tail).as_slice());
    string_from(v.as_slice())
}

impl PostFlow {
    /// A POST in the given mode; `has_session` says whether a session
    /// client is attached, `known_credits_host` whether the URL's host is
    /// known to accept ERC-8128 credits.
    pub fn new(mode: PaymentMode, has_session: bool, known_credits_host: bool) -> (r: PostFlow)
        ensures
            r.mode == mode,
            r.has_session == has_session,
            r.known_credits_host == known_credits_host,
            r.stage == PostStage::Begin,
    {
        PostFlow { mode, has_session, known_credits_host, stage: PostStage::Begin }
    }

    /// Takes the outcome of the last step and says what to do next.
    pub fn next(&mut self, event: PostEvent) -> (step: PostStep)
        requires
            post_event_fits(old(self).stage, event),
        ensures
            final(self).mode == old(self).mode,
            final(self).has_session == old(self).has_session,
            final(self).known_credits_host == old(self).known_credits_host,
            match (old(self).stage, event) {
                (PostStage::Begin, PostEvent::Begin { body_error }) => {
                    if old(self).mode == PaymentMode::CustomEndpoint {
                        final(self).stage == PostStage::Plain && step is SendPlain
                    } else if body_error is Some {
                        final(self).stage == PostStage::Finished && step is Fail
                            && step->Fail_0@ == msg_serialize(body_error->Some_0@)
                    } else if old(self).has_session {
                        final(self).stage == PostStage::Session && step is TrySession
                    } else if old(self).known_credits_host {
                        final(self).stage == PostStage::Proactive && step is SendSigned
                    } else {
                        final(self).stage == PostStage::Initial && step is SendUnsigned
                    }
                },
                (PostStage::Plain, PostEvent::Response { .. }) => final(self).stage
                    == PostStage::Finished && step is ReturnResponse,
                (PostStage::Plain, PostEvent::SendError(e)) => final(self).stage
                    == PostStage::Finished && step is Fail && step->Fail_0@ == msg_request_failed(
                    e@,
                ),
                (PostStage::Session, PostEvent::SessionAccepted) => final(self).stage
                    == PostStage::Finished && step is ReturnResponse,
                (PostStage::Session, PostEvent::SessionFailed) => {
                    final(self).stage == after_session_stage(old(self).known_credits_host) && (if old(
                        self,
                    ).known_credits_host {
                        step is SendSigned
                    } else {
                        step is SendUnsigned
                    })
                },
                (PostStage::Proactive, PostEvent::Response { status, .. }) => {
                    final(self).stage == PostStage::Finished && if status != 402 {
                        step is ReturnResponse
                    } else {
                        step is Fail && step->Fail_0@ == msg_proactive_402()
                    }
                },
                (PostStage::Proactive, _) => final(self).stage == PostStage::Initial
                    && step is SendUnsigned,
                (PostStage::Initial, PostEvent::SendError(e)) => final(self).stage
                    == PostStage::Finished && step is Fail && step->Fail_0@ == msg_request_failed(
                    e@,
                ),
                (PostStage::Initial, PostEvent::Response { status, credits_header }) => {
                    if status != 402 {
                        final(self).stage == PostStage::Finished && step is ReturnResponse
                    } else if credits_header {
                        final(self).stage == PostStage::Discovered && step is MarkHostAndSendSigned
                    } else {
                        final(self).stage == PostStage::Finished && step is Fail && step->Fail_0@
                            == msg_no_credits_support()
                    }
                },
                (PostStage::Discovered, PostEvent::Response { status, .. }) => {
                    final(self).stage == PostStage::Finished && if status != 402 {
                        step is ReturnResponse
                    } else {
                        step is Fail && step->Fail_0@ == msg_discovered_402()
                    }
                },
                (PostStage::Discovered, PostEvent::SendError(e)) => final(self).stage
                    == PostStage::Finished && step is Fail && step->Fail_0@
                    == msg_credits_request_failed(e@),
                (PostStage::Discovered, PostEvent::SignError(e)) => final(self).stage
                    == PostStage::Finished && step is Fail && step->Fail_0@ == msg_signing_failed(
                    e@,
                ),
                _ => false,
            },
    {
        match (self.stage, event) {
            (PostStage::Begin, PostEvent::Begin { body_error }) => {
                if self.mode == PaymentMode::CustomEndpoint {
                    self.stage = PostStage::Plain;
                    PostStep::SendPlain
                } else {
                    match body_error {
                        Some(e) => {
                            self.stage = PostStage::Finished;
                            PostStep::Fail(prefixed("Failed to serialize request body: ", e.as_str()))
                        },
                        None => {
                            if self.has_session {
                                self.stage = PostStage::Session;
                                PostStep::TrySession
                            } else if self.known_credits_host {
                                self.stage = PostStage::Proactive;
                                PostStep::SendSigned
                            } else {
                                self.stage = PostStage::Initial;
                                PostStep::SendUnsigned
                            }
                        },
                    }
                }
            },
            (PostStage::Plain, PostEvent::Response { .. }) => {
                self.stage = PostStage::Finished;
                PostStep::ReturnResponse
            },
            (PostStage::Plain, PostEvent::SendError(e)) => {
                self.stage = PostStage::Finished;
                PostStep::Fail(prefixed("Request failed: ", e.as_str()))
            },
            (PostStage::Session, PostEvent::SessionAccepted) => {
                self.stage = PostStage::Finished;
                PostStep::ReturnResponse
            },
            (PostStage::Session, _) => {
                if self.known_credits_host {
                    self.stage = PostStage::Proactive;
                    PostStep::SendSigned
                } else {
                    self.stage = PostStage::Initial;
                    PostStep::SendUnsigned
                }
            },
            (PostStage::Proactive, PostEvent::Response { status, .. }) => {
                self.stage = PostStage::Finished;
                if status != 402 {
                    PostStep::ReturnResponse
                } else {
                    PostStep::Fail(
                        owned(
                            "Insufficient credits (ERC-8128 proactive got 402). Top up your credits balance.",
                        ),
                    )
                }
            },
            (PostStage::Proactive, _) => {
                self.stage = PostStage::Initial;
                PostStep::SendUnsigned
            },
            (PostStage::Initial, PostEvent::Response { status, credits_header }) => {
                if status != 402 {
                    self.stage = PostStage::Finished;
                    PostStep::ReturnResponse
                } else if credits_header {
                    self.stage = PostStage::Discovered;
                    PostStep::MarkHostAndSendSigned
                } else {
                    self.stage = PostStage::Finished;
                    PostStep::Fail(
                        owned(
                            "Endpoint returned 402 but does not support credits (no x-erc8128-credits header). Cannot proceed without credits.",
                        ),
                    )
                }
            },
            (PostStage::Initial, PostEvent::SendError(e)) => {
                self.stage = PostStage::Finished;
                PostStep::Fail(prefixed("Request failed: ", e.as_str()))
            },
            (PostStage::Discovered, PostEvent::Response { status, .. }) => {
                self.stage = PostStage::Finished;
                if status != 402 {
                    PostStep::ReturnResponse
                } else {
                    PostStep::Fail(
                        owned(
                            "Insufficient credits (ERC-8128 discovered but got 402). Top up your credits balance.",
                        ),
                    )
                }
            },
            (PostStage::Discovered, PostEvent::SendError(e)) => {
                self.stage = PostStage::Finished;
                PostStep::Fail(prefixed("Credits request failed: ", e.as_str()))
            },
            (_, PostEvent::SignError(e)) => {
                self.stage = PostStage::Finished;
                PostStep::Fail(prefixed("ERC-8128 signing failed: ", e.as_str()))
            },
            (_, _) => {
                self.stage = PostStage::Finished;
                PostStep::ReturnResponse
            },
        }
    }
}

/// Where the Bearer-session path stands.
#[derive(Clone, Copy, Debug, PartialEq, Eq, Structural)]
pub enum SessionStage {
    Begin,
    FirstToken,
    FirstResponse,
    RetryToken,
    RetryResponse,
    Finished,
}

/// What happened last on the session path.
pub enum SessionEvent {
    Begin,
    /// The session client handed back a token, or an error.
    Token(Result<String, String>),
    /// A response arrived with this status.
    Response(u16),
    /// Sending failed with this transport error.
    SendError(String),
}

/// What the caller does next on the session path.
pub enum SessionStep {
    /// Ask the session client for a token.
    FetchToken,
    /// Invalidate the session, then ask for a fresh token.
    InvalidateAndFetchToken,
    /// Send the request with this `Authorization` header value.
    SendWithAuthorization(String),
    /// The response is accepted.
    Accept,
    /// The session path fails with this message.
    Fail(String),
}

pub open spec fn session_event_fits(stage: SessionStage, event: SessionEvent) -> bool {
    match stage {
        SessionStage::Begin => event is Begin,
        SessionStage::FirstToken | SessionStage::RetryToken => event is Token,
        SessionStage::FirstResponse | SessionStage::RetryResponse => event is Response
            || event is SendError,
        SessionStage::Finished => false,
    }
}

pub open spec fn bearer(token: Seq<char>) -> Seq<char> {
    "Bearer "@ + token
}

/// The Bearer-session path of one request.
pub struct SessionFlow {
    pub stage: SessionStage,
}

impl SessionFlow {
    pub fn new() -> (r: SessionFlow)
        ensures
            r.stage == SessionStage::Begin,
    {
        SessionFlow { stage: SessionStage::Begin }
    }

    /// Takes the outcome of the last step and says what to do next.
    pub fn next(&mut self, event: SessionEvent) -> (step: SessionStep)
        requires
            session_event_fits(old(self).stage, event),
        ensures
            match (old(self).stage, event) {
                (SessionStage::Begin, _) => final(self).stage == SessionStage::FirstToken
                    && step is FetchToken,
                (SessionStage::FirstToken, SessionEvent::Token(Ok(t))) => final(self).stage
                    == SessionStage::FirstResponse && step is SendWithAuthorization
                    && step->SendWithAuthorization_0@ == bearer(t@),
                (SessionStage::RetryToken, SessionEvent::Token(Ok(t))) => final(self).stage
                    == SessionStage::RetryResponse && step is SendWithAuthorization
                    && step->SendWithAuthorization_0@ == bearer(t@),
                (_, SessionEvent::Token(Err(e))) => final(self).stage == SessionStage::Finished
                    && step is Fail && step->Fail_0@ == e@,
                (SessionStage::FirstResponse, SessionEvent::SendError(e)) => final(self).stage
                    == SessionStage::Finished && step is Fail && step->Fail_0@
                    == "Session request failed: "@ + e@,
                (SessionStage::RetryResponse, SessionEvent::SendError(e)) => final(self).stage
                    == SessionStage::Finished && step is Fail && step->Fail_0@
                    == "Session retry request failed: "@ + e@,
                (SessionStage::FirstResponse, SessionEvent::Response(status)) => {
                    if status == 401 {
                        final(self).stage == SessionStage::RetryToken && step is InvalidateAndFetchToken
                    } else if status == 402 {
                        final(self).stage == SessionStage::Finished && step is Fail && step->Fail_0@
                            == "Insufficient credits (402 with session auth)"@
                    } else {
                        final(self).stage == SessionStage::Finished && step is Accept
                    }
                },
                (SessionStage::RetryResponse, SessionEvent::Response(status)) => {
                    final(self).stage == SessionStage::Finished && if status == 401 {
                        step is Fail && step->Fail_0@
                            == "Session re-establishment failed (401 on retry)"@
                    } else if status == 402 {
                        step is Fail && step->Fail_0@
                            == "Insufficient credits (402 after session auth)"@
                    } else {
                        step is Accept
                    }
                },
                _ => false,
            },
    {
        match (self.stage, event) {
            (SessionStage::Begin, _) => {
                self.stage = SessionStage::FirstToken;
                SessionStep::FetchToken
            },
            (SessionStage::FirstToken, SessionEvent::Token(Ok(t))) => {
                self.stage = SessionStage::FirstResponse;
                SessionStep::SendWithAuthorization(prefixed("Bearer ", t.as_str()))
            },
            (SessionStage::RetryToken, SessionEvent::Token(Ok(t))) => {
                self.stage = SessionStage::RetryResponse;
                SessionStep::SendWithAuthorization(prefixed("Bearer ", t.as_str()))
            },
            (_, SessionEvent::Token(Err(e))) => {
                self.stage = SessionStage::Finished;
                SessionStep::Fail(e)
            },
            (SessionStage::FirstResponse, SessionEvent::SendError(e)) => {
                self.stage = SessionStage::Finished;
                SessionStep::Fail(prefixed("Session request failed: ", e.as_str()))
            },
            (SessionStage::RetryResponse, SessionEvent::SendError(e)) => {
                self.stage = SessionStage::Finished;
                SessionStep::Fail(prefixed("Session retry request failed: ", e.as_str()))
            },
            (SessionStage::FirstResponse, SessionEvent::Response(status)) => {
                if status == 401 {
                    self.stage = SessionStage::RetryToken;
                    SessionStep::InvalidateAndFetchToken
                } else if status == 402 {
                    self.stage = SessionStage::Finished;
                    SessionStep::Fail(owned("Insufficient credits (402 with session auth)"))
                } else {
                    self.stage = SessionStage::Finished;
                    SessionStep::Accept
                }
            },
            (_, SessionEvent::Response(status)) => {
                self.stage = SessionStage::Finished;
                if status == 401 {
                    SessionStep::Fail(owned("Session re-establishment failed (401 on retry)"))
                } else if status == 402 {
                    SessionStep::Fail(owned("Insufficient credits (402 after session auth)"))
                } else {
                    SessionStep::Accept
                }
            },
            (_, _) => {
                self.stage = SessionStage::Finished;
                SessionStep::Accept
            },
        }
    }
}

/// In credits mode a response is only ever handed back when it is not a
/// 402 (or came from the session path, which itself never accepts a 401 or
/// 402): credits are never bypassed for an on-chain payment.
pub proof fn law_credits_never_return_402(
    mode: PaymentMode,
    stage: PostStage,
    status: u16,
    credits_header: bool,
)
    requires
        mode == PaymentMode::Credits,
        stage != PostStage::Begin,
        stage != PostStage::Session,
        stage != PostStage::Finished,
        stage != PostStage::Plain,
        status == 402,
    ensures
        !post_returns_response(stage, status, credits_header),
{
}

/// Whether a response with this status, arriving at this stage, is handed back.
pub open spec fn post_returns_response(stage: PostStage, status: u16, credits_header: bool) -> bool {
    match stage {
        PostStage::Plain => true,
        PostStage::Proactive | PostStage::Initial | PostStage::Discovered => status != 402,
        _ => false,
    }
}

} // verus!

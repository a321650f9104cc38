//! The decisions the proxy takes for one request, as a state machine.
//!
//! The driver reads the request head, the body, runs the middleware chains
//! and talks to the upstream; after each of these it hands the outcome to
//! `request_step`, which says what to do next: read the body, run a chain,
//! prepare and send the upstream request, read an encoded response whole,
//! answer with a refusal, or deliver the response (streamed or buffered,
//! with a gRPC status trailer and the `alt-svc` header where they apply).
//! Requests whose plugins only inspect the body take the streaming path:
//! the body is relayed instead of read, and an encoded response is read
//! whole, up to the body limit, to be decoded.
use vstd::prelude::*;
use crate::engine::{normalizes_encoding, normalizes_encoding_spec, streams_response, streams_response_spec};
use crate::text::{chars_of, has_prefix_str, starts_with};
use crate::wire::HeaderMap;

verus! {

/// Where a request stands.
#[derive(Debug, Clone, Copy, PartialEq, Eq, Structural)]
pub enum RequestStage {
    Head,
    AwaitBody,
    AwaitRequestChain,
    AwaitUpstream,
    AwaitSend,
    AwaitResponseChain,
    ReadEncoded,
    Done,
}

/// A request in progress: its stage, the body limit, whether an `alt-svc`
/// header is configured, whether it takes the streaming path, and what is
/// known of the upstream response: whether it streams, whether it is gRPC,
/// and how many bytes of an encoded response were read.
#[derive(Debug, Clone, Copy)]
pub struct RequestState {
    pub stage: RequestStage,
    pub max_body_bytes: usize,
    pub alt_svc: bool,
    pub streaming_path: bool,
    pub stream_response: bool,
    pub grpc: bool,
    pub read: usize,
}

/// What the request middleware chain decided.
#[derive(Debug, Clone, Copy, PartialEq, Eq, Structural)]
pub enum ChainOutcome {
    Continue,
    /// A plugin answered the request itself (a mock, a breakpoint).
    Intercepted,
    /// A plugin stopped the request.
    Stopped,
}

/// What the driver saw.
#[derive(Debug)]
pub enum EngineEvent {
    /// The request head: whether it is a CONNECT, and whether every
    /// active plugin only inspects the body (the streaming class).
    Head { is_connect: bool, streaming_class: bool },
    /// The body was read, or it was over the limit.
    BodyRead { within_limit: bool },
    /// The request chain ran.
    RequestChain(ChainOutcome),
    /// The upstream request was prepared: whether its URL points back at
    /// the proxy, and whether its method is valid.
    Upstream { self_proxy: bool, method_valid: bool },
    /// The upstream answered with this head, or the request failed.
    Sent(Option<UpstreamHead>),
    /// The response chain ran: whether it let the response through, the
    /// status it left, the headers it left, and the announced length.
    ResponseChain { proceed: bool, status: u16, headers: HeaderMap, content_length: Option<u64> },
    /// A chunk of an encoded response arrived.
    Chunk(usize),
    /// The encoded response ended.
    End,
}

/// The head of an upstream response as the decisions need it.
#[derive(Debug)]
pub struct UpstreamHead {
    pub content_type: String,
    pub content_length: Option<u64>,
    pub transfer_encoding: Option<String>,
}

/// A refusal the proxy answers with.
#[derive(Debug, Clone, Copy, PartialEq, Eq, Structural)]
pub enum Refusal {
    ConnectUnhandled,
    BodyTooLarge,
    RequestStopped,
    ProxyLoop,
    InvalidMethod,
    ResponseStopped,
    EncodedTooLarge,
}

/// What the driver does next.
#[derive(Debug, Clone, Copy, PartialEq, Eq, Structural)]
pub enum EngineAction {
    /// Answer with the refusal.
    Refuse(Refusal),
    /// Read the request body, up to this many bytes.
    ReadBody(usize),
    /// Run the request middleware chain (on the head only, on the
    /// streaming path).
    RunRequestChain,
    /// Serve the response a plugin intercepted the request with.
    ServeIntercepted,
    /// Prepare the upstream request.
    PrepareUpstream,
    /// Send the upstream request (relaying the body on the streaming path).
    Send,
    /// Record the failed forward and answer 502.
    RecordFailure,
    /// Run the response middleware chain (after reading and decoding the
    /// body, unless the response streams).
    RunResponseChain { stream: bool },
    /// Read the encoded response chunk by chunk; take the last chunk.
    ReadChunk,
    /// Deliver the response: streamed or whole, with a `grpc-status: 0`
    /// trailer or not, with the `alt-svc` header or not; a decoded one on
    /// the streaming path comes whole.
    Deliver { stream: bool, grpc_trailers: bool, alt_svc: bool },
}

impl Refusal {
    /// The status of the answer.
    pub fn status(self) -> (r: u16)
        ensures
            r == match self {
                Refusal::ConnectUnhandled => 502u16,
                Refusal::BodyTooLarge => 413u16,
                Refusal::RequestStopped => 403u16,
                Refusal::ProxyLoop => 502u16,
                Refusal::InvalidMethod => 400u16,
                Refusal::ResponseStopped => 403u16,
                Refusal::EncodedTooLarge => 413u16,
            },
    {
        match self {
            Refusal::ConnectUnhandled => 502,
            Refusal::BodyTooLarge => 413,
            Refusal::RequestStopped => 403,
            Refusal::ProxyLoop => 502,
            Refusal::InvalidMethod => 400,
            Refusal::ResponseStopped => 403,
            Refusal::EncodedTooLarge => 413,
        }
    }

    /// The text of the answer; the limits name `max_body_bytes`.
    pub fn message(self, max_body_bytes: usize) -> (r: String)
        ensures
            r@ == match self {
                Refusal::ConnectUnhandled => "CONNECT should be handled upstream"@,
                Refusal::BodyTooLarge => "Request body exceeds the "@ + crate::text::decimal(
                    max_body_bytes as nat,
                ) + " byte limit. Raise max_body_bytes in settings to increase it."@,
                Refusal::RequestStopped => "Request stopped by middleware"@,
                Refusal::ProxyLoop => "Proxy error: Proxy loop detected (request forwarded to the proxy itself)"@,
                Refusal::InvalidMethod => "invalid HTTP method"@,
                Refusal::ResponseStopped => "Response stopped by middleware"@,
                Refusal::EncodedTooLarge => "encoded response exceeded max_body_bytes ("@
                    + crate::text::decimal(max_body_bytes as nat)
                    + ") while normalizing content-encoding"@,
            },
    {
        match self {
            Refusal::ConnectUnhandled => "CONNECT should be handled upstream".to_owned(),
            Refusal::BodyTooLarge => crate::engine::body_limit_message(max_body_bytes),
            Refusal::RequestStopped => "Request stopped by middleware".to_owned(),
            Refusal::ProxyLoop => "Proxy error: Proxy loop detected (request forwarded to the proxy itself)".to_owned(),
            Refusal::InvalidMethod => "invalid HTTP method".to_owned(),
            Refusal::ResponseStopped => "Response stopped by middleware".to_owned(),
            Refusal::EncodedTooLarge => crate::engine::encoded_limit_message(max_body_bytes),
        }
    }
}

/// The event is one the stage waits for.
pub open spec fn event_fits(stage: RequestStage, event: EngineEvent) -> bool {
    match stage {
        RequestStage::Head => event is Head,
        RequestStage::AwaitBody => event is BodyRead,
        RequestStage::AwaitRequestChain => event is RequestChain,
        RequestStage::AwaitUpstream => event is Upstream,
        RequestStage::AwaitSend => event is Sent,
        RequestStage::AwaitResponseChain => event is ResponseChain,
        RequestStage::ReadEncoded => event is Chunk || event is End,
        RequestStage::Done => false,
    }
}

/// The state with another stage.
pub open spec fn at(s: RequestState, stage: RequestStage) -> RequestState {
    RequestState { stage, ..s }
}

/// What the proxy does after each event (see the module's description).
pub open spec fn request_step_spec(s: RequestState, event: EngineEvent) -> (RequestState, EngineAction) {
    let done = at(s, RequestStage::Done);
    match event {
        EngineEvent::Head { is_connect, streaming_class } => if is_connect {
            (done, EngineAction::Refuse(Refusal::ConnectUnhandled))
        } else if streaming_class {
            (
                RequestState { stage: RequestStage::AwaitRequestChain, streaming_path: true, ..s },
                EngineAction::RunRequestChain,
            )
        } else {
            (at(s, RequestStage::AwaitBody), EngineAction::ReadBody(s.max_body_bytes))
        },
        EngineEvent::BodyRead { within_limit } => if within_limit {
            (at(s, RequestStage::AwaitRequestChain), EngineAction::RunRequestChain)
        } else {
            (done, EngineAction::Refuse(Refusal::BodyTooLarge))
        },
        EngineEvent::RequestChain(c) => match c {
            ChainOutcome::Continue => (at(s, RequestStage::AwaitUpstream), EngineAction::PrepareUpstream),
            ChainOutcome::Intercepted => (done, EngineAction::ServeIntercepted),
            ChainOutcome::Stopped => (done, EngineAction::Refuse(Refusal::RequestStopped)),
        },
        EngineEvent::Upstream { self_proxy, method_valid } => if self_proxy {
            (done, EngineAction::Refuse(Refusal::ProxyLoop))
        } else if !method_valid {
            (done, EngineAction::Refuse(Refusal::InvalidMethod))
        } else {
            (at(s, RequestStage::AwaitSend), EngineAction::Send)
        },
        EngineEvent::Sent(head) => match head {
            None => (done, EngineAction::RecordFailure),
            Some(h) => {
                let stream = !s.streaming_path && streams_response_spec(
                    h.content_type@,
                    h.content_length,
                    match h.transfer_encoding {
                        Some(t) => Some(t@),
                        None => None,
                    },
                );
                let grpc = !s.streaming_path && starts_with(h.content_type@, "application/grpc"@);
                (
                    RequestState {
                        stage: RequestStage::AwaitResponseChain,
                        stream_response: stream,
                        grpc,
                        ..s
                    },
                    EngineAction::RunResponseChain { stream },
                )
            },
        },
        EngineEvent::ResponseChain { proceed, status, headers, content_length } => if !proceed {
            (done, EngineAction::Refuse(Refusal::ResponseStopped))
        } else if s.streaming_path {
            if normalizes_encoding_spec(headers.view_entries(), content_length, s.max_body_bytes) {
                (RequestState { stage: RequestStage::ReadEncoded, read: 0, ..s }, EngineAction::ReadChunk)
            } else {
                (done, EngineAction::Deliver { stream: true, grpc_trailers: false, alt_svc: s.alt_svc })
            }
        } else {
            (
                done,
                EngineAction::Deliver {
                    stream: s.stream_response,
                    grpc_trailers: !s.stream_response && s.grpc && status == 200,
                    alt_svc: s.alt_svc,
                },
            )
        },
        EngineEvent::Chunk(n) => if s.read + n <= s.max_body_bytes {
            (RequestState { read: (s.read + n) as usize, ..s }, EngineAction::ReadChunk)
        } else {
            (done, EngineAction::Refuse(Refusal::EncodedTooLarge))
        },
        EngineEvent::End => (
            done,
            EngineAction::Deliver { stream: false, grpc_trailers: false, alt_svc: s.alt_svc },
        ),
    }
}

/// A request before its head is read: the body limit and whether an
/// `alt-svc` header is configured.
pub fn request_start(max_body_bytes: usize, alt_svc: bool) -> (r: RequestState)
    ensures
        r == (RequestState {
            stage: RequestStage::Head,
            max_body_bytes,
            alt_svc,
            streaming_path: false,
            stream_response: false,
            grpc: false,
            read: 0,
        }),
{
    RequestState {
        stage: RequestStage::Head,
        max_body_bytes,
        alt_svc,
        streaming_path: false,
        stream_response: false,
        grpc: false,
        read: 0,
    }
}

/// Takes what the driver saw and says what to do next (see
/// `request_step_spec`).
pub fn request_step(state: &RequestState, event: EngineEvent) -> (r: (RequestState, EngineAction))
    requires
        event_fits(state.stage, event),
        state.read <= state.max_body_bytes,
    ensures
        r == request_step_spec(*state, event),
        r.0.read <= r.0.max_body_bytes,
{
    let s = *state;
    let done = RequestState { stage: RequestStage::Done, ..s };
    match event {
        EngineEvent::Head { is_connect, streaming_class } => if is_connect {
            (done, EngineAction::Refuse(Refusal::ConnectUnhandled))
        } else if streaming_class {
            (
                RequestState { stage: RequestStage::AwaitRequestChain, streaming_path: true, ..s },
                EngineAction::RunRequestChain,
            )
        } else {
            (RequestState { stage: RequestStage::AwaitBody, ..s }, EngineAction::ReadBody(s.max_body_bytes))
        },
        EngineEvent::BodyRead { within_limit } => if within_limit {
            (RequestState { stage: RequestStage::AwaitRequestChain, ..s }, EngineAction::RunRequestChain)
        } else {
            (done, EngineAction::Refuse(Refusal::BodyTooLarge))
        },
        EngineEvent::RequestChain(c) => match c {
            ChainOutcome::Continue => (
                RequestState { stage: RequestStage::AwaitUpstream, ..s },
                EngineAction::PrepareUpstream,
            ),
            ChainOutcome::Intercepted => (done, EngineAction::ServeIntercepted),
            ChainOutcome::Stopped => (done, EngineAction::Refuse(Refusal::RequestStopped)),
        },
        EngineEvent::Upstream { self_proxy, method_valid } => if self_proxy {
            (done, EngineAction::Refuse(Refusal::ProxyLoop))
        } else if !method_valid {
            (done, EngineAction::Refuse(Refusal::InvalidMethod))
        } else {
            (RequestState { stage: RequestStage::AwaitSend, ..s }, EngineAction::Send)
        },
        EngineEvent::Sent(head) => match head {
            None => (done, EngineAction::RecordFailure),
            Some(h) => {
                let te: Option<&str> = match &h.transfer_encoding {
                    Some(t) => Some(t.as_str()),
                    None => None,
                };
                let stream = !s.streaming_path && streams_response(
                    h.content_type.as_str(),
                    h.content_length,
                    te,
                );
                let grpc = !s.streaming_path && has_prefix_str(
                    &chars_of(h.content_type.as_str()),
                    "application/grpc",
                );
                (
                    RequestState {
                        stage: RequestStage::AwaitResponseChain,
                        stream_response: stream,
                        grpc,
                        ..s
                    },
                    EngineAction::RunResponseChain { stream },
                )
            },
        },
        EngineEvent::ResponseChain { proceed, status, headers, content_length } => if !proceed {
            (done, EngineAction::Refuse(Refusal::ResponseStopped))
        } else if s.streaming_path {
            if normalizes_encoding(&headers, content_length, s.max_body_bytes) {
                (RequestState { stage: RequestStage::ReadEncoded, read: 0, ..s }, EngineAction::ReadChunk)
            } else {
                (done, EngineAction::Deliver { stream: true, grpc_trailers: false, alt_svc: s.alt_svc })
            }
        } else {
            (
                done,
                EngineAction::Deliver {
                    stream: s.stream_response,
                    grpc_trailers: !s.stream_response && s.grpc && status == 200,
                    alt_svc: s.alt_svc,
                },
            )
        },
        EngineEvent::Chunk(n) => if crate::engine::chunk_fits(s.read, n, s.max_body_bytes) {
            (RequestState { read: s.read + n, ..s }, EngineAction::ReadChunk)
        } else {
            (done, EngineAction::Refuse(Refusal::EncodedTooLarge))
        },
        EngineEvent::End => (
            done,
            EngineAction::Deliver { stream: false, grpc_trailers: false, alt_svc: s.alt_svc },
        ),
    }
}

} // verus!

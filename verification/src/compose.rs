//! Admin-composed forwards: the protocol identity of a composed request, its
//! protocol summary, gRPC message events, the WebSocket handshake-header
//! filter and the reply-frame budget.
use vstd::prelude::*;
use crate::forward::{ProtocolContext, WireProtocol, ApplicationProtocol, BodyMode, opt_str};
use crate::text::{chars_of, string_of, lower, lower_vec, eq_str, slice_vec, decimal, decimal_exec};
use crate::auth::{parse_url, url_components};
use crate::forward::{be32, encode_grpc_frame};
use crate::playback::is_token_byte;
use crate::exchange::{InspectionMetrics, ResponseContext};
use crate::fingerprint::{hex_text, hex_of};
use base64::Engine;

verus! {

/// Most server frames a composed WebSocket forward waits for.
pub const WS_FORWARD_MAX_SERVER_FRAMES: usize = 10;

/// The protocol a composed request is sent with.
#[derive(Debug, Clone, Copy, PartialEq, Eq, Structural)]
pub enum ForwardKind {
    Http,
    Http2,
    Http3,
    Grpc,
}

impl Default for ForwardKind {
    fn default() -> (r: Self)
        ensures
            r == ForwardKind::Http,
    {
        ForwardKind::Http
    }
}

/// The protocol summary returned for a composed request.
#[derive(Debug, Clone)]
pub struct ForwardProtocolResp {
    pub downstream: String,
    pub upstream: Option<String>,
    pub application: String,
    pub body_mode: String,
}

/// A gRPC message event recorded on a composed exchange.
#[derive(Debug, Clone)]
pub struct GrpcMessage {
    pub direction: String,
    pub compressed: bool,
    pub length: u32,
    /// Decoded fields; composed forwards record none.
    pub fields: Vec<(String, String)>,
}

/// The opcode of a composed WebSocket frame that names none.
pub fn default_ws_opcode() -> (r: String)
    ensures
        r@ == "text"@,
{
    string_of(&chars_of("text"))
}

/// The protocol identity of a composed request: gRPC travels over HTTP/2
/// with streamed messages; every other kind is a full-body HTTP exchange
/// over its own wire protocol.
pub fn protocol_context_for_kind(kind: ForwardKind, scheme: &str, upstream: Option<WireProtocol>) -> (r: ProtocolContext)
    ensures
        r.downstream == (match kind {
            ForwardKind::Http => WireProtocol::Http1,
            ForwardKind::Http2 => WireProtocol::Http2,
            ForwardKind::Http3 => WireProtocol::Http3,
            ForwardKind::Grpc => WireProtocol::Http2,
        }),
        r.upstream == upstream,
        r.application == (if kind == ForwardKind::Grpc {
            ApplicationProtocol::Grpc
        } else {
            ApplicationProtocol::Http
        }),
        r.body_mode == (if kind == ForwardKind::Grpc {
            BodyMode::StreamMessages
        } else {
            BodyMode::Full
        }),
        r.scheme@ == scheme@,
        r.connection_id is None,
        r.stream_id is None,
{
    let (downstream, application, body_mode) = match kind {
        ForwardKind::Http => (WireProtocol::Http1, ApplicationProtocol::Http, BodyMode::Full),
        ForwardKind::Http2 => (WireProtocol::Http2, ApplicationProtocol::Http, BodyMode::Full),
        ForwardKind::Http3 => (WireProtocol::Http3, ApplicationProtocol::Http, BodyMode::Full),
        ForwardKind::Grpc => (WireProtocol::Http2, ApplicationProtocol::Grpc, BodyMode::StreamMessages),
    };
    ProtocolContext {
        downstream,
        upstream,
        application,
        body_mode,
        scheme: string_of(&chars_of(scheme)),
        connection_id: None,
        stream_id: None,
    }
}

/// The wire protocol named by an upstream protocol label: `HTTP/2`,
/// `HTTP/3`, and HTTP/1 for anything else.
pub fn protocol_from_label(label: &str) -> (r: WireProtocol)
    ensures
        r == (if label@ == "HTTP/2"@ {
            WireProtocol::Http2
        } else if label@ == "HTTP/3"@ {
            WireProtocol::Http3
        } else {
            WireProtocol::Http1
        }),
{
    let l = chars_of(label);
    if eq_str(&l, "HTTP/2") {
        WireProtocol::Http2
    } else if eq_str(&l, "HTTP/3") {
        WireProtocol::Http3
    } else {
        WireProtocol::Http1
    }
}

/// The protocol summary of a protocol identity: the wire labels and the
/// application and body-mode match values.
pub fn protocol_response(ctx: ProtocolContext) -> (r: ForwardProtocolResp)
    ensures
        r.downstream@ == ctx.downstream.label_spec(),
        opt_str(r.upstream) == (match ctx.upstream {
            Some(p) => Some(p.label_spec()),
            None => None::<Seq<char>>,
        }),
        r.application@ == ctx.application.match_value_spec(),
        r.body_mode@ == ctx.body_mode.match_value_spec(),
{
    ForwardProtocolResp {
        downstream: string_of(&chars_of(ctx.downstream.label())),
        upstream: match ctx.upstream {
            Some(p) => Some(string_of(&chars_of(p.label()))),
            None => None,
        },
        application: string_of(&chars_of(ctx.application.match_value())),
        body_mode: string_of(&chars_of(ctx.body_mode.match_value())),
    }
}

/// A gRPC message event with no decoded fields.
pub fn grpc_message(direction: &str, compressed: bool, length: u32) -> (r: GrpcMessage)
    ensures
        r.direction@ == direction@,
        r.compressed == compressed,
        r.length == length,
        r.fields@.len() == 0,
{
    GrpcMessage { direction: string_of(&chars_of(direction)), compressed, length, fields: Vec::new() }
}

/// Headers of the WebSocket handshake that a composed forward sets itself.
pub open spec fn is_handshake_header(lowered: Seq<char>) -> bool {
    lowered == "host"@ || lowered == "connection"@ || lowered == "upgrade"@ || lowered
        == "sec-websocket-key"@ || lowered == "sec-websocket-version"@ || lowered
        == "sec-websocket-accept"@ || lowered == "content-length"@
}

/// Whether a user header is passed on to a composed WebSocket handshake:
/// every header but the handshake's own, compared ignoring ASCII case.
pub fn is_ws_forward_header(name: &str) -> (r: bool)
    ensures
        r == !is_handshake_header(lower(name@)),
{
    let n = lower_vec(&chars_of(name));
    !(eq_str(&n, "host") || eq_str(&n, "connection") || eq_str(&n, "upgrade") || eq_str(
        &n,
        "sec-websocket-key",
    ) || eq_str(&n, "sec-websocket-version") || eq_str(&n, "sec-websocket-accept") || eq_str(
        &n,
        "content-length",
    ))
}

/// Direction of a WebSocket frame.
#[derive(Debug, Clone, Copy, PartialEq, Eq, Structural)]
pub enum WsDirection {
    ClientToServer,
    ServerToClient,
}

/// Counts the server frames seen by a composed WebSocket forward.
#[derive(Debug)]
pub struct ForwardFrameCollector {
    pub server_frames: usize,
}

impl ForwardFrameCollector {
    pub fn new() -> (r: Self)
        ensures
            r.server_frames == 0,
    {
        ForwardFrameCollector { server_frames: 0 }
    }

    /// Notes a frame; server frames count towards the budget.
    pub fn record(&mut self, direction: WsDirection)
        requires
            old(self).server_frames < usize::MAX,
        ensures
            final(self).server_frames == old(self).server_frames + if direction
                == WsDirection::ServerToClient {
                1usize
            } else {
                0usize
            },
    {
        if direction == WsDirection::ServerToClient {
            self.server_frames = self.server_frames + 1;
        }
    }

    /// The forward has seen as many server frames as it waits for.
    pub fn reached_server_limit(&self) -> (r: bool)
        ensures
            r == (self.server_frames >= WS_FORWARD_MAX_SERVER_FRAMES),
    {
        self.server_frames >= WS_FORWARD_MAX_SERVER_FRAMES
    }
}

// ───────────────────────── WebSocket messages ─────────────────────────

/// A WebSocket message as the composer sends and records it.
#[derive(Debug)]
pub enum WsMessage {
    Text(String),
    Binary(Vec<u8>),
    Ping(Vec<u8>),
    Pong(Vec<u8>),
    /// A close frame with its status code and reason.
    Close(u16, String),
    /// A raw frame, which is not recorded.
    Frame,
}

/// A frame the user composed: its opcode label and payload text.
#[derive(Debug)]
pub struct ForwardWsFrameReq {
    pub opcode: String,
    pub payload: String,
}

/// What base64's standard engine makes of some text: the decoded bytes, or
/// `None` where it is not valid base64.
pub uninterp spec fn base64_decoded(bytes: Seq<u8>) -> Option<Seq<u8>>;

/// `base64::engine::general_purpose::STANDARD.decode`. The contract names
/// the outcome and claims nothing more of it.
#[verifier::external_body]
fn base64_decode(bytes: &[u8]) -> (r: Option<Vec<u8>>)
    ensures
        match r {
            Some(v) => base64_decoded(bytes@) == Some(v@),
            None => base64_decoded(bytes@) is None,
        },
{
    base64::engine::general_purpose::STANDARD.decode(bytes).ok()
}

/// The message for a composed frame: `binary` payloads are base64 (taken as
/// raw text bytes when they are not), `ping` and `pong` carry the payload's
/// bytes, `close` closes normally (1000) with the payload as reason, and
/// anything else is a text message.
pub open spec fn message_for(opcode: Seq<char>, payload: Seq<char>) -> (int, Seq<u8>, Seq<char>) {
    let bytes = vstd::utf8::encode_utf8(payload);
    if opcode == "binary"@ {
        (
            2,
            match base64_decoded(bytes) {
                Some(b) => b,
                None => bytes,
            },
            Seq::empty(),
        )
    } else if opcode == "ping"@ {
        (9, bytes, Seq::empty())
    } else if opcode == "pong"@ {
        (10, bytes, Seq::empty())
    } else if opcode == "close"@ {
        (8, Seq::empty(), payload)
    } else {
        (1, Seq::empty(), payload)
    }
}

/// The opcode, bytes and text of a message (as in `message_for`).
pub open spec fn message_view(m: WsMessage) -> (int, Seq<u8>, Seq<char>) {
    match m {
        WsMessage::Text(t) => (1, Seq::empty(), t@),
        WsMessage::Binary(b) => (2, b@, Seq::empty()),
        WsMessage::Ping(b) => (9, b@, Seq::empty()),
        WsMessage::Pong(b) => (10, b@, Seq::empty()),
        WsMessage::Close(_, r) => (8, Seq::empty(), r@),
        WsMessage::Frame => (0, Seq::empty(), Seq::empty()),
    }
}

fn utf8_bytes(s: &str) -> (r: Vec<u8>)
    ensures
        r@ == vstd::utf8::encode_utf8(s@),
{
    let b = s.as_bytes();
    let mut v: Vec<u8> = Vec::new();
    let mut i: usize = 0;
    while i < b.len()
        invariant
            i <= b@.len(),
            v@ == b@.subrange(0, i as int),
        decreases b.len() - i,
    {
        v.push(b[i]);
        i = i + 1;
        proof {
            assert(v@ =~= b@.subrange(0, i as int));
        }
    }
    proof {
        assert(b@.subrange(0, i as int) =~= b@);
    }
    v
}

/// The message to send for a composed frame.
pub fn websocket_message(frame: ForwardWsFrameReq) -> (r: WsMessage)
    ensures
        message_view(r) == message_for(frame.opcode@, frame.payload@),
        r matches WsMessage::Close(code, _) ==> code == 1000,
{
    let op = chars_of(frame.opcode.as_str());
    if eq_str(&op, "binary") {
        let raw = utf8_bytes(frame.payload.as_str());
        match base64_decode(raw.as_slice()) {
            Some(b) => WsMessage::Binary(b),
            None => WsMessage::Binary(raw),
        }
    } else if eq_str(&op, "ping") {
        WsMessage::Ping(utf8_bytes(frame.payload.as_str()))
    } else if eq_str(&op, "pong") {
        WsMessage::Pong(utf8_bytes(frame.payload.as_str()))
    } else if eq_str(&op, "close") {
        WsMessage::Close(1000, frame.payload)
    } else {
        WsMessage::Text(frame.payload)
    }
}

/// How a message is recorded on its session and reported back.
#[derive(Debug)]
pub struct WsFrameRecord {
    pub direction: WsDirection,
    /// The WebSocket opcode: 1 text, 2 binary, 8 close, 9 ping, 10 pong.
    pub opcode: u8,
    /// `text`, `binary`, `close`, `ping` or `pong`.
    pub opcode_label: String,
    /// The payload length in bytes.
    pub payload_len: usize,
    /// The first 512 characters of a text payload.
    pub payload_text: Option<String>,
    /// The first 64 bytes of a binary payload in hex, unless it is empty.
    pub payload_hex: Option<String>,
}

/// A frame as the forward's response reports it.
#[derive(Debug)]
pub struct ForwardWsFrameResp {
    /// `client` or `server`.
    pub direction: String,
    pub opcode: String,
    pub payload: Option<String>,
    pub payload_len: usize,
}

/// At most the first `n` items of `s`.
pub open spec fn first_n<A>(s: Seq<A>, n: nat) -> Seq<A> {
    if s.len() <= n {
        s
    } else {
        s.take(n as int)
    }
}

/// The opcode, label, length, text and hex a message is recorded with;
/// `None` for a raw frame, which is not recorded.
pub open spec fn record_of(m: WsMessage) -> Option<(u8, Seq<char>, nat, Option<Seq<char>>, Option<Seq<char>>)> {
    match m {
        WsMessage::Text(t) => Some(
            (
                1u8,
                "text"@,
                vstd::utf8::encode_utf8(t@).len(),
                Some(first_n(t@, 512)),
                None,
            ),
        ),
        WsMessage::Binary(b) => Some(
            (
                2u8,
                "binary"@,
                b@.len(),
                None,
                if b@.len() == 0 {
                    None
                } else {
                    Some(hex_text(first_n(b@, 64)))
                },
            ),
        ),
        WsMessage::Ping(b) => Some((9u8, "ping"@, b@.len(), None, None)),
        WsMessage::Pong(b) => Some((10u8, "pong"@, b@.len(), None, None)),
        WsMessage::Close(_, _) => Some((8u8, "close"@, 0, None, None)),
        WsMessage::Frame => None,
    }
}

/// How a message travelling in `direction` is recorded (see `record_of`).
pub fn record_ws_message(direction: WsDirection, message: &WsMessage) -> (r: Option<WsFrameRecord>)
    ensures
        match r {
            None => record_of(*message) is None,
            Some(f) => f.direction == direction && record_of(*message) == Some(
                (
                    f.opcode,
                    f.opcode_label@,
                    f.payload_len as nat,
                    match f.payload_text {
                        Some(t) => Some(t@),
                        None => None,
                    },
                    match f.payload_hex {
                        Some(h) => Some(h@),
                        None => None,
                    },
                ),
            ),
        },
{
    match message {
        WsMessage::Text(t) => {
            let c = chars_of(t.as_str());
            let n = if c.len() < 512 {
                c.len()
            } else {
                512
            };
            proof {
                assert(c@.subrange(0, n as int) =~= first_n(t@, 512));
            }
            Some(
                WsFrameRecord {
                    direction,
                    opcode: 1,
                    opcode_label: string_of(&chars_of("text")),
                    payload_len: t.as_str().as_bytes().len(),
                    payload_text: Some(string_of(&slice_vec(&c, 0, n))),
                    payload_hex: None,
                },
            )
        },
        WsMessage::Binary(b) => {
            let hex = if b.len() == 0 {
                None
            } else {
                let n = if b.len() < 64 {
                    b.len()
                } else {
                    64
                };
                let mut head: Vec<u8> = Vec::new();
                let mut i: usize = 0;
                while i < n
                    invariant
                        i <= n,
                        n <= b@.len(),
                        head@ == b@.subrange(0, i as int),
                    decreases n - i,
                {
                    head.push(b[i]);
                    i = i + 1;
                    proof {
                        assert(head@ =~= b@.subrange(0, i as int));
                    }
                }
                proof {
                    assert(head@ =~= first_n(b@, 64));
                }
                Some(string_of(&hex_of(&head)))
            };
            Some(
                WsFrameRecord {
                    direction,
                    opcode: 2,
                    opcode_label: string_of(&chars_of("binary")),
                    payload_len: b.len(),
                    payload_text: None,
                    payload_hex: hex,
                },
            )
        },
        WsMessage::Ping(b) => Some(
            WsFrameRecord {
                direction,
                opcode: 9,
                opcode_label: string_of(&chars_of("ping")),
                payload_len: b.len(),
                payload_text: None,
                payload_hex: None,
            },
        ),
        WsMessage::Pong(b) => Some(
            WsFrameRecord {
                direction,
                opcode: 10,
                opcode_label: string_of(&chars_of("pong")),
                payload_len: b.len(),
                payload_text: None,
                payload_hex: None,
            },
        ),
        WsMessage::Close(_, _) => Some(
            WsFrameRecord {
                direction,
                opcode: 8,
                opcode_label: string_of(&chars_of("close")),
                payload_len: 0,
                payload_text: None,
                payload_hex: None,
            },
        ),
        WsMessage::Frame => None,
    }
}

/// The frame as the forward's response reports it: who sent it, its label,
/// the text (else the hex) of its payload, and its length.
pub fn forward_frame_response(f: &WsFrameRecord) -> (r: ForwardWsFrameResp)
    ensures
        r.direction@ == (if f.direction == WsDirection::ClientToServer {
            "client"@
        } else {
            "server"@
        }),
        r.opcode@ == f.opcode_label@,
        r.payload_len == f.payload_len,
        match f.payload_text {
            Some(t) => r.payload == Some(t),
            None => r.payload == f.payload_hex,
        },
{
    ForwardWsFrameResp {
        direction: match f.direction {
            WsDirection::ClientToServer => string_of(&chars_of("client")),
            WsDirection::ServerToClient => string_of(&chars_of("server")),
        },
        opcode: f.opcode_label.clone(),
        payload: match &f.payload_text {
            Some(t) => Some(t.clone()),
            None => match &f.payload_hex {
                Some(h) => Some(h.clone()),
                None => None,
            },
        },
        payload_len: f.payload_len,
    }
}

// ───────────────────────── composed HTTP requests ─────────────────────────

/// A request composed in the UI.
#[derive(Debug)]
pub struct ForwardReq {
    pub kind: ForwardKind,
    pub method: String,
    pub url: String,
    pub headers: Vec<(String, String)>,
    pub body: Option<String>,
    pub note: Option<String>,
    pub tags: Option<Vec<String>>,
}

/// What is sent and recorded for a composed request.
#[derive(Debug)]
pub struct ForwardPlan {
    /// The method sent (`POST` for gRPC).
    pub method: String,
    /// The URL's scheme.
    pub scheme: String,
    /// The URL's host, with the port when it names one.
    pub host: String,
    /// The request body: the text's bytes, gRPC-framed for gRPC.
    pub body: Vec<u8>,
    /// Whether a body is attached (always for gRPC).
    pub send_body: bool,
    /// Whether `content-type: application/grpc+proto` is added (gRPC without
    /// a content type of its own).
    pub add_grpc_content_type: bool,
    /// For gRPC, the message length of the request event.
    pub grpc_request_length: Option<u32>,
}

/// A method `http::Method::from_bytes` accepts: one or more token bytes.
pub open spec fn is_method(bytes: Seq<u8>) -> bool {
    bytes.len() > 0 && forall|i: int| 0 <= i < bytes.len() ==> is_token_byte(#[trigger] bytes[i])
}

/// `reqwest::Method::from_bytes` succeeds on the UTF-8 bytes of `m`. As the
/// `http` crate's source shows, it accepts exactly the non-empty strings of
/// RFC 9110 token characters.
#[verifier::external_body]
pub(crate) fn method_valid(m: &str) -> (r: bool)
    ensures
        r == is_method(vstd::utf8::encode_utf8(m@)),
{
    reqwest::Method::from_bytes(m.as_bytes()).is_ok()
}

/// Some header is named `content-type`, ignoring ASCII case.
pub open spec fn names_content_type(headers: Seq<(String, String)>) -> bool {
    exists|i: int| 0 <= i < headers.len() && lower(#[trigger] headers[i].0@) == "content-type"@
}

/// The host of a URL as the exchange records it.
pub open spec fn host_text(host: Option<Seq<char>>, port: Option<u16>) -> Seq<char> {
    match host {
        Some(h) => match port {
            Some(p) => h + ":"@ + decimal(p as nat),
            None => h,
        },
        None => Seq::empty(),
    }
}

/// The plan for a composed request, or why it is refused: the method must
/// be a valid method, the URL must parse and be `http` or `https`.
pub open spec fn forward_plan_spec(
    kind: ForwardKind,
    method: Seq<char>,
    url: Seq<char>,
    headers: Seq<(String, String)>,
    body: Option<Seq<char>>,
) -> Result<(Seq<char>, Seq<char>, Seq<char>, Seq<u8>, bool, bool, Option<u32>), Seq<char>> {
    if !is_method(vstd::utf8::encode_utf8(method)) {
        Err("Invalid HTTP method: "@ + method)
    } else {
        match url_components(url) {
            Err(e) => Err("Invalid URL: "@ + e),
            Ok((scheme, host, port)) => if scheme != "http"@ && scheme != "https"@ {
                Err("Unsupported URL scheme: "@ + scheme)
            } else {
                let grpc = kind == ForwardKind::Grpc;
                let text = vstd::utf8::encode_utf8(
                    match body {
                        Some(b) => b,
                        None => Seq::empty(),
                    },
                );
                let bytes = if grpc {
                    seq![0u8] + be32(text.len()) + text
                } else {
                    text
                };
                Ok(
                    (
                        if grpc {
                            "POST"@
                        } else {
                            method
                        },
                        scheme,
                        host_text(host, port),
                        bytes,
                        grpc || bytes.len() > 0,
                        grpc && !names_content_type(headers),
                        if grpc {
                            Some(((bytes.len() - 5) % 0x1_0000_0000) as u32)
                        } else {
                            None
                        },
                    ),
                )
            },
        }
    }
}

fn cat(a: &str, b: &str) -> (r: String)
    ensures
        r@ == a@ + b@,
{
    let mut v = chars_of(a);
    let w = chars_of(b);
    v.extend_from_slice(w.as_slice());
    string_of(&v)
}

fn has_content_type(headers: &Vec<(String, String)>) -> (r: bool)
    ensures
        r == names_content_type(headers@),
{
    let mut i: usize = 0;
    while i < headers.len()
        invariant
            i <= headers.len(),
            forall|j: int| 0 <= j < i ==> lower(#[trigger] headers@[j].0@) != "content-type"@,
        decreases headers.len() - i,
    {
        let n = lower_vec(&chars_of(headers[i].0.as_str()));
        if eq_str(&n, "content-type") {
            return true;
        }
        i = i + 1;
    }
    false
}

/// Checks a composed request and works out what to send and record (see
/// `forward_plan_spec`); the error is the message of the refusal.
pub fn plan_forward(req: &ForwardReq) -> (r: Result<ForwardPlan, String>)
    ensures
        match r {
            Ok(p) => forward_plan_spec(
                req.kind,
                req.method@,
                req.url@,
                req.headers@,
                match req.body {
                    Some(b) => Some(b@),
                    None => None,
                },
            ) == Ok::<_, Seq<char>>(
                (
                    p.method@,
                    p.scheme@,
                    p.host@,
                    p.body@,
                    p.send_body,
                    p.add_grpc_content_type,
                    p.grpc_request_length,
                ),
            ),
            Err(e) => forward_plan_spec(
                req.kind,
                req.method@,
                req.url@,
                req.headers@,
                match req.body {
                    Some(b) => Some(b@),
                    None => None,
                },
            ) == Err::<(Seq<char>, Seq<char>, Seq<char>, Seq<u8>, bool, bool, Option<u32>), Seq<char>>(e@),
        },
{
    if !method_valid(req.method.as_str()) {
        return Err(cat("Invalid HTTP method: ", req.method.as_str()));
    }
    let parts = match parse_url(req.url.as_str()) {
        Ok(p) => p,
        Err(e) => {
            return Err(cat("Invalid URL: ", e.as_str()));
        },
    };
    let sc = chars_of(parts.scheme.as_str());
    if !eq_str(&sc, "http") && !eq_str(&sc, "https") {
        return Err(cat("Unsupported URL scheme: ", parts.scheme.as_str()));
    }
    let grpc = req.kind == ForwardKind::Grpc;
    let text: Vec<u8> = match &req.body {
        Some(b) => utf8_bytes(b.as_str()),
        None => Vec::new(),
    };
    let body = if grpc {
        encode_grpc_frame(false, text.as_slice())
    } else {
        text
    };
    let host = match &parts.host {
        Some(h) => match parts.port {
            Some(port) => {
                let with_colon = cat(h.as_str(), ":");
                string_of(&{
                    let mut v = chars_of(with_colon.as_str());
                    let d = decimal_exec(port as u64);
                    v.extend_from_slice(d.as_slice());
                    v
                })
            },
            None => h.clone(),
        },
        None => String::new(),
    };
    let grpc_request_length = if grpc {
        let n: u64 = body.len() as u64;
        Some(((n - 5) % 0x1_0000_0000) as u32)
    } else {
        None
    };
    let method = if grpc {
        string_of(&chars_of("POST"))
    } else {
        req.method.clone()
    };
    let send_body = grpc || body.len() > 0;
    let add_grpc_content_type = grpc && !has_content_type(&req.headers);
    let ghost text_bytes = vstd::utf8::encode_utf8(
        match &req.body {
            Some(b) => b@,
            None => Seq::<char>::empty(),
        },
    );
    let ghost host_view = match &parts.host {
        Some(h) => Some(h@),
        None => None,
    };
    assert(host@ == host_text(host_view, parts.port));
    assert(url_components(req.url@) == Ok::<_, Seq<char>>((parts.scheme@, host_view, parts.port)));
    assert(body@ == if grpc {
        seq![0u8] + be32(text_bytes.len()) + text_bytes
    } else {
        text_bytes
    });
    Ok(
        ForwardPlan {
            method,
            scheme: parts.scheme,
            host,
            body,
            send_body,
            add_grpc_content_type,
            grpc_request_length,
        },
    )
}

/// What `base64`'s standard engine writes for some bytes.
pub uninterp spec fn base64_encoded(bytes: Seq<u8>) -> Seq<char>;

/// `base64::engine::general_purpose::STANDARD.encode`. The contract names the
/// result and claims nothing more of it.
#[verifier::external_body]
fn base64_encode(bytes: &[u8]) -> (r: String)
    ensures
        r@ == base64_encoded(bytes@),
{
    base64::engine::general_purpose::STANDARD.encode(bytes)
}

/// What `String::from_utf8_lossy` makes of some bytes.
pub uninterp spec fn utf8_lossy(bytes: Seq<u8>) -> Seq<char>;

/// `String::from_utf8_lossy`: the text of the bytes, invalid sequences
/// replaced by U+FFFD. The contract names the result and states what std's
/// documentation promises of valid UTF-8: it is decoded as it is.
#[verifier::external_body]
fn lossy_text(bytes: &[u8]) -> (r: String)
    ensures
        r@ == utf8_lossy(bytes@),
        vstd::utf8::valid_utf8(bytes@) ==> r@ == vstd::utf8::decode_utf8(bytes@),
{
    String::from_utf8_lossy(bytes).to_string()
}

/// The body of a forward's response as returned to the UI: base64 for a
/// binary content type, the text (lossily decoded) otherwise; and whether
/// it is binary.
pub fn forward_response_body(content_type: &str, bytes: &[u8]) -> (r: (String, bool))
    ensures
        r.1 == crate::wire::is_binary_content_type_spec(content_type@),
        r.0@ == if r.1 {
            base64_encoded(bytes@)
        } else {
            utf8_lossy(bytes@)
        },
{
    if crate::wire::is_binary_content_type(content_type) {
        (base64_encode(bytes), true)
    } else {
        (lossy_text(bytes), false)
    }
}

// ───────────────────────── WebSocket forward records ─────────────────────────

/// The response and metrics a composed WebSocket forward records once the
/// handshake succeeded: `101` with `upgrade: websocket`, under the target
/// URL, with the time the exchange took.
pub fn record_websocket_success(url: &str, elapsed_ms: u64) -> (r: (ResponseContext, InspectionMetrics))
    ensures
        r.0.status == 101,
        crate::exchange::headers_view(r.0.headers@) == seq![("upgrade"@, "websocket"@)],
        r.0.request_uri@ == url@,
        r.0.body@.len() == 0,
        r.0.ttfb_ms == 0 && r.0.body_ms == 0,
        r.1.latency_ms == elapsed_ms,
        r.1.status_code == 101,
        r.1.protocol matches Some(p) && p@ == "WebSocket"@,
        r.1.ttfb_ms == 0 && r.1.request_size_bytes == 0 && r.1.response_size_bytes == 0,
{
    let headers = vec![(string_of(&chars_of("upgrade")), string_of(&chars_of("websocket")))];
    proof {
        assert(crate::exchange::headers_view(headers@) =~= seq![("upgrade"@, "websocket"@)]);
    }
    (
        ResponseContext {
            request_uri: url.to_owned(),
            status: 101,
            headers,
            body: String::new(),
            ttfb_ms: 0,
            body_ms: 0,
        },
        InspectionMetrics {
            latency_ms: elapsed_ms,
            ttfb_ms: 0,
            request_size_bytes: 0,
            response_size_bytes: 0,
            status_code: 101,
            protocol: Some(string_of(&chars_of("WebSocket"))),
        },
    )
}

/// The response and metrics a composed WebSocket forward records when it
/// failed: `502` with the error as body, its length in bytes as the
/// response size.
pub fn record_ws_failure(request_uri: &str, elapsed_ms: u64, error: &str) -> (r: (ResponseContext, InspectionMetrics))
    ensures
        r.0.status == 502,
        r.0.headers@.len() == 0,
        r.0.request_uri@ == request_uri@,
        r.0.body@ == error@,
        r.0.ttfb_ms == 0 && r.0.body_ms == 0,
        r.1.latency_ms == elapsed_ms,
        r.1.status_code == 502,
        r.1.response_size_bytes == vstd::utf8::encode_utf8(error@).len(),
        r.1.protocol is None,
        r.1.ttfb_ms == 0 && r.1.request_size_bytes == 0,
{
    (
        ResponseContext {
            request_uri: request_uri.to_owned(),
            status: 502,
            headers: Vec::new(),
            body: error.to_owned(),
            ttfb_ms: 0,
            body_ms: 0,
        },
        InspectionMetrics {
            latency_ms: elapsed_ms,
            ttfb_ms: 0,
            request_size_bytes: 0,
            response_size_bytes: error.as_bytes().len(),
            status_code: 502,
            protocol: None,
        },
    )
}


// ───────────────────────── composed WebSocket exchanges ─────────────────────────

/// A WebSocket exchange composed in the UI: the URL, the user's handshake
/// headers, the frames to send, and the note and tags to record.
#[derive(Debug)]
pub struct ForwardWsReq {
    pub url: String,
    pub headers: Vec<(String, String)>,
    pub frames: Vec<ForwardWsFrameReq>,
    pub note: Option<String>,
    pub tags: Option<Vec<String>>,
}

/// What `url::Url::set_scheme` makes of the URL `url`, as `reqwest::Url`
/// parses it, given the scheme `scheme`: the serialized URL, or none where
/// the URL does not parse or the scheme change is refused.
pub uninterp spec fn rescheme(url: Seq<char>, scheme: Seq<char>) -> Option<Seq<char>>;

/// `reqwest::Url::parse`, then `Url::set_scheme` and `Url::as_str`. The
/// contract names the outcome and claims nothing more of it.
#[verifier::external_body]
fn set_url_scheme(url: &str, scheme: &str) -> (r: Option<String>)
    ensures
        match r {
            Some(t) => rescheme(url@, scheme@) == Some(t@),
            None => rescheme(url@, scheme@) is None,
        },
{
    let mut parsed = reqwest::Url::parse(url).ok()?;
    parsed.set_scheme(scheme).ok()?;
    Some(parsed.as_str().to_string())
}

/// The URL that the egress policy judges for a WebSocket URL: `ws` becomes
/// `http` and `wss` becomes `https`; any other scheme is refused.
pub open spec fn ws_policy_url(url: Seq<char>, scheme: Seq<char>) -> Result<Seq<char>, Seq<char>> {
    if scheme == "ws"@ || scheme == "wss"@ {
        let target = if scheme == "ws"@ {
            "http"@
        } else {
            "https"@
        };
        match rescheme(url, target) {
            Some(t) => Ok(t),
            None => Err("Unable to translate "@ + scheme + " URL for egress policy"@),
        }
    } else {
        Err("Unsupported WebSocket URL scheme: "@ + scheme)
    }
}

/// Translates a WebSocket URL into the HTTP URL that the egress policy
/// checks (see `ws_policy_url`).
pub fn ws_url_to_http(url: &str) -> (r: Result<String, String>)
    requires
        url_components(url@) is Ok,
    ensures
        match r {
            Ok(t) => ws_policy_url(url@, url_components(url@)->Ok_0.0) == Ok::<_, Seq<char>>(t@),
            Err(e) => ws_policy_url(url@, url_components(url@)->Ok_0.0) == Err::<Seq<char>, _>(e@),
        },
{
    let parts = match parse_url(url) {
        Ok(p) => p,
        Err(_) => {
            return Err(String::new());
        },
    };
    let sc = chars_of(parts.scheme.as_str());
    let target = if eq_str(&sc, "ws") {
        "http"
    } else if eq_str(&sc, "wss") {
        "https"
    } else {
        return Err(cat("Unsupported WebSocket URL scheme: ", parts.scheme.as_str()));
    };
    match set_url_scheme(url, target) {
        Some(t) => Ok(t),
        None => {
            let head = cat("Unable to translate ", parts.scheme.as_str());
            Err(cat(head.as_str(), " URL for egress policy"))
        },
    }
}

/// The headers recorded with a composed WebSocket request: the user's,
/// with `upgrade: websocket` set.
pub open spec fn ws_recorded_headers(headers: Seq<(String, String)>) -> Seq<(Seq<char>, Seq<char>)> {
    headers.filter(|h: (String, String)| h.0@ != "upgrade"@).map_values(
        |h: (String, String)| (h.0@, h.1@),
    ).push(("upgrade"@, "websocket"@))
}

/// A user header is passed on to the handshake: not one of the
/// handshake's own, and a valid header name and value.
pub open spec fn ws_forwarded(h: (String, String)) -> bool {
    !is_handshake_header(lower(h.0@)) && crate::playback::is_header_name(
        vstd::utf8::encode_utf8(h.0@),
    ) && crate::playback::is_header_value(vstd::utf8::encode_utf8(h.1@))
}

/// What is recorded and sent for a composed WebSocket exchange.
#[derive(Debug)]
pub struct WsForwardPlan {
    /// The URL's scheme, `ws` or `wss`.
    pub scheme: String,
    /// The URL the egress policy judges.
    pub policy_url: String,
    /// The URL's host, with the port when it names one.
    pub host: String,
    /// The headers recorded with the request.
    pub recorded_headers: Vec<(String, String)>,
    /// The user's headers passed on to the handshake, in order.
    pub handshake_headers: Vec<(String, String)>,
}

/// Checks a composed WebSocket exchange and works out what to record and
/// send: the URL must parse and be `ws` or `wss`, and translate for the
/// egress policy; the error is the message of the refusal.
pub fn plan_websocket_forward(req: &ForwardWsReq) -> (r: Result<WsForwardPlan, String>)
    ensures
        match url_components(req.url@) {
            Err(e) => r matches Err(m) && m@ == "Invalid URL: "@ + e,
            Ok((scheme, host, port)) => match ws_policy_url(req.url@, scheme) {
                Err(e) => r matches Err(m) && m@ == e,
                Ok(policy) => r matches Ok(p) && {
                    &&& p.scheme@ == scheme
                    &&& p.policy_url@ == policy
                    &&& p.host@ == host_text(host, port)
                    &&& p.recorded_headers@.map_values(|h: (String, String)| (h.0@, h.1@))
                        == ws_recorded_headers(req.headers@)
                    &&& p.handshake_headers@ == req.headers@.filter(|h: (String, String)| ws_forwarded(h))
                },
            },
        },
{
    let parts = match parse_url(req.url.as_str()) {
        Ok(p) => p,
        Err(e) => {
            return Err(cat("Invalid URL: ", e.as_str()));
        },
    };
    let ghost host_view = match &parts.host {
        Some(h) => Some(h@),
        None => None,
    };
    assert(url_components(req.url@) == Ok::<_, Seq<char>>((parts.scheme@, host_view, parts.port)));
    let policy_url = match ws_url_to_http(req.url.as_str()) {
        Ok(t) => t,
        Err(e) => {
            return Err(e);
        },
    };
    let host = match &parts.host {
        Some(h) => match parts.port {
            Some(port) => {
                let with_colon = cat(h.as_str(), ":");
                let mut v = chars_of(with_colon.as_str());
                let d = decimal_exec(port as u64);
                v.extend_from_slice(d.as_slice());
                string_of(&v)
            },
            None => h.clone(),
        },
        None => String::new(),
    };
    assert(host@ == host_text(host_view, parts.port));
    let mut recorded: Vec<(String, String)> = Vec::new();
    let mut handshake: Vec<(String, String)> = Vec::new();
    let mut i: usize = 0;
    while i < req.headers.len()
        invariant
            i <= req.headers@.len(),
            recorded@.map_values(|h: (String, String)| (h.0@, h.1@)) == req.headers@.subrange(
                0,
                i as int,
            ).filter(|h: (String, String)| h.0@ != "upgrade"@).map_values(
                |h: (String, String)| (h.0@, h.1@),
            ),
            handshake@ == req.headers@.subrange(0, i as int).filter(
                |h: (String, String)| ws_forwarded(h),
            ),
        decreases req.headers.len() - i,
    {
        let ghost pre = req.headers@.subrange(0, i as int);
        let ghost next = req.headers@.subrange(0, i + 1);
        assert(next.drop_last() =~= pre);
        let ghost h = req.headers@[i as int];
        assert(next.last() == h);
        let name = &req.headers[i].0;
        let value = &req.headers[i].1;
        if !eq_str(&chars_of(name.as_str()), "upgrade") {
            let ghost before = recorded@;
            recorded.push((name.clone(), value.clone()));
            assert(recorded@.map_values(|h: (String, String)| (h.0@, h.1@)) =~= before.map_values(
                |h: (String, String)| (h.0@, h.1@),
            ).push((h.0@, h.1@)));
        } else {
            assert(recorded@.map_values(|h: (String, String)| (h.0@, h.1@)) =~= recorded@.map_values(
                |h: (String, String)| (h.0@, h.1@),
            ));
        }
        proof {
            reveal(Seq::filter);
        }
        if is_ws_forward_header(name.as_str()) && crate::playback::header_name_valid(name.as_str())
            && crate::playback::header_value_valid(value.as_str()) {
            handshake.push((name.clone(), value.clone()));
        }
        i = i + 1;
    }
    assert(req.headers@.subrange(0, req.headers@.len() as int) =~= req.headers@);
    let ghost before = recorded@;
    recorded.push((string_of(&chars_of("upgrade")), string_of(&chars_of("websocket"))));
    assert(recorded@.map_values(|h: (String, String)| (h.0@, h.1@)) =~= before.map_values(
        |h: (String, String)| (h.0@, h.1@),
    ).push(("upgrade"@, "websocket"@)));
    Ok(
        WsForwardPlan {
            scheme: parts.scheme,
            policy_url,
            host,
            recorded_headers: recorded,
            handshake_headers: handshake,
        },
    )
}

} // verus!

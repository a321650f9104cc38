//! Forwarding and protocol planning contracts.
//!
//! Defines protocol context, body-access requirements, and forwarding plans,
//! together with the gRPC length-prefixed frame format.
use vstd::prelude::*;

verus! {

/// HTTP version of a request head, as the transport reports it.
#[derive(Debug, Clone, Copy, PartialEq, Eq, Structural)]
pub enum HttpVersion {
    Http09,
    Http10,
    Http11,
    Http2,
    Http3,
}

/// Protocol family on one side of a proxied exchange. This is deliberately
/// transport-shaped, not feature-shaped: rules and plugins reason about
/// "HTTP/2" or "SOCKS5 tunnel" through this enum instead of ad-hoc strings.
#[derive(Debug, Clone, Copy, PartialEq, Eq, Structural)]
pub enum WireProtocol {
    Http1,
    Http2,
    Http3,
    Socks5,
    WebSocket,
}

impl Default for WireProtocol {
    fn default() -> (r: Self)
        ensures
            r == WireProtocol::Http1,
    {
        WireProtocol::Http1
    }
}

impl WireProtocol {
    /// Human-readable name of the protocol.
    pub open spec fn label_spec(self) -> Seq<char> {
        match self {
            WireProtocol::Http1 => "HTTP/1.1"@,
            WireProtocol::Http2 => "HTTP/2"@,
            WireProtocol::Http3 => "HTTP/3"@,
            WireProtocol::Socks5 => "SOCKS5"@,
            WireProtocol::WebSocket => "WebSocket"@,
        }
    }

    /// Value that rules match the protocol against.
    pub open spec fn match_value_spec(self) -> Seq<char> {
        match self {
            WireProtocol::Http1 => "http1"@,
            WireProtocol::Http2 => "http2"@,
            WireProtocol::Http3 => "http3"@,
            WireProtocol::Socks5 => "socks5"@,
            WireProtocol::WebSocket => "websocket"@,
        }
    }

    pub fn label(self) -> (r: &'static str)
        ensures
            r@ == self.label_spec(),
    {
        match self {
            WireProtocol::Http1 => "HTTP/1.1",
            WireProtocol::Http2 => "HTTP/2",
            WireProtocol::Http3 => "HTTP/3",
            WireProtocol::Socks5 => "SOCKS5",
            WireProtocol::WebSocket => "WebSocket",
        }
    }

    pub fn match_value(self) -> (r: &'static str)
        ensures
            r@ == self.match_value_spec(),
    {
        match self {
            WireProtocol::Http1 => "http1",
            WireProtocol::Http2 => "http2",
            WireProtocol::Http3 => "http3",
            WireProtocol::Socks5 => "socks5",
            WireProtocol::WebSocket => "websocket",
        }
    }

    /// HTTP/2 and HTTP/3 map to themselves; every other version is HTTP/1.
    pub fn from_http_version(v: HttpVersion) -> (r: Self)
        ensures
            r == (match v {
                HttpVersion::Http2 => WireProtocol::Http2,
                HttpVersion::Http3 => WireProtocol::Http3,
                _ => WireProtocol::Http1,
            }),
    {
        match v {
            HttpVersion::Http2 => WireProtocol::Http2,
            HttpVersion::Http3 => WireProtocol::Http3,
            _ => WireProtocol::Http1,
        }
    }
}

/// Application protocol inferred from request metadata. This is separate from
/// the wire protocol because gRPC and SSE are HTTP applications riding h2/h3/h1.
#[derive(Debug, Clone, Copy, PartialEq, Eq, Structural)]
pub enum ApplicationProtocol {
    Http,
    Grpc,
    Sse,
    Graphql,
    Json,
    Binary,
}

impl Default for ApplicationProtocol {
    fn default() -> (r: Self)
        ensures
            r == ApplicationProtocol::Http,
    {
        ApplicationProtocol::Http
    }
}

impl ApplicationProtocol {
    pub open spec fn match_value_spec(self) -> Seq<char> {
        match self {
            ApplicationProtocol::Http => "http"@,
            ApplicationProtocol::Grpc => "grpc"@,
            ApplicationProtocol::Sse => "sse"@,
            ApplicationProtocol::Graphql => "graphql"@,
            ApplicationProtocol::Json => "json"@,
            ApplicationProtocol::Binary => "binary"@,
        }
    }

    pub fn match_value(self) -> (r: &'static str)
        ensures
            r@ == self.match_value_spec(),
    {
        match self {
            ApplicationProtocol::Http => "http",
            ApplicationProtocol::Grpc => "grpc",
            ApplicationProtocol::Sse => "sse",
            ApplicationProtocol::Graphql => "graphql",
            ApplicationProtocol::Json => "json",
            ApplicationProtocol::Binary => "binary",
        }
    }
}

/// Body shape the engine must preserve for correctness.
#[derive(Debug, Clone, Copy, PartialEq, Eq, Structural)]
pub enum BodyMode {
    Empty,
    Full,
    StreamBytes,
    StreamMessages,
    Frames,
    Tunnel,
}

impl Default for BodyMode {
    fn default() -> (r: Self)
        ensures
            r == BodyMode::Full,
    {
        BodyMode::Full
    }
}

impl BodyMode {
    pub open spec fn match_value_spec(self) -> Seq<char> {
        match self {
            BodyMode::Empty => "empty"@,
            BodyMode::Full => "full"@,
            BodyMode::StreamBytes => "stream_bytes"@,
            BodyMode::StreamMessages => "stream_messages"@,
            BodyMode::Frames => "frames"@,
            BodyMode::Tunnel => "tunnel"@,
        }
    }

    pub fn match_value(self) -> (r: &'static str)
        ensures
            r@ == self.match_value_spec(),
    {
        match self {
            BodyMode::Empty => "empty",
            BodyMode::Full => "full",
            BodyMode::StreamBytes => "stream_bytes",
            BodyMode::StreamMessages => "stream_messages",
            BodyMode::Frames => "frames",
            BodyMode::Tunnel => "tunnel",
        }
    }
}

/// Typed protocol identity for one proxied exchange. It is safe to persist, but
/// it is moved through the runtime as typed context, never as headers.
#[derive(Debug, Clone)]
pub struct ProtocolContext {
    pub downstream: WireProtocol,
    pub upstream: Option<WireProtocol>,
    pub application: ApplicationProtocol,
    pub body_mode: BodyMode,
    pub scheme: String,
    pub connection_id: Option<String>,
    pub stream_id: Option<u64>,
}

impl Default for ProtocolContext {
    fn default() -> (r: Self)
        ensures
            r.downstream == WireProtocol::Http1,
            r.upstream is None,
            r.application == ApplicationProtocol::Http,
            r.body_mode == BodyMode::Full,
            r.scheme@ == Seq::<char>::empty(),
            r.connection_id is None,
            r.stream_id is None,
    {
        ProtocolContext {
            downstream: WireProtocol::Http1,
            upstream: None,
            application: ApplicationProtocol::Http,
            body_mode: BodyMode::Full,
            scheme: String::new(),
            connection_id: None,
            stream_id: None,
        }
    }
}

/// The view of an optional string.
pub open spec fn opt_str(o: Option<String>) -> Option<Seq<char>> {
    match o {
        Some(s) => Some(s@),
        None => None,
    }
}

impl ProtocolContext {
    pub fn http(
        version: HttpVersion,
        scheme: String,
        application: ApplicationProtocol,
        body_mode: BodyMode,
    ) -> (r: Self)
        ensures
            r.downstream == (match version {
                HttpVersion::Http2 => WireProtocol::Http2,
                HttpVersion::Http3 => WireProtocol::Http3,
                _ => WireProtocol::Http1,
            }),
            r.upstream is None,
            r.application == application,
            r.body_mode == body_mode,
            r.scheme@ == scheme@,
            r.connection_id is None,
            r.stream_id is None,
    {
        ProtocolContext {
            downstream: WireProtocol::from_http_version(version),
            upstream: None,
            application,
            body_mode,
            scheme,
            connection_id: None,
            stream_id: None,
        }
    }

    /// Attaches the connection and stream identity; everything else is kept.
    pub fn with_identity(self, connection_id: Option<String>, stream_id: Option<u64>) -> (r: Self)
        ensures
            r.downstream == self.downstream,
            r.upstream == self.upstream,
            r.application == self.application,
            r.body_mode == self.body_mode,
            r.scheme@ == self.scheme@,
            opt_str(r.connection_id) == opt_str(connection_id),
            r.stream_id == stream_id,
    {
        let mut ctx = self;
        ctx.connection_id = connection_id;
        ctx.stream_id = stream_id;
        ctx
    }

    /// Protocol identity for a WebSocket exchange (frame body mode).
    pub fn websocket(scheme: String) -> (r: Self)
        ensures
            r.downstream == WireProtocol::WebSocket,
            r.upstream is None,
            r.application == ApplicationProtocol::Http,
            r.body_mode == BodyMode::Frames,
            r.scheme@ == scheme@,
            r.connection_id is None,
            r.stream_id is None,
    {
        ProtocolContext {
            downstream: WireProtocol::WebSocket,
            upstream: None,
            application: ApplicationProtocol::Http,
            body_mode: BodyMode::Frames,
            scheme,
            connection_id: None,
            stream_id: None,
        }
    }

    /// Protocol identity for a raw SOCKS5 tunnel (opaque bytes, no HTTP).
    pub fn socks5_tunnel() -> (r: Self)
        ensures
            r.downstream == WireProtocol::Socks5,
            r.upstream is None,
            r.application == ApplicationProtocol::Binary,
            r.body_mode == BodyMode::Tunnel,
            r.scheme@ == "socks5"@,
            r.connection_id is None,
            r.stream_id is None,
    {
        ProtocolContext {
            downstream: WireProtocol::Socks5,
            upstream: None,
            application: ApplicationProtocol::Binary,
            body_mode: BodyMode::Tunnel,
            scheme: crate::text::string_of(&crate::text::chars_of("socks5")),
            connection_id: None,
            stream_id: None,
        }
    }
}

// ───────────────────────── gRPC frames ─────────────────────────

/// Big-endian encoding of the low 32 bits of `n`.
pub open spec fn be32(n: nat) -> Seq<u8> {
    let m = n % 0x1_0000_0000;
    seq![
        ((m / 0x100_0000) % 0x100) as u8,
        ((m / 0x1_0000) % 0x100) as u8,
        ((m / 0x100) % 0x100) as u8,
        (m % 0x100) as u8,
    ]
}

/// Value of four big-endian bytes.
pub open spec fn be32_value(b0: u8, b1: u8, b2: u8, b3: u8) -> nat {
    b0 as nat * 0x100_0000 + b1 as nat * 0x1_0000 + b2 as nat * 0x100 + b3 as nat
}

/// One gRPC length-prefixed frame:
/// `[1B compressed flag][4B big-endian length][N bytes message]`.
pub open spec fn grpc_frame(compressed: bool, payload: Seq<u8>) -> Seq<u8> {
    seq![if compressed {
        1u8
    } else {
        0u8
    }] + be32(payload.len()) + payload
}

/// The `(compressed, length)` of each complete frame at the head of `bytes`;
/// decoding stops at the first frame whose message runs past the end.
pub open spec fn grpc_frame_lengths(bytes: Seq<u8>) -> Seq<(bool, u32)>
    decreases bytes.len(),
{
    if bytes.len() < 5 {
        Seq::empty()
    } else {
        let len = be32_value(bytes[1], bytes[2], bytes[3], bytes[4]);
        if 5 + len > bytes.len() {
            Seq::empty()
        } else {
            seq![(bytes[0] != 0, len as u32)] + grpc_frame_lengths(
                bytes.subrange(5 + len as int, bytes.len() as int),
            )
        }
    }
}

proof fn lemma_be32_roundtrip(n: nat)
    requires
        n < 0x1_0000_0000,
    ensures
        be32_value(be32(n)[0], be32(n)[1], be32(n)[2], be32(n)[3]) == n,
{
    let m = n % 0x1_0000_0000;
    assert(m == n);
    let b0 = (m / 0x100_0000) % 0x100;
    let b1 = (m / 0x1_0000) % 0x100;
    let b2 = (m / 0x100) % 0x100;
    let b3 = m % 0x100;
    assert(b0 * 0x100_0000 + b1 * 0x1_0000 + b2 * 0x100 + b3 == m) by (nonlinear_arith)
        requires
            m < 0x1_0000_0000,
            b0 == (m / 0x100_0000) % 0x100,
            b1 == (m / 0x1_0000) % 0x100,
            b2 == (m / 0x100) % 0x100,
            b3 == m % 0x100,
    ;
}

/// Decoding a frame followed by more bytes yields that frame's flag and
/// length, then whatever the rest decodes to.
pub proof fn lemma_grpc_frame_then_rest(compressed: bool, payload: Seq<u8>, rest: Seq<u8>)
    requires
        payload.len() < 0x1_0000_0000,
    ensures
        grpc_frame_lengths(grpc_frame(compressed, payload) + rest) == seq![
            (compressed, payload.len() as u32),
        ] + grpc_frame_lengths(rest),
{
    let bytes = grpc_frame(compressed, payload) + rest;
    lemma_be32_roundtrip(payload.len());
    assert(bytes[1] == be32(payload.len())[0]);
    assert(bytes[2] == be32(payload.len())[1]);
    assert(bytes[3] == be32(payload.len())[2]);
    assert(bytes[4] == be32(payload.len())[3]);
    assert(bytes.subrange(5 + payload.len() as int, bytes.len() as int) =~= rest);
}

/// Encodes one gRPC length-prefixed frame. The length field holds the low 32
/// bits of the payload length.
pub fn encode_grpc_frame(compressed: bool, payload: &[u8]) -> (frame: Vec<u8>)
    ensures
        frame@ == seq![if compressed {
            1u8
        } else {
            0u8
        }] + be32(payload@.len()) + payload@,
{
    let mut frame: Vec<u8> = Vec::new();
    frame.push(if compressed {
        1u8
    } else {
        0u8
    });
    let n: u64 = payload.len() as u64;
    let m: u64 = n % 0x1_0000_0000;
    frame.push(((m / 0x100_0000) % 0x100) as u8);
    frame.push(((m / 0x1_0000) % 0x100) as u8);
    frame.push(((m / 0x100) % 0x100) as u8);
    frame.push((m % 0x100) as u8);
    let mut i: usize = 0;
    while i < payload.len()
        invariant
            i <= payload.len(),
            frame@ == seq![if compressed {
                1u8
            } else {
                0u8
            }] + be32(payload@.len()) + payload@.subrange(0, i as int),
        decreases payload.len() - i,
    {
        frame.push(payload[i]);
        i = i + 1;
        assert(payload@.subrange(0, i as int) =~= payload@.subrange(0, i - 1 as int).push(
            payload@[i - 1],
        ));
    }
    assert(payload@.subrange(0, payload.len() as int) =~= payload@);
    frame
}

/// Lists the `(compressed, length)` of every complete frame in a gRPC body,
/// ignoring a truncated tail.
pub fn decode_grpc_message_lengths(bytes: &[u8]) -> (out: Vec<(bool, u32)>)
    ensures
        out@ == grpc_frame_lengths(bytes@),
{
    let mut out: Vec<(bool, u32)> = Vec::new();
    let mut i: usize = 0;
    assert(bytes@.subrange(0, bytes.len() as int) =~= bytes@);
    assert(out@ + grpc_frame_lengths(bytes@) =~= grpc_frame_lengths(bytes@));
    while i <= bytes.len() && bytes.len() - i >= 5
        invariant
            i <= bytes.len(),
            grpc_frame_lengths(bytes@) == out@ + grpc_frame_lengths(
                bytes@.subrange(i as int, bytes.len() as int),
            ),
        decreases bytes.len() - i,
    {
        let ghost rest = bytes@.subrange(i as int, bytes.len() as int);
        let compressed = bytes[i] != 0;
        let len: u32 = ((bytes[i + 1] as u32) * 0x100_0000) + ((bytes[i + 2] as u32) * 0x1_0000) + ((
        bytes[i + 3] as u32) * 0x100) + (bytes[i + 4] as u32);
        assert(len as nat == be32_value(rest[1], rest[2], rest[3], rest[4]));
        if bytes.len() - i - 5 < len as usize {
            return out;
        }
        let next: usize = i + 5 + len as usize;
        assert(rest.subrange(5 + len as int, rest.len() as int) =~= bytes@.subrange(
            next as int,
            bytes.len() as int,
        ));
        out.push((compressed, len));
        i = next;
        assert(grpc_frame_lengths(rest) == seq![(compressed, len)] + grpc_frame_lengths(
            bytes@.subrange(i as int, bytes.len() as int),
        ));
    }
    proof {
        let rest = bytes@.subrange(i as int, bytes.len() as int);
        assert(rest.len() < 5);
    }
    out
}

// ───────────────────────── capability planning ─────────────────────────

/// Granularity at which an inspecting plugin wants to observe a streamed body.
#[derive(Debug, Clone, Copy, PartialEq, Eq, Structural)]
pub enum Granularity {
    /// Per network chunk, as bytes arrive.
    Bytes,
    /// Per length-prefixed application message (e.g. the 5-byte gRPC frame).
    Messages,
}

/// Declares how a plugin needs to access the body. The engine evaluates this
/// from request metadata before forwarding any body bytes. Streaming plugins
/// may inspect but not mutate body data.
#[derive(Debug, Clone, Copy, PartialEq, Eq, Structural)]
pub enum BodyHint {
    /// Buffer the whole body; mutation is allowed (mock, rewrite, Lua, breakpoint).
    FullBody,
    /// Observe the streamed body without mutating it (inspectors).
    StreamingInspect { granularity: Granularity },
}

impl Default for BodyHint {
    /// Plugins are assumed to need the whole body unless they opt into streaming.
    fn default() -> (r: Self)
        ensures
            r == BodyHint::FullBody,
    {
        BodyHint::FullBody
    }
}

/// Which forwarding path handles an exchange.
#[derive(Debug, Clone, Copy, PartialEq, Eq, Structural)]
pub enum ForwardClass {
    /// Buffer the body, subject to `max_body_bytes`, so middleware can mutate it.
    Buffered,
    /// Relay the body with back-pressure while allowing inspection.
    Streaming,
}

/// Execution path selected from protocol context and active middleware needs.
#[derive(Debug, Clone, Copy, PartialEq, Eq, Structural)]
pub enum ExecutionClass {
    Buffered,
    StreamingInspect,
    FrameInspect,
    TunnelMetadata,
}

#[derive(Debug, Clone)]
pub struct CapabilityPlan {
    pub execution: ExecutionClass,
    pub forward_class: ForwardClass,
    pub diagnostic: Option<String>,
}

/// Some plugin needs the full body.
pub open spec fn has_full_body(hints: Seq<BodyHint>) -> bool {
    exists|i: int| 0 <= i < hints.len() && hints[i] == BodyHint::FullBody
}

/// Some plugin streams the body.
pub open spec fn has_streaming(hints: Seq<BodyHint>) -> bool {
    exists|i: int| 0 <= i < hints.len() && hints[i] is StreamingInspect
}

/// Diagnostic attached when full-body middleware meets a non-HTTP body mode.
pub open spec fn full_body_diagnostic(mode: BodyMode) -> Option<Seq<char>> {
    match mode {
        BodyMode::Tunnel => Some(
            "full-body middleware cannot run on a raw tunnel; only metadata-safe actions are supported"@,
        ),
        BodyMode::Frames => Some(
            "full-body middleware forces buffered HTTP handling; frame streams need a frame-aware action"@,
        ),
        _ => None,
    }
}

/// The planned execution path for a body mode and a set of plugin hints.
pub open spec fn planned_execution(mode: BodyMode, hints: Seq<BodyHint>) -> ExecutionClass {
    if has_full_body(hints) {
        ExecutionClass::Buffered
    } else if mode == BodyMode::Tunnel {
        ExecutionClass::TunnelMetadata
    } else if mode == BodyMode::Frames {
        ExecutionClass::FrameInspect
    } else if has_streaming(hints) {
        ExecutionClass::StreamingInspect
    } else {
        ExecutionClass::Buffered
    }
}

/// The forwarding path that goes with an execution class.
pub open spec fn forward_class_of(e: ExecutionClass) -> ForwardClass {
    match e {
        ExecutionClass::Buffered => ForwardClass::Buffered,
        ExecutionClass::TunnelMetadata => ForwardClass::Buffered,
        ExecutionClass::FrameInspect => ForwardClass::Streaming,
        ExecutionClass::StreamingInspect => ForwardClass::Streaming,
    }
}

/// Selects the execution path for an exchange. The decision is made from the
/// request head and plugin declarations only.
pub fn plan_execution(protocol: &ProtocolContext, hints: &[BodyHint]) -> (plan: CapabilityPlan)
    ensures
        plan.execution == planned_execution(protocol.body_mode, hints@),
        plan.forward_class == forward_class_of(plan.execution),
        opt_str(plan.diagnostic) == if has_full_body(hints@) {
            full_body_diagnostic(protocol.body_mode)
        } else {
            None
        },
{
    let mut saw_streaming = false;
    let mut i: usize = 0;
    while i < hints.len()
        invariant
            i <= hints.len(),
            forall|j: int| 0 <= j < i ==> hints@[j] != BodyHint::FullBody,
            saw_streaming == exists|j: int| 0 <= j < i && hints@[j] is StreamingInspect,
        decreases hints.len() - i,
    {
        match hints[i] {
            BodyHint::FullBody => {
                let diagnostic = match protocol.body_mode {
                    BodyMode::Tunnel => Some(
                        crate::text::string_of(
                            &crate::text::chars_of(
                                "full-body middleware cannot run on a raw tunnel; only metadata-safe actions are supported",
                            ),
                        ),
                    ),
                    BodyMode::Frames => Some(
                        crate::text::string_of(
                            &crate::text::chars_of(
                                "full-body middleware forces buffered HTTP handling; frame streams need a frame-aware action",
                            ),
                        ),
                    ),
                    _ => None,
                };
                return CapabilityPlan {
                    execution: ExecutionClass::Buffered,
                    forward_class: ForwardClass::Buffered,
                    diagnostic,
                };
            },
            BodyHint::StreamingInspect { .. } => {
                saw_streaming = true;
            },
        }
        i = i + 1;
    }
    match protocol.body_mode {
        BodyMode::Tunnel => CapabilityPlan {
            execution: ExecutionClass::TunnelMetadata,
            forward_class: ForwardClass::Buffered,
            diagnostic: None,
        },
        BodyMode::Frames => CapabilityPlan {
            execution: ExecutionClass::FrameInspect,
            forward_class: ForwardClass::Streaming,
            diagnostic: None,
        },
        _ => {
            if saw_streaming {
                CapabilityPlan {
                    execution: ExecutionClass::StreamingInspect,
                    forward_class: ForwardClass::Streaming,
                    diagnostic: None,
                }
            } else {
                CapabilityPlan {
                    execution: ExecutionClass::Buffered,
                    forward_class: ForwardClass::Buffered,
                    diagnostic: None,
                }
            }
        },
    }
}

/// Any plugin that needs the full body forces the buffered path: streaming
/// plugins never get to relay a body that a mutating plugin must see whole.
pub proof fn law_full_body_forces_buffering(mode: BodyMode, hints: Seq<BodyHint>)
    requires
        has_full_body(hints),
    ensures
        planned_execution(mode, hints) == ExecutionClass::Buffered,
        forward_class_of(planned_execution(mode, hints)) == ForwardClass::Buffered,
{
}

/// The plan depends on the hints only through which kinds of hint occur, so
/// the order and multiplicity of plugin declarations never change the path.
pub proof fn law_plan_depends_only_on_hint_kinds(
    mode: BodyMode,
    a: Seq<BodyHint>,
    b: Seq<BodyHint>,
)
    requires
        has_full_body(a) == has_full_body(b),
        has_streaming(a) == has_streaming(b),
    ensures
        planned_execution(mode, a) == planned_execution(mode, b),
{
}

/// A raw tunnel is never relayed as an inspectable byte stream: without
/// full-body plugins it carries metadata only, and with them it is buffered.
pub proof fn law_tunnel_never_streams(hints: Seq<BodyHint>)
    ensures
        planned_execution(BodyMode::Tunnel, hints) != ExecutionClass::StreamingInspect,
        planned_execution(BodyMode::Tunnel, hints) != ExecutionClass::FrameInspect,
{
}

/// Decoding the concatenation of two encoded frames gives back each frame's
/// flag and message length, in order.
pub proof fn law_grpc_frames_round_trip(c1: bool, p1: Seq<u8>, c2: bool, p2: Seq<u8>)
    requires
        p1.len() < 0x1_0000_0000,
        p2.len() < 0x1_0000_0000,
    ensures
        grpc_frame_lengths(grpc_frame(c1, p1) + grpc_frame(c2, p2)) == seq![
            (c1, p1.len() as u32),
            (c2, p2.len() as u32),
        ],
{
    lemma_grpc_frame_then_rest(c2, p2, Seq::empty());
    assert(grpc_frame(c2, p2) + Seq::<u8>::empty() =~= grpc_frame(c2, p2));
    assert(grpc_frame_lengths(Seq::<u8>::empty()) =~= Seq::<(bool, u32)>::empty());
    lemma_grpc_frame_then_rest(c1, p1, grpc_frame(c2, p2));
    assert(seq![(c1, p1.len() as u32)] + (seq![(c2, p2.len() as u32)] + Seq::<
        (bool, u32),
    >::empty()) =~= seq![(c1, p1.len() as u32), (c2, p2.len() as u32)]);
}

/// A frame whose declared length runs past the end of the body is dropped,
/// together with everything after it.
pub proof fn law_grpc_truncated_tail_ignored(compressed: bool, payload: Seq<u8>, tail: Seq<u8>)
    requires
        payload.len() < 0x1_0000_0000,
        tail.len() >= 5,
        5 + be32_value(tail[1], tail[2], tail[3], tail[4]) > tail.len(),
    ensures
        grpc_frame_lengths(grpc_frame(compressed, payload) + tail) == seq![
            (compressed, payload.len() as u32),
        ],
{
    lemma_grpc_frame_then_rest(compressed, payload, tail);
    assert(grpc_frame_lengths(tail) =~= Seq::<(bool, u32)>::empty());
    assert(seq![(compressed, payload.len() as u32)] + Seq::<(bool, u32)>::empty() =~= seq![
        (compressed, payload.len() as u32),
    ]);
}

} // verus!

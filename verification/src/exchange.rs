//! The recorded request/response exchange ("session") that listing, diffing
//! and the assistant work on.
use vstd::prelude::*;
use crate::forward::ProtocolContext;

verus! {

/// How an exchange entered the session store.
#[derive(Debug, Clone, Copy, PartialEq, Eq, Structural)]
pub enum SessionSource {
    Proxy,
    AdminForward,
    Playback,
    Imported,
}

#[derive(Debug, Clone)]
pub struct RequestContext {
    pub method: String,
    pub uri: String,
    /// Header `(name, value)` pairs; names are distinct.
    pub headers: Vec<(String, String)>,
    pub body: String,
    pub host: String,
}

#[derive(Debug, Clone)]
pub struct ResponseContext {
    pub request_uri: String,
    pub status: u16,
    /// Header `(name, value)` pairs; names are distinct.
    pub headers: Vec<(String, String)>,
    pub body: String,
    pub ttfb_ms: u64,
    pub body_ms: u64,
}

#[derive(Debug, Clone)]
pub struct InspectionMetrics {
    pub latency_ms: u64,
    pub ttfb_ms: u64,
    pub request_size_bytes: usize,
    pub response_size_bytes: usize,
    pub status_code: u16,
    pub protocol: Option<String>,
}

/// What the gRPC inspector captured: the `grpc-status` trailer, if seen.
#[derive(Debug, Clone)]
pub struct GrpcInspection {
    pub grpc_status: Option<String>,
}

/// Which protocol inspectors recognised the exchange.
#[derive(Debug, Clone)]
pub struct InspectorData {
    pub graphql: bool,
    pub grpc: Option<GrpcInspection>,
}

/// One captured WebSocket frame.
#[derive(Debug, Clone)]
pub struct WsFrame {
    pub opcode: String,
    pub payload_len: usize,
    pub payload_text: Option<String>,
    pub payload_hex: Option<String>,
}

/// A recorded exchange. `timestamp` and `updated_at` are milliseconds since
/// the Unix epoch.
#[derive(Debug, Clone)]
pub struct Exchange {
    pub id: String,
    pub timestamp: i64,
    pub updated_at: Option<i64>,
    pub request: RequestContext,
    pub response: Option<ResponseContext>,
    pub metrics: Option<InspectionMetrics>,
    pub ws_frames: Vec<WsFrame>,
    pub note: Option<String>,
    pub tags: Vec<String>,
    pub inspector_data: Option<InspectorData>,
    pub source: SessionSource,
    pub protocol_context: Option<ProtocolContext>,
    pub downstream_protocol: Option<String>,
    /// The downstream connection the exchange travelled on, when captured.
    pub connection_id: Option<String>,
    /// The stream of that connection (HTTP/2 and HTTP/3), when captured.
    pub stream_id: Option<u64>,
}

/// The view of a header list.
pub open spec fn headers_view(h: Seq<(String, String)>) -> Seq<(Seq<char>, Seq<char>)> {
    h.map_values(|e: (String, String)| (e.0@, e.1@))
}

} // verus!

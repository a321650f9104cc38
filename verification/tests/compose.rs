use oproxy::compose::{
    forward_response_body, plan_forward, ForwardReq, plan_websocket_forward, ws_url_to_http,
    ForwardWsReq,
    forward_frame_response, record_ws_message, websocket_message, ForwardWsFrameReq, WsMessage,
    default_ws_opcode, grpc_message, is_ws_forward_header, protocol_context_for_kind,
    protocol_from_label, protocol_response, ForwardFrameCollector, ForwardKind, WsDirection,
    WS_FORWARD_MAX_SERVER_FRAMES,
};
use oproxy::forward::{ApplicationProtocol, BodyMode, WireProtocol};

#[test]
fn grpc_message_carries_direction_in_event_payload() {
    let message = grpc_message("response", true, 42);
    assert_eq!(message.direction, "response");
    assert!(message.compressed);
    assert_eq!(message.length, 42);
    assert!(message.fields.is_empty());
}

#[test]
fn websocket_forward_header_filter_blocks_handshake_headers() {
    assert!(!is_ws_forward_header("Connection"));
    assert!(!is_ws_forward_header("sec-websocket-key"));
    assert!(!is_ws_forward_header("content-length"));
    assert!(is_ws_forward_header("authorization"));
    assert!(is_ws_forward_header("x-trace-id"));
    assert!(!is_ws_forward_header("HOST"));
    assert!(!is_ws_forward_header("Sec-WebSocket-Accept"));
}

#[test]
fn grpc_protocol_response_uses_stream_message_body_mode() {
    let response = protocol_response(protocol_context_for_kind(
        ForwardKind::Grpc,
        "https",
        Some(WireProtocol::Http2),
    ));
    assert_eq!(response.downstream, "HTTP/2");
    assert_eq!(response.upstream.as_deref(), Some("HTTP/2"));
    assert_eq!(response.application, "grpc");
    assert_eq!(response.body_mode, "stream_messages");
}

#[test]
fn http_kinds_use_full_bodies_over_their_wire() {
    let ctx = protocol_context_for_kind(ForwardKind::Http3, "https", None);
    assert_eq!(ctx.downstream, WireProtocol::Http3);
    assert_eq!(ctx.application, ApplicationProtocol::Http);
    assert_eq!(ctx.body_mode, BodyMode::Full);
    assert_eq!(ctx.scheme, "https");
    let response = protocol_response(protocol_context_for_kind(ForwardKind::default(), "http", None));
    assert_eq!(response.downstream, "HTTP/1.1");
    assert_eq!(response.upstream, None);
    assert_eq!(response.body_mode, "full");
}

#[test]
fn upstream_labels_map_to_wire_protocols() {
    assert_eq!(protocol_from_label("HTTP/2"), WireProtocol::Http2);
    assert_eq!(protocol_from_label("HTTP/3"), WireProtocol::Http3);
    assert_eq!(protocol_from_label("HTTP/1.1"), WireProtocol::Http1);
    assert_eq!(protocol_from_label("http/2"), WireProtocol::Http1);
}

#[test]
fn frame_collector_counts_server_frames_to_the_limit() {
    let mut c = ForwardFrameCollector::new();
    assert_eq!(default_ws_opcode(), "text");
    for _ in 0..WS_FORWARD_MAX_SERVER_FRAMES - 1 {
        c.record(WsDirection::ServerToClient);
        c.record(WsDirection::ClientToServer);
    }
    assert!(!c.reached_server_limit());
    c.record(WsDirection::ServerToClient);
    assert!(c.reached_server_limit());
}

#[test]
fn composed_frames_become_messages() {
    let frame = |op: &str, p: &str| ForwardWsFrameReq { opcode: op.to_string(), payload: p.to_string() };
    assert!(matches!(websocket_message(frame("binary", "aGk=")), WsMessage::Binary(b) if b == vec![104, 105]));
    assert!(matches!(websocket_message(frame("binary", "%%")), WsMessage::Binary(b) if b == b"%%".to_vec()));
    assert!(matches!(websocket_message(frame("ping", "p")), WsMessage::Ping(b) if b == b"p".to_vec()));
    assert!(matches!(websocket_message(frame("pong", "")), WsMessage::Pong(b) if b.is_empty()));
    assert!(matches!(websocket_message(frame("close", "bye")), WsMessage::Close(1000, r) if r == "bye"));
    assert!(matches!(websocket_message(frame("text", "hi")), WsMessage::Text(t) if t == "hi"));
    assert!(matches!(websocket_message(frame("other", "hi")), WsMessage::Text(t) if t == "hi"));
}

#[test]
fn recorded_frames_summarise_payloads() {
    let long = "é".repeat(600);
    let f = record_ws_message(WsDirection::ClientToServer, &WsMessage::Text(long)).unwrap();
    assert_eq!(f.opcode, 1);
    assert_eq!(f.opcode_label, "text");
    assert_eq!(f.payload_len, 1200);
    assert_eq!(f.payload_text.as_deref().map(|t| t.chars().count()), Some(512));
    let r = forward_frame_response(&f);
    assert_eq!(r.direction, "client");
    assert_eq!(r.payload, f.payload_text);

    let bin = record_ws_message(WsDirection::ServerToClient, &WsMessage::Binary(vec![0xab; 100])).unwrap();
    assert_eq!(bin.payload_len, 100);
    assert_eq!(bin.payload_hex, Some("ab".repeat(64)));
    let r = forward_frame_response(&bin);
    assert_eq!(r.direction, "server");
    assert_eq!(r.opcode, "binary");
    assert_eq!(r.payload, Some("ab".repeat(64)));

    let empty = record_ws_message(WsDirection::ServerToClient, &WsMessage::Binary(vec![])).unwrap();
    assert_eq!(empty.payload_hex, None);
    let close = record_ws_message(WsDirection::ClientToServer, &WsMessage::Close(1000, "x".into())).unwrap();
    assert_eq!((close.opcode, close.payload_len), (8, 0));
    let pong = record_ws_message(WsDirection::ClientToServer, &WsMessage::Pong(vec![1, 2])).unwrap();
    assert_eq!((pong.opcode, pong.payload_len, pong.opcode_label.as_str()), (10, 2, "pong"));
    assert!(record_ws_message(WsDirection::ClientToServer, &WsMessage::Frame).is_none());
}

fn composed(kind: ForwardKind, method: &str, url: &str, body: Option<&str>) -> ForwardReq {
    ForwardReq {
        kind,
        method: method.to_string(),
        url: url.to_string(),
        headers: vec![],
        body: body.map(str::to_string),
        note: None,
        tags: None,
    }
}

#[test]
fn composed_requests_are_checked_before_sending() {
    let err = plan_forward(&composed(ForwardKind::Http, "GE T", "http://a.test/", None)).unwrap_err();
    assert_eq!(err, "Invalid HTTP method: GE T");
    let err = plan_forward(&composed(ForwardKind::Http, "GET", "not a url", None)).unwrap_err();
    assert!(err.starts_with("Invalid URL: "));
    let err = plan_forward(&composed(ForwardKind::Http, "GET", "ftp://a.test/", None)).unwrap_err();
    assert_eq!(err, "Unsupported URL scheme: ftp");
}

#[test]
fn composed_http_request_plan() {
    let plan = plan_forward(&composed(ForwardKind::Http, "PATCH", "https://api.test:8443/x", Some("hi"))).unwrap();
    assert_eq!(plan.method, "PATCH");
    assert_eq!(plan.scheme, "https");
    assert_eq!(plan.host, "api.test:8443");
    assert_eq!(plan.body, b"hi".to_vec());
    assert!(plan.send_body);
    assert!(!plan.add_grpc_content_type);
    assert_eq!(plan.grpc_request_length, None);
    let empty = plan_forward(&composed(ForwardKind::Http2, "GET", "http://api.test/", None)).unwrap();
    assert!(!empty.send_body);
    assert_eq!(empty.host, "api.test");
}

#[test]
fn composed_grpc_request_plan_frames_the_body() {
    let mut req = composed(ForwardKind::Grpc, "GET", "http://svc.test/pkg.Svc/Call", Some("abc"));
    let plan = plan_forward(&req).unwrap();
    assert_eq!(plan.method, "POST");
    assert_eq!(plan.body, vec![0, 0, 0, 0, 3, b'a', b'b', b'c']);
    assert!(plan.send_body);
    assert!(plan.add_grpc_content_type);
    assert_eq!(plan.grpc_request_length, Some(3));
    req.headers.push(("Content-Type".to_string(), "application/grpc".to_string()));
    assert!(!plan_forward(&req).unwrap().add_grpc_content_type);
}

#[test]
fn forward_response_bodies_are_text_or_base64() {
    assert_eq!(forward_response_body("image/png", &[1, 2, 3]), ("AQID".to_string(), true));
    assert_eq!(forward_response_body("text/plain; charset=utf-8", "héllo".as_bytes()), ("héllo".to_string(), false));
    assert_eq!(forward_response_body("text/plain", &[0x66, 0xff]), ("f\u{fffd}".to_string(), false));
}

#[test]
fn websocket_forward_records_success_and_failure() {
    let (res, metrics) = oproxy::compose::record_websocket_success("ws://echo.test/socket", 17);
    assert_eq!(res.status, 101);
    assert_eq!(res.headers, vec![("upgrade".to_string(), "websocket".to_string())]);
    assert_eq!(res.request_uri, "ws://echo.test/socket");
    assert_eq!(metrics.latency_ms, 17);
    assert_eq!(metrics.protocol.as_deref(), Some("WebSocket"));
    let (res, metrics) = oproxy::compose::record_ws_failure("ws://echo.test/socket", 3, "refusé");
    assert_eq!(res.status, 502);
    assert_eq!(res.body, "refusé");
    assert_eq!(metrics.status_code, 502);
    assert_eq!(metrics.response_size_bytes, 7);
}

#[test]
fn websocket_policy_url_translates_ws_schemes() {
    assert_eq!(
        ws_url_to_http("ws://example.test/socket").unwrap().as_str(),
        "http://example.test/socket"
    );
    assert_eq!(
        ws_url_to_http("wss://example.test/socket").unwrap().as_str(),
        "https://example.test/socket"
    );
}

#[test]
fn ws_url_to_http_refuses_other_schemes() {
    assert_eq!(
        ws_url_to_http("http://example.test/socket"),
        Err("Unsupported WebSocket URL scheme: http".to_string())
    );
}

fn ws_request(url: &str, headers: &[(&str, &str)]) -> ForwardWsReq {
    ForwardWsReq {
        url: url.to_string(),
        headers: headers.iter().map(|(k, v)| (k.to_string(), v.to_string())).collect(),
        frames: vec![],
        note: None,
        tags: None,
    }
}

#[test]
fn websocket_forward_plan_filters_handshake_headers() {
    let plan = plan_websocket_forward(&ws_request(
        "wss://echo.test:8443/chat?x=1",
        &[
            ("Authorization", "Bearer t"),
            ("Sec-WebSocket-Key", "abc"),
            ("upgrade", "h2c"),
            ("bad name", "v"),
            ("x-trace-id", "1"),
        ],
    ))
    .unwrap();
    assert_eq!(plan.scheme, "wss");
    assert_eq!(plan.policy_url, "https://echo.test:8443/chat?x=1");
    assert_eq!(plan.host, "echo.test:8443");
    assert_eq!(
        plan.handshake_headers,
        vec![
            ("Authorization".to_string(), "Bearer t".to_string()),
            ("x-trace-id".to_string(), "1".to_string()),
        ]
    );
    assert_eq!(plan.recorded_headers.len(), 5);
    assert_eq!(
        plan.recorded_headers.last().unwrap(),
        &("upgrade".to_string(), "websocket".to_string())
    );
    assert!(!plan.recorded_headers.contains(&("upgrade".to_string(), "h2c".to_string())));
}

#[test]
fn websocket_forward_plan_refuses_bad_urls() {
    let err = plan_websocket_forward(&ws_request("https://echo.test/", &[])).unwrap_err();
    assert_eq!(err, "Unsupported WebSocket URL scheme: https");
    let err = plan_websocket_forward(&ws_request("not a url", &[])).unwrap_err();
    assert!(err.starts_with("Invalid URL: "), "{err}");
    let plan = plan_websocket_forward(&ws_request("ws://echo.test/", &[])).unwrap();
    assert_eq!(plan.host, "echo.test");
    assert_eq!(plan.policy_url, "http://echo.test/");
}

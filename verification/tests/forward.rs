use oproxy::forward::{
    decode_grpc_message_lengths, encode_grpc_frame, plan_execution, ApplicationProtocol,
    BodyHint, BodyMode, ExecutionClass, ForwardClass, Granularity, HttpVersion, ProtocolContext,
    WireProtocol,
};

#[test]
fn protocol_context_maps_http_versions_to_wire_protocol() {
    let ctx = ProtocolContext::http(
        HttpVersion::Http2,
        "https".to_string(),
        ApplicationProtocol::Grpc,
        BodyMode::StreamMessages,
    )
    .with_identity(Some("conn-1".to_string()), Some(7));

    assert_eq!(ctx.downstream, WireProtocol::Http2);
    assert_eq!(ctx.application, ApplicationProtocol::Grpc);
    assert_eq!(ctx.body_mode, BodyMode::StreamMessages);
    assert_eq!(ctx.connection_id.as_deref(), Some("conn-1"));
    assert_eq!(ctx.stream_id, Some(7));
}

#[test]
fn planner_keeps_stream_messages_streaming_when_plugins_can_inspect() {
    let ctx = ProtocolContext {
        downstream: WireProtocol::Http2,
        application: ApplicationProtocol::Grpc,
        body_mode: BodyMode::StreamMessages,
        scheme: "https".to_string(),
        ..Default::default()
    };

    let plan = plan_execution(
        &ctx,
        &[BodyHint::StreamingInspect {
            granularity: Granularity::Messages,
        }],
    );

    assert_eq!(plan.execution, ExecutionClass::StreamingInspect);
    assert_eq!(plan.forward_class, ForwardClass::Streaming);
    assert!(plan.diagnostic.is_none());
}

#[test]
fn planner_marks_raw_tunnel_as_metadata_only_without_full_body_plugins() {
    let ctx = ProtocolContext {
        downstream: WireProtocol::Socks5,
        body_mode: BodyMode::Tunnel,
        scheme: "socks5".to_string(),
        ..Default::default()
    };

    let plan = plan_execution(
        &ctx,
        &[BodyHint::StreamingInspect {
            granularity: Granularity::Bytes,
        }],
    );

    assert_eq!(plan.execution, ExecutionClass::TunnelMetadata);
    assert_eq!(plan.forward_class, ForwardClass::Buffered);
    assert!(plan.diagnostic.is_none());
}

#[test]
fn planner_explains_full_body_plugin_on_tunnel() {
    let ctx = ProtocolContext {
        downstream: WireProtocol::Socks5,
        body_mode: BodyMode::Tunnel,
        scheme: "socks5".to_string(),
        ..Default::default()
    };

    let plan = plan_execution(&ctx, &[BodyHint::FullBody]);

    assert_eq!(plan.execution, ExecutionClass::Buffered);
    assert_eq!(plan.forward_class, ForwardClass::Buffered);
    assert!(plan
        .diagnostic
        .as_deref()
        .unwrap_or_default()
        .contains("raw tunnel"));
}

#[test]
fn default_body_hint_is_full_body() {
    assert_eq!(BodyHint::default(), BodyHint::FullBody);
}

#[test]
fn grpc_frame_round_trips_message_lengths() {
    let mut body = encode_grpc_frame(false, b"hello");
    body.extend_from_slice(&encode_grpc_frame(true, b"world!"));

    assert_eq!(decode_grpc_message_lengths(&body), vec![(false, 5), (true, 6)]);
}

#[test]
fn grpc_frame_decoder_ignores_truncated_tail() {
    let mut body = encode_grpc_frame(false, b"ok");
    body.extend_from_slice(&[0, 0, 0, 0, 8, b'p']);

    assert_eq!(decode_grpc_message_lengths(&body), vec![(false, 2)]);
}

#[test]
fn grpc_frame_layout_is_flag_length_payload() {
    assert_eq!(
        encode_grpc_frame(true, b"abc"),
        vec![1, 0, 0, 0, 3, b'a', b'b', b'c']
    );
    assert_eq!(encode_grpc_frame(false, b""), vec![0, 0, 0, 0, 0]);
}

#[test]
fn planner_full_body_hint_wins_over_streaming_hints() {
    let ctx = ProtocolContext {
        body_mode: BodyMode::StreamBytes,
        ..Default::default()
    };
    let plan = plan_execution(
        &ctx,
        &[
            BodyHint::StreamingInspect {
                granularity: Granularity::Bytes,
            },
            BodyHint::FullBody,
        ],
    );
    assert_eq!(plan.execution, ExecutionClass::Buffered);
    assert_eq!(plan.forward_class, ForwardClass::Buffered);
    assert!(plan.diagnostic.is_none());
}

#[test]
fn planner_frames_without_hints_inspect_frames() {
    let ctx = ProtocolContext::websocket("ws".to_string());
    let plan = plan_execution(&ctx, &[]);
    assert_eq!(plan.execution, ExecutionClass::FrameInspect);
    assert_eq!(plan.forward_class, ForwardClass::Streaming);

    let plan = plan_execution(&ctx, &[BodyHint::FullBody]);
    assert!(plan
        .diagnostic
        .as_deref()
        .unwrap_or_default()
        .contains("frame-aware"));
}

#[test]
fn labels_and_match_values() {
    assert_eq!(WireProtocol::Http1.label(), "HTTP/1.1");
    assert_eq!(WireProtocol::Socks5.match_value(), "socks5");
    assert_eq!(ApplicationProtocol::Graphql.match_value(), "graphql");
    assert_eq!(BodyMode::StreamMessages.match_value(), "stream_messages");
    assert_eq!(WireProtocol::from_http_version(HttpVersion::Http10), WireProtocol::Http1);
    let t = ProtocolContext::socks5_tunnel();
    assert_eq!(t.scheme, "socks5");
    assert_eq!(t.application, ApplicationProtocol::Binary);
}

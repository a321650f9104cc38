use oproxy::exchange::{
    Exchange, GrpcInspection, InspectionMetrics, InspectorData, RequestContext, ResponseContext,
    SessionSource,
};
use oproxy::forward::ProtocolContext;
use oproxy::listing::{bool_true, parse_sort_dir, split_csv, SessionSortDirection};
use oproxy::traffic::{
    aggregate_connections, aggregate_protocol_metrics, application_protocol_label,
    downstream_protocol_label, peak_concurrency, source_label,
};

fn ex(id: &str, conn: Option<&str>, stream: Option<u64>, host: &str, path: &str) -> Exchange {
    Exchange {
        id: id.to_string(),
        timestamp: 1_700_000_000_000,
        updated_at: None,
        request: RequestContext {
            method: "GET".to_string(),
            uri: path.to_string(),
            headers: vec![],
            body: String::new(),
            host: host.to_string(),
        },
        response: None,
        metrics: None,
        ws_frames: vec![],
        note: None,
        tags: vec![],
        inspector_data: None,
        source: SessionSource::Proxy,
        protocol_context: None,
        downstream_protocol: Some("HTTP/2".to_string()),
        connection_id: conn.map(str::to_string),
        stream_id: stream,
    }
}

fn metrics(status: u16, latency: u64, proto: Option<&str>, resp: usize) -> InspectionMetrics {
    InspectionMetrics {
        latency_ms: latency,
        ttfb_ms: 0,
        request_size_bytes: 0,
        response_size_bytes: resp,
        status_code: status,
        protocol: proto.map(str::to_string),
    }
}

#[test]
fn peak_concurrency_serial_intervals_is_one() {
    assert_eq!(peak_concurrency(&[(0, 10), (10, 20), (20, 30)]), 1);
}

#[test]
fn peak_concurrency_counts_overlap() {
    assert_eq!(peak_concurrency(&[(0, 10), (5, 15), (6, 8)]), 3);
}

#[test]
fn peak_concurrency_empty_is_zero() {
    assert_eq!(peak_concurrency(&[]), 0);
}

#[test]
fn peak_concurrency_ignores_empty_and_reversed_intervals() {
    assert_eq!(peak_concurrency(&[(5, 5), (7, 3)]), 0);
    assert_eq!(peak_concurrency(&[(0, 10), (3, 3), (4, 6)]), 2);
}

#[test]
fn protocol_metrics_counts_mix_status_and_latency() {
    let mk = |id: &str, proto: &str, status: u16, latency: u64| {
        let mut e = ex(id, Some("c1"), Some(0), "api.test", "/p");
        e.metrics = Some(metrics(status, latency, Some(proto), 100));
        e
    };
    let m = aggregate_protocol_metrics(vec![
        mk("a", "HTTP/2", 200, 10),
        mk("b", "HTTP/2", 404, 20),
        mk("c", "HTTP/1.1", 200, 30),
    ]);
    assert_eq!(m.total_exchanges, 3);
    assert_eq!(m.connections, 1);
    assert_eq!(m.protocol_mix[0].label, "HTTP/2");
    assert_eq!(m.protocol_mix[0].count, 2);
    let two_xx = m.status_classes.iter().find(|c| c.label == "2xx").unwrap();
    assert_eq!(two_xx.count, 2);
    let http_app = m.application_mix.iter().find(|c| c.label == "HTTP").unwrap();
    assert_eq!(http_app.count, 3);
    let proxy_source = m.source_mix.iter().find(|c| c.label == "Proxy").unwrap();
    assert_eq!(proxy_source.count, 3);
    assert_eq!(m.total_bytes, 300);
    assert_eq!(m.latency_max_ms, 30);
    assert_eq!(m.latency_p50_ms, 20);
    assert_eq!(m.latency_p95_ms, 30);
}

#[test]
fn protocol_metrics_keeps_source_out_of_downstream_protocol() {
    let mut e = ex("admin", Some("c1"), Some(0), "api.test", "/p");
    e.source = SessionSource::AdminForward;
    e.downstream_protocol = Some("admin".to_string());
    e.metrics = Some(metrics(200, 0, Some("HTTP/2"), 0));
    let m = aggregate_protocol_metrics(vec![e]);
    assert!(m.downstream_mix.iter().all(|c| c.label != "admin"));
    assert_eq!(m.downstream_mix[0].label, "HTTP/2");
    assert_eq!(m.source_mix[0].label, "Compose");
}

#[test]
fn protocol_metrics_counts_websocket_exchanges() {
    let mut ws = ex("ws", Some("c1"), Some(0), "ws.test", "/socket");
    ws.request.method = "WS".to_string();
    let m = aggregate_protocol_metrics(vec![ws]);
    assert_eq!(m.websockets, 1);
}

#[test]
fn protocol_metrics_orders_mixes_and_counts_grpc() {
    let mut g = ex("g", Some("c2"), None, "h", "/svc");
    g.inspector_data = Some(InspectorData {
        graphql: false,
        grpc: Some(GrpcInspection { grpc_status: Some("0".to_string()) }),
    });
    g.response = Some(ResponseContext {
        request_uri: "/svc".to_string(),
        status: 200,
        headers: vec![],
        body: String::new(),
        ttfb_ms: 0,
        body_ms: 0,
    });
    let a = ex("a", Some("c1"), None, "h", "/");
    let b = ex("b", None, None, "h", "/");
    let m = aggregate_protocol_metrics(vec![g, a, b]);
    assert_eq!(m.grpc_calls, 1);
    assert_eq!(m.connections, 2);
    assert_eq!(m.grpc_status.len(), 1);
    assert_eq!(m.grpc_status[0].label, "0");
    let labels: Vec<(&str, usize)> =
        m.status_classes.iter().map(|c| (c.label.as_str(), c.count)).collect();
    assert_eq!(labels, vec![("pending", 2), ("2xx", 1)]);
    let apps: Vec<(&str, usize)> =
        m.application_mix.iter().map(|c| (c.label.as_str(), c.count)).collect();
    assert_eq!(apps, vec![("HTTP", 2), ("gRPC", 1)]);
    assert_eq!(m.latency_p50_ms, 0);
    assert_eq!(m.protocol_mix.len(), 0);
}

#[test]
fn aggregate_groups_by_connection_and_omits_unidentified() {
    let connections = aggregate_connections(vec![
        ex("a", Some("c1"), Some(0), "api.test", "/a"),
        ex("b", Some("c1"), Some(1), "api.test", "/b"),
        ex("c", Some("c2"), Some(0), "cdn.test", "/c"),
        ex("d", None, None, "x.test", "/d"),
    ]);
    assert_eq!(connections.len(), 2, "two identified connections");
    let c1 = connections.iter().find(|c| c.connection_id == "c1").expect("c1 present");
    assert_eq!(c1.exchange_count, 2);
    assert_eq!(c1.stream_count, 2);
    assert_eq!(c1.streams.len(), 2);
    assert_eq!(c1.downstream_protocol.as_deref(), Some("HTTP/2"));
    assert_eq!(c1.streams[0].stream_id, Some(0));
    assert_eq!(c1.streams[1].stream_id, Some(1));
}

#[test]
fn aggregate_dedups_hosts_and_counts_distinct_streams() {
    let connections = aggregate_connections(vec![
        ex("a", Some("c1"), Some(0), "api.test", "/a"),
        ex("b", Some("c1"), Some(0), "api.test", "/b"),
    ]);
    let c1 = &connections[0];
    assert_eq!(c1.exchange_count, 2);
    assert_eq!(c1.stream_count, 1, "distinct stream ids");
    assert_eq!(c1.hosts, vec!["api.test".to_string()]);
}

#[test]
fn connections_are_most_recent_first_with_timeline_offsets() {
    let mut a1 = ex("a1", Some("old"), Some(3), "h", "/x?q=1");
    a1.timestamp = 1_000;
    a1.metrics = Some(metrics(201, 50, None, 0));
    let mut a2 = ex("a2", Some("old"), Some(1), "", "/y");
    a2.timestamp = 1_020;
    a2.metrics = Some(metrics(200, 100, None, 0));
    let mut b1 = ex("b1", Some("new"), None, "h2", "/z");
    b1.timestamp = 5_000;
    b1.updated_at = Some(6_000);
    let connections = aggregate_connections(vec![a1, a2, b1]);
    assert_eq!(connections[0].connection_id, "new");
    assert_eq!(connections[0].span_ms, 1_000);
    let old = &connections[1];
    assert_eq!(old.first_seen, 1_000);
    assert_eq!(old.last_seen, 1_020);
    assert_eq!(old.streams[0].id, "a2");
    assert_eq!(old.streams[0].start_offset_ms, 20);
    assert_eq!(old.streams[1].path, "/x");
    assert_eq!(old.streams[1].status, 201);
    assert_eq!(old.span_ms, 120);
    assert_eq!(old.max_concurrency, 2);
    assert_eq!(old.hosts, vec!["h".to_string()]);
}

#[test]
fn labels_of_exchanges() {
    let mut e = ex("a", None, None, "h", "/");
    assert_eq!(downstream_protocol_label(&e), "HTTP/2");
    e.downstream_protocol = None;
    assert_eq!(downstream_protocol_label(&e), "HTTP/1.1");
    e.protocol_context = Some(ProtocolContext::websocket("wss".to_string()));
    assert_eq!(downstream_protocol_label(&e), "WebSocket");
    assert_eq!(application_protocol_label(&e), "WebSocket");
    e.protocol_context = None;
    e.downstream_protocol = Some("SOCKS5".to_string());
    assert_eq!(application_protocol_label(&e), "Tunnel");
    e.request.method = "ws".to_string();
    assert_eq!(application_protocol_label(&e), "WebSocket");
    assert_eq!(source_label(SessionSource::Playback), "Replay");
    assert_eq!(source_label(SessionSource::Imported), "Imported");
}

#[test]
fn query_parameter_helpers() {
    assert_eq!(split_csv(" GET, ,POST ,"), vec!["GET".to_string(), "POST".to_string()]);
    assert!(split_csv("").is_empty());
    assert_eq!(parse_sort_dir(Some("asc")), SessionSortDirection::Asc);
    assert_eq!(parse_sort_dir(Some("ASC")), SessionSortDirection::Desc);
    assert_eq!(parse_sort_dir(None), SessionSortDirection::Desc);
    assert!(bool_true());
}

use oproxy::exchange::{
    Exchange, InspectionMetrics, RequestContext, ResponseContext, SessionSource,
};
use oproxy::metrics::{build_metrics_payload, timing_phases, EndpointMetrics, ENDPOINT_TIMING_LIMIT};

fn exchange(id: &str, source: SessionSource, status: Option<u16>) -> Exchange {
    let response = status.map(|code| ResponseContext {
        request_uri: "/test".to_string(),
        status: code,
        headers: vec![],
        body: String::new(),
        ttfb_ms: 4,
        body_ms: 2,
    });
    let metrics = status.map(|code| InspectionMetrics {
        latency_ms: 12,
        ttfb_ms: 4,
        request_size_bytes: 3,
        response_size_bytes: 5,
        status_code: code,
        protocol: None,
    });
    Exchange {
        id: id.to_string(),
        timestamp: 1_700_000_000_000,
        updated_at: None,
        request: RequestContext {
            method: "GET".to_string(),
            uri: "/test".to_string(),
            headers: vec![],
            body: String::new(),
            host: "example.com".to_string(),
        },
        response,
        metrics,
        ws_frames: vec![],
        note: None,
        tags: vec![],
        inspector_data: None,
        source,
        protocol_context: None,
        downstream_protocol: None,
        connection_id: None,
        stream_id: None,
    }
}

#[test]
fn metrics_payload_splits_session_sources_and_active_requests() {
    let sessions = vec![
        exchange("proxy-ok", SessionSource::Proxy, Some(200)),
        exchange("proxy-pending", SessionSource::Proxy, None),
        exchange("admin", SessionSource::AdminForward, Some(502)),
        exchange("imported", SessionSource::Imported, Some(201)),
    ];

    let metrics = build_metrics_payload(&sessions);

    assert_eq!(metrics.captured_session_count, 4);
    assert_eq!(metrics.active_requests, 1);
    assert_eq!(metrics.completed_requests, 3);
    assert_eq!(metrics.proxied_requests, 2);
    assert_eq!(metrics.admin_forward_requests, 1);
    assert_eq!(metrics.imported_sessions, 1);
    assert_eq!(metrics.inspected_requests, 3);
    assert_eq!(metrics.error_count, 1);
    assert_eq!(metrics.playback_requests, 0);
}

#[test]
fn metrics_payload_sums_and_averages_inspected_sessions() {
    let mut sessions = vec![
        exchange("a", SessionSource::Proxy, Some(200)),
        exchange("b", SessionSource::Playback, Some(404)),
        exchange("c", SessionSource::Proxy, None),
    ];
    if let Some(m) = sessions[1].metrics.as_mut() {
        m.latency_ms = 31;
        m.request_size_bytes = 10;
        m.response_size_bytes = 20;
    }
    let metrics = build_metrics_payload(&sessions);
    assert_eq!(metrics.latency_samples, vec![12, 31]);
    assert_eq!(metrics.total_request_bytes, 13);
    assert_eq!(metrics.total_response_bytes, 25);
    assert_eq!(metrics.avg_latency_ms, 21);
    assert_eq!(metrics.avg_request_size_bytes, 6);
    assert_eq!(metrics.avg_response_size_bytes, 12);
    assert_eq!(metrics.playback_requests, 1);
    assert_eq!(metrics.error_count, 1);
}

#[test]
fn metrics_payload_of_no_sessions_is_all_zero() {
    let metrics = build_metrics_payload(&Vec::new());
    assert_eq!(metrics.captured_session_count, 0);
    assert_eq!(metrics.avg_latency_ms, 0);
    assert!(metrics.latency_samples.is_empty());
}

#[test]
fn endpoint_window_keeps_the_latest_samples() {
    let mut m = EndpointMetrics::new();
    for i in 0..(ENDPOINT_TIMING_LIMIT + 3) {
        m.record("/admin/sessions", i as u128, i, i as i64);
    }
    assert_eq!(m.samples.len(), ENDPOINT_TIMING_LIMIT);
    assert_eq!(m.samples[0].duration_ms, 3);
    assert_eq!(m.samples[ENDPOINT_TIMING_LIMIT - 1].duration_ms, (ENDPOINT_TIMING_LIMIT + 2) as u64);
    m.record("/admin/x", u128::MAX, 0, 0);
    assert_eq!(m.samples[ENDPOINT_TIMING_LIMIT - 1].duration_ms, u64::MAX);
}

#[test]
fn endpoint_payload_summarises_per_endpoint() {
    let mut m = EndpointMetrics::new();
    m.record("/b", 10, 1, 100);
    m.record("/a", 4, 2, 101);
    m.record("/b", 30, 3, 102);
    m.record("/b", 5, 4, 103);
    let p = m.payload();
    assert_eq!(p.sample_limit, 64);
    assert_eq!(p.summaries.len(), 2);
    assert_eq!(p.summaries[0].endpoint, "/a");
    assert_eq!(p.summaries[0].samples, 1);
    assert_eq!(p.summaries[0].avg_ms, 4);
    assert_eq!(p.summaries[1].endpoint, "/b");
    assert_eq!(p.summaries[1].samples, 3);
    assert_eq!(p.summaries[1].last_ms, 5);
    assert_eq!(p.summaries[1].avg_ms, 15);
    assert_eq!(p.summaries[1].max_ms, 30);
    assert_eq!(p.summaries[1].last_session_count, 4);
    assert_eq!(p.recent.len(), 4);
    assert_eq!(p.recent[0].timestamp_ms, 103);
    assert_eq!(p.recent[3].timestamp_ms, 100);
}

#[test]
fn endpoint_payload_lists_twelve_recent_samples() {
    let mut m = EndpointMetrics::new();
    for i in 0..20 {
        m.record("/admin/sessions", 1, 0, i);
    }
    let p = m.payload();
    assert_eq!(p.recent.len(), 12);
    assert_eq!(p.recent[0].timestamp_ms, 19);
    assert_eq!(p.recent[11].timestamp_ms, 8);
}

fn phases(v: &[oproxy::metrics::TimingPhase]) -> Vec<(String, u64, u64)> {
    v.iter().map(|p| (p.phase.clone(), p.start, p.duration)).collect()
}

#[test]
fn timing_waterfall_orders_connection_wait_and_body() {
    let p = timing_phases(Some(5), Some(10), Some(20), 50, 7);
    assert_eq!(
        phases(&p),
        vec![
            ("dns".to_string(), 0, 5),
            ("tcp".to_string(), 5, 10),
            ("tls".to_string(), 15, 20),
            ("wait".to_string(), 35, 15),
            ("body".to_string(), 50, 7),
        ]
    );
}

#[test]
fn timing_waterfall_without_connection_phases_is_wait_only() {
    let p = timing_phases(None, None, None, 30, 0);
    assert_eq!(phases(&p), vec![("wait".to_string(), 0, 30)]);
}

#[test]
fn timing_waterfall_skips_wait_covered_by_connection() {
    let p = timing_phases(Some(40), None, None, 30, 3);
    assert_eq!(phases(&p), vec![("dns".to_string(), 0, 40), ("body".to_string(), 40, 3)]);
}

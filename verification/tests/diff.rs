use oproxy::diff::diff_exchanges;
use oproxy::exchange::{
    Exchange, InspectionMetrics, RequestContext, ResponseContext, SessionSource,
};

fn make_exchange(id: &str, method: &str, uri: &str, body: &str, status: u16, resp_body: &str) -> Exchange {
    let headers = vec![("content-type".to_string(), "application/json".to_string())];
    let resp_headers = vec![("content-type".to_string(), "application/json".to_string())];
    Exchange {
        id: id.to_string(),
        timestamp: 0,
        updated_at: None,
        request: RequestContext {
            method: method.to_string(),
            uri: uri.to_string(),
            headers,
            body: body.to_string(),
            host: "example.com".to_string(),
        },
        response: Some(ResponseContext {
            request_uri: uri.to_string(),
            status,
            headers: resp_headers,
            body: resp_body.to_string(),
            ttfb_ms: 10,
            body_ms: 5,
        }),
        metrics: Some(InspectionMetrics {
            latency_ms: 100,
            ttfb_ms: 50,
            request_size_bytes: body.len(),
            response_size_bytes: resp_body.len(),
            status_code: status,
            protocol: None,
        }),
        ws_frames: vec![],
        note: None,
        tags: vec![],
        inspector_data: None,
        connection_id: None,
        stream_id: None,
        source: SessionSource::Proxy,
        protocol_context: None,
        downstream_protocol: None,
    }
}

fn set_header(h: &mut Vec<(String, String)>, k: &str, v: &str) {
    if let Some(e) = h.iter_mut().find(|(name, _)| name == k) {
        e.1 = v.to_string();
    } else {
        h.push((k.to_string(), v.to_string()));
    }
}

#[test]
fn identical_sessions_produce_empty_diff() {
    let a = make_exchange("a", "GET", "/api/v1", "", 200, "ok");
    let b = make_exchange("b", "GET", "/api/v1", "", 200, "ok");
    let diff = diff_exchanges(&a, &b);
    assert!(!diff.request_diff.method_changed);
    assert!(diff.request_diff.uri_diff.is_none());
    assert!(diff.request_diff.body_diff.is_none());
    assert!(diff.request_diff.headers_added.is_empty());
    assert!(diff.request_diff.headers_removed.is_empty());
    assert!(diff.request_diff.headers_changed.is_empty());
    let rd = diff.response_diff.unwrap();
    assert!(rd.status_changed.is_none());
    assert!(rd.body_diff.is_none());
    assert_eq!(diff.timing_delta.latency_delta_ms, 0);
}

#[test]
fn method_change_detected() {
    let a = make_exchange("a", "GET", "/api", "", 200, "");
    let b = make_exchange("b", "POST", "/api", "", 200, "");
    let diff = diff_exchanges(&a, &b);
    assert!(diff.request_diff.method_changed);
}

#[test]
fn status_change_detected() {
    let a = make_exchange("a", "GET", "/api", "", 200, "");
    let b = make_exchange("b", "GET", "/api", "", 404, "not found");
    let diff = diff_exchanges(&a, &b);
    let rd = diff.response_diff.unwrap();
    assert_eq!(rd.status_changed, Some((200, 404)));
}

#[test]
fn body_diff_has_hunks_when_different() {
    let a = make_exchange("a", "GET", "/api", "", 200, "hello world");
    let b = make_exchange("b", "GET", "/api", "", 200, "hello rust");
    let diff = diff_exchanges(&a, &b);
    let rd = diff.response_diff.unwrap();
    assert!(rd.body_diff.is_some());
    let hunks = &rd.body_diff.unwrap().hunks;
    assert!(!hunks.is_empty());
    assert!(hunks[0].contains("-hello world") || hunks[0].contains("+hello rust"));
}

#[test]
fn body_diff_hunk_text_is_unified() {
    let a = make_exchange("a", "GET", "/api", "", 200, "one\ntwo\n");
    let b = make_exchange("b", "GET", "/api", "", 200, "one\nthree");
    let rd = diff_exchanges(&a, &b).response_diff.unwrap();
    assert_eq!(rd.body_diff.unwrap().hunks, vec![" one\n-two\n+three\n".to_string()]);
}

#[test]
fn request_body_diff_detected() {
    let a = make_exchange("a", "POST", "/api", r#"{"x":1}"#, 200, "");
    let b = make_exchange("b", "POST", "/api", r#"{"x":2}"#, 200, "");
    let diff = diff_exchanges(&a, &b);
    assert!(diff.request_diff.body_diff.is_some());
}

#[test]
fn header_added_detected() {
    let a = make_exchange("a", "GET", "/api", "", 200, "");
    let mut b = make_exchange("b", "GET", "/api", "", 200, "");
    set_header(&mut b.request.headers, "x-custom", "value");
    let diff = diff_exchanges(&a, &b);
    assert!(diff.request_diff.headers_added.iter().any(|h| h.contains("x-custom")));
    assert_eq!(diff.request_diff.headers_added, vec!["x-custom: value".to_string()]);
}

#[test]
fn header_removed_detected() {
    let mut a = make_exchange("a", "GET", "/api", "", 200, "");
    set_header(&mut a.request.headers, "x-custom", "value");
    let b = make_exchange("b", "GET", "/api", "", 200, "");
    let diff = diff_exchanges(&a, &b);
    assert!(diff.request_diff.headers_removed.iter().any(|h| h.contains("x-custom")));
}

#[test]
fn header_changed_detected() {
    let a = make_exchange("a", "GET", "/api", "", 200, "");
    let mut b = make_exchange("b", "GET", "/api", "", 200, "");
    set_header(&mut b.request.headers, "content-type", "text/plain");
    let diff = diff_exchanges(&a, &b);
    assert!(diff.request_diff.headers_changed.iter().any(|c| c.name == "content-type"));
    let c = &diff.request_diff.headers_changed[0];
    assert_eq!(c.old_value, "application/json");
    assert_eq!(c.new_value, "text/plain");
}

#[test]
fn timing_delta_calculated_correctly() {
    let mut a = make_exchange("a", "GET", "/api", "", 200, "hello");
    let mut b = make_exchange("b", "GET", "/api", "", 200, "hello");
    a.metrics.as_mut().unwrap().latency_ms = 100;
    b.metrics.as_mut().unwrap().latency_ms = 250;
    a.metrics.as_mut().unwrap().response_size_bytes = 10;
    b.metrics.as_mut().unwrap().response_size_bytes = 30;
    let diff = diff_exchanges(&a, &b);
    assert_eq!(diff.timing_delta.latency_delta_ms, 150);
    assert_eq!(diff.timing_delta.size_delta_bytes, 20);
}

#[test]
fn timing_delta_counts_missing_metrics_as_zero() {
    let mut a = make_exchange("a", "GET", "/api", "", 200, "hello");
    let b = make_exchange("b", "GET", "/api", "", 200, "hello");
    a.metrics = None;
    let diff = diff_exchanges(&b, &a);
    assert_eq!(diff.timing_delta.latency_delta_ms, -100);
    assert_eq!(diff.timing_delta.ttfb_delta_ms, -50);
}

#[test]
fn no_response_produces_none_response_diff() {
    let mut a = make_exchange("a", "GET", "/api", "", 200, "");
    let mut b = make_exchange("b", "GET", "/api", "", 200, "");
    a.response = None;
    b.response = None;
    let diff = diff_exchanges(&a, &b);
    assert!(diff.response_diff.is_none());
}

use oproxy::exchange::{
    Exchange, GrpcInspection, InspectionMetrics, InspectorData, RequestContext, ResponseContext, SessionSource,
    WsFrame,
};
use oproxy::listing::{
    facet_count, list_sessions, matches_session_filter, matches_session_filter_with,
    matches_since, pretty_body, pretty_body_with, request_size, response_status,
    session_filter_haystack, session_kind, session_latency, session_path, status_bucket,
    SessionListFilter, SessionListOptions, SessionSort, SessionSortDirection,
};

fn req_with(id: &str, ts: i64, method: &str, host: &str, uri: &str) -> Exchange {
    Exchange {
        id: id.to_string(),
        timestamp: ts,
        updated_at: None,
        request: RequestContext {
            method: method.to_string(),
            uri: uri.to_string(),
            headers: vec![],
            body: String::new(),
            host: host.to_string(),
        },
        response: None,
        metrics: None,
        ws_frames: vec![],
        note: None,
        tags: vec![],
        inspector_data: None,
        connection_id: None,
        stream_id: None,
        source: SessionSource::Proxy,
        protocol_context: None,
        downstream_protocol: None,
    }
}

fn req(id: &str, ts: i64, uri: &str) -> Exchange {
    req_with(id, ts, "GET", "localhost", uri)
}

fn respond(mut e: Exchange, status: u16, body: &str) -> Exchange {
    e.response = Some(ResponseContext {
        request_uri: e.request.uri.clone(),
        status,
        headers: vec![],
        body: body.to_string(),
        ttfb_ms: 0,
        body_ms: 0,
    });
    e
}

fn with_latency(mut e: Exchange, latency_ms: u64) -> Exchange {
    e.metrics = Some(InspectionMetrics {
        latency_ms,
        ttfb_ms: 0,
        request_size_bytes: 0,
        response_size_bytes: 0,
        status_code: 0,
        protocol: None,
    });
    e
}

fn options(
    since: Option<i64>,
    limit: Option<usize>,
    offset: Option<usize>,
    q: Option<&str>,
    include_bodies: bool,
) -> SessionListOptions {
    SessionListOptions {
        since,
        limit,
        offset,
        include_bodies,
        filter: SessionListFilter {
            query: q.unwrap_or_default().to_string(),
            ..SessionListFilter::default()
        },
    }
}

fn numbered(n: u32) -> Vec<Exchange> {
    (0..n).map(|i| req(&format!("id-{i}"), i as i64, &format!("/{i}"))).collect()
}

#[test]
fn list_sessions_no_filter_returns_all() {
    let all = vec![req("a", 1, "/a"), req("b", 2, "/b")];
    let r = list_sessions(all, options(None, None, None, None, true), &vec![]);
    assert_eq!(r.total, 2);
    assert_eq!(r.sessions.len(), 2);
}

#[test]
fn list_sessions_since_future_excludes_completed_sessions() {
    let now = 1_700_000_000_000i64;
    let all = vec![respond(req("a", now, "/a"), 200, "")];
    let future = now + 3_600_000;
    let r = list_sessions(all, options(Some(future), None, None, None, true), &vec![]);
    assert_eq!(r.total, 1);
    assert_eq!(r.sessions.len(), 0, "completed session older than since must be excluded");
}

#[test]
fn list_sessions_since_keeps_pending_and_recently_updated_sessions() {
    let now = 1_700_000_000_000i64;
    let future = now + 3_600_000;
    let mut updated = respond(req("u", now, "/u"), 200, "");
    updated.updated_at = Some(future + 1);
    let all = vec![req("p", now, "/p"), updated, respond(req("old", now, "/o"), 200, "")];
    let r = list_sessions(all, options(Some(future), None, None, None, true), &vec![]);
    assert_eq!(r.filtered_total, 2);
    assert!(r.sessions.iter().any(|s| s.id == "p"));
    assert!(r.sessions.iter().any(|s| s.id == "u"));
}

#[test]
fn list_sessions_since_past_returns_all() {
    let now = 1_700_000_000_000i64;
    let all = vec![req("a", now, "/a")];
    let r = list_sessions(all, options(Some(now - 3_600_000), None, None, None, true), &vec![]);
    assert_eq!(r.sessions.len(), 1);
}

#[test]
fn list_sessions_limit_caps_results() {
    let r = list_sessions(numbered(5), options(None, Some(2), None, None, true), &vec![]);
    assert_eq!(r.total, 5);
    assert_eq!(r.sessions.len(), 2);
    assert_eq!(r.limit, Some(2));
}

#[test]
fn list_sessions_can_return_bodyless_summaries() {
    let mut e = req("id1", 1, "/large");
    e.request.body = "request-body".to_string();
    let mut e = respond(e, 200, "response-body");
    e.ws_frames = vec![WsFrame {
        opcode: "text".to_string(),
        payload_len: 5,
        payload_text: Some("hello".to_string()),
        payload_hex: Some("68656c6c6f".to_string()),
    }];
    let summary = list_sessions(vec![e], options(None, None, None, None, false), &vec![]);
    let s = &summary.sessions[0];
    assert!(s.request.body.is_empty());
    assert!(s.response.as_ref().unwrap().body.is_empty(), "list summaries must not ship full bodies");
    assert_eq!(s.response.as_ref().unwrap().status, 200);
    assert_eq!(s.ws_frames.len(), 1);
    assert_eq!(s.ws_frames[0].payload_len, 5);
    assert!(s.ws_frames[0].payload_text.is_none());
    assert!(s.ws_frames[0].payload_hex.is_none());
}

#[test]
fn list_sessions_with_bodies_keeps_them() {
    let mut e = req("id1", 1, "/large");
    e.request.body = "request-body".to_string();
    let e = respond(e, 200, "response-body");
    let r = list_sessions(vec![e], options(None, None, None, None, true), &vec![]);
    assert_eq!(r.sessions[0].request.body, "request-body");
    assert_eq!(r.sessions[0].response.as_ref().unwrap().body, "response-body");
}

#[test]
fn list_sessions_offset_skips_entries() {
    let r = list_sessions(numbered(5), options(None, None, Some(3), None, true), &vec![]);
    assert_eq!(r.total, 5);
    assert_eq!(r.sessions.len(), 2);
    assert_eq!(r.offset, Some(3));
}

#[test]
fn list_sessions_limit_and_offset() {
    let r = list_sessions(numbered(10), options(None, Some(3), Some(4), None, true), &vec![]);
    assert_eq!(r.total, 10);
    assert_eq!(r.sessions.len(), 3);
    // newest first: ids 9..0, skip 4 → 5, 4, 3
    let ids: Vec<&str> = r.sessions.iter().map(|s| s.id.as_str()).collect();
    assert_eq!(ids, vec!["id-5", "id-4", "id-3"]);
}

#[test]
fn list_sessions_offset_beyond_end_returns_empty() {
    let r = list_sessions(numbered(1), options(None, None, Some(100), None, true), &vec![]);
    assert_eq!(r.total, 1);
    assert_eq!(r.sessions.len(), 0);
}

fn structured_fixture() -> Vec<Exchange> {
    vec![
        respond(req_with("ok", 1, "GET", "api.test.com", "/ok"), 200, ""),
        respond(req_with("bad", 2, "POST", "api.test.com", "/bad"), 500, ""),
        req_with("other", 3, "POST", "other.test.com", "/bad"),
    ]
}

#[test]
fn list_sessions_applies_structured_filters_and_facets() {
    let r = list_sessions(
        structured_fixture(),
        SessionListOptions {
            include_bodies: true,
            filter: SessionListFilter {
                methods: Some(vec!["POST".to_string()]),
                status_buckets: Some(vec!["5".to_string()]),
                host_focus: vec!["api.test.com".to_string()],
                ..SessionListFilter::default()
            },
            ..SessionListOptions::default()
        },
        &vec![],
    );
    assert_eq!(r.total, 3);
    assert_eq!(r.filtered_total, 1);
    assert_eq!(r.sessions.len(), 1);
    assert_eq!(r.sessions[0].id, "bad");
    assert_eq!(facet_count(&r.facets.methods, "POST"), Some(1));
    assert_eq!(facet_count(&r.facets.status_buckets, "5"), Some(1));
    assert_eq!(facet_count(&r.facets.hosts, "api.test.com"), Some(1));
}

#[test]
fn facets_are_sorted_and_count_every_filtered_exchange() {
    let r = list_sessions(structured_fixture(), SessionListOptions::default(), &vec![]);
    let methods: Vec<(&str, usize)> = r.facets.methods.iter().map(|(k, c)| (k.as_str(), *c)).collect();
    assert_eq!(methods, vec![("GET", 1), ("POST", 2)]);
    let buckets: Vec<(&str, usize)> =
        r.facets.status_buckets.iter().map(|(k, c)| (k.as_str(), *c)).collect();
    assert_eq!(buckets, vec![("-", 1), ("2", 1), ("5", 1)]);
    let hosts: Vec<(&str, usize)> = r.facets.hosts.iter().map(|(k, c)| (k.as_str(), *c)).collect();
    assert_eq!(hosts, vec![("api.test.com", 2), ("other.test.com", 1)]);
    assert_eq!(facet_count(&r.facets.methods, "DELETE"), None);
}

#[test]
fn lowercase_method_filter_matches_ignoring_case() {
    let r = list_sessions(
        structured_fixture(),
        SessionListOptions {
            filter: SessionListFilter {
                methods: Some(vec!["post".to_string()]),
                ..SessionListFilter::default()
            },
            ..SessionListOptions::default()
        },
        &vec![],
    );
    assert_eq!(r.filtered_total, 2);
}

#[test]
fn host_focus_includes_subdomains() {
    let all = vec![
        req_with("a", 1, "GET", "api.test.com", "/"),
        req_with("b", 2, "GET", "test.com", "/"),
        req_with("c", 3, "GET", "othertest.com", "/"),
    ];
    let r = list_sessions(
        all,
        SessionListOptions {
            filter: SessionListFilter {
                host_focus: vec!["test.com".to_string()],
                ..SessionListFilter::default()
            },
            ..SessionListOptions::default()
        },
        &vec![],
    );
    assert_eq!(r.filtered_total, 2);
}

#[test]
fn list_sessions_sorts_on_backend() {
    let all = vec![
        with_latency(respond(req_with("slow", 1, "GET", "b.test.com", "/b"), 200, ""), 100),
        with_latency(respond(req_with("fast", 2, "GET", "a.test.com", "/a"), 200, ""), 5),
    ];
    let r = list_sessions(
        all,
        SessionListOptions {
            include_bodies: true,
            filter: SessionListFilter {
                sort: SessionSort { key: "total".to_string(), dir: SessionSortDirection::Asc },
                ..SessionListFilter::default()
            },
            ..SessionListOptions::default()
        },
        &vec![],
    );
    assert_eq!(r.sessions[0].id, "fast");
    assert_eq!(r.sessions[1].id, "slow");
}

#[test]
fn sort_by_host_ignores_case_and_idx_ascending_reverses() {
    let all = vec![
        req_with("1", 1, "GET", "Beta.test", "/"),
        req_with("2", 2, "GET", "alpha.test", "/"),
        req_with("3", 3, "GET", "gamma.test", "/"),
    ];
    let by_host = |dir| SessionListOptions {
        filter: SessionListFilter {
            sort: SessionSort { key: "host".to_string(), dir },
            ..SessionListFilter::default()
        },
        ..SessionListOptions::default()
    };
    let r = list_sessions(all.clone(), by_host(SessionSortDirection::Asc), &vec![]);
    let ids: Vec<&str> = r.sessions.iter().map(|s| s.id.as_str()).collect();
    assert_eq!(ids, vec!["2", "1", "3"]);
    let idx_asc = SessionListOptions {
        filter: SessionListFilter {
            sort: SessionSort { key: "idx".to_string(), dir: SessionSortDirection::Asc },
            ..SessionListFilter::default()
        },
        ..SessionListOptions::default()
    };
    let r = list_sessions(all, idx_asc, &vec![]);
    let ids: Vec<&str> = r.sessions.iter().map(|s| s.id.as_str()).collect();
    assert_eq!(ids, vec!["3", "2", "1"]);
}

#[test]
fn list_sessions_distinguishes_missing_filter_from_empty_selection() {
    let all = || vec![req_with("id1", 1, "GET", "api.test.com", "/a")];
    let unconstrained = list_sessions(
        all(),
        SessionListOptions {
            include_bodies: true,
            filter: SessionListFilter { methods: None, ..SessionListFilter::default() },
            ..SessionListOptions::default()
        },
        &vec![],
    );
    assert_eq!(unconstrained.filtered_total, 1);
    let empty_selection = list_sessions(
        all(),
        SessionListOptions {
            include_bodies: true,
            filter: SessionListFilter { methods: Some(vec![]), ..SessionListFilter::default() },
            ..SessionListOptions::default()
        },
        &vec![],
    );
    assert_eq!(empty_selection.filtered_total, 0);
}

#[test]
fn regex_query_matches_haystack_and_bad_pattern_matches_nothing() {
    let all = || vec![req("a", 1, "/api/users"), req("b", 2, "/static/app.js")];
    let regex = |q: &str| SessionListOptions {
        filter: SessionListFilter { query: q.to_string(), regex: true, ..SessionListFilter::default() },
        ..SessionListOptions::default()
    };
    let r = list_sessions(all(), regex("  /api/u.ers  "), &vec![]);
    assert_eq!(r.filtered_total, 1);
    assert_eq!(r.sessions[0].id, "a");
    let r = list_sessions(all(), regex("(unclosed"), &vec![]);
    assert_eq!(r.filtered_total, 0);
}

#[test]
fn plain_query_uses_search_hits() {
    let all = vec![req("a", 1, "/a"), req("b", 2, "/b"), req("c", 3, "/c")];
    let r = list_sessions(all, options(None, None, None, Some("users"), true), &vec![false, true]);
    assert_eq!(r.filtered_total, 1);
    assert_eq!(r.sessions[0].id, "b");
}

#[test]
fn columns_of_an_exchange() {
    let mut e = req_with("x", 7, "get", "h.test", "https://h.test:8443/a/b?q=1");
    e.request.body = "héllo".to_string();
    assert_eq!(session_path(&e), "/a/b");
    assert_eq!(session_kind(&e), "pending");
    assert_eq!(response_status(&e), 0);
    assert_eq!(status_bucket(&e), "-");
    assert_eq!(request_size(&e), 6);
    assert_eq!(session_latency(&e), 0);
    e.tags = vec!["t1".to_string(), "t2".to_string()];
    assert_eq!(
        session_filter_haystack(&e),
        "https://h.test:8443/a/b?q=1 get h.test pending t1 t2"
    );
    let e = respond(e, 404, "");
    assert_eq!(status_bucket(&e), "4");
    assert_eq!(session_kind(&e), "http");
    let mut g = e.clone();
    g.inspector_data = Some(InspectorData { graphql: true, grpc: Some(GrpcInspection { grpc_status: None }) });
    assert_eq!(session_kind(&g), "graphql");
    g.inspector_data = Some(InspectorData { graphql: false, grpc: Some(GrpcInspection { grpc_status: None }) });
    assert_eq!(session_kind(&g), "grpc");
    let origin_form = req("o", 1, "/plain/path?x");
    assert_eq!(session_path(&origin_form), "/plain/path");
    let no_path = req("n", 1, "http://host.only");
    assert_eq!(session_path(&no_path), "http://host.only");
}

#[test]
fn status_buckets_cover_each_class() {
    for (status, bucket) in [(200, "2"), (299, "2"), (301, "3"), (404, "4"), (503, "5"), (600, "-"), (101, "-")] {
        let e = respond(req("s", 1, "/"), status, "");
        assert_eq!(status_bucket(&e), bucket);
    }
}

#[test]
fn since_and_filter_helpers() {
    let e = respond(req("a", 10, "/a"), 200, "");
    assert!(matches_since(&e, None));
    assert!(matches_since(&e, Some(9)));
    assert!(!matches_since(&e, Some(10)));
    let filter = SessionListFilter {
        host_filter: Some("elsewhere".to_string()),
        ..SessionListFilter::default()
    };
    assert!(!matches_session_filter(&e, &filter, false));
    let empty_host = SessionListFilter { host_filter: Some(String::new()), ..SessionListFilter::default() };
    assert!(matches_session_filter(&e, &empty_host, false));
    let regex = SessionListFilter { query: "x".to_string(), regex: true, ..SessionListFilter::default() };
    assert!(matches_session_filter_with(&e, &regex, Some(true), false));
    assert!(!matches_session_filter_with(&e, &regex, Some(false), true));
    assert!(!matches_session_filter_with(&e, &regex, None, true));
}

#[test]
fn pretty_body_formats_json() {
    let raw = r#"{"b":2,"a":1}"#;
    let out = pretty_body(raw, "application/json");
    assert!(out.contains('\n'), "pretty JSON must be multi-line");
    assert!(out.contains("\"a\": 1") || out.contains("\"b\": 2"), "keys must be present");
}

#[test]
fn pretty_body_json_content_type_with_charset() {
    let raw = r#"{"ok":true}"#;
    let out = pretty_body(raw, "application/json; charset=utf-8");
    assert!(out.contains('\n'));
}

#[test]
fn pretty_body_non_json_content_type_returns_unchanged() {
    let raw = "plain text body";
    let out = pretty_body(raw, "text/plain");
    assert_eq!(out, raw);
}

#[test]
fn pretty_body_malformed_json_returns_unchanged() {
    let raw = r#"{"incomplete:"#;
    let out = pretty_body(raw, "application/json");
    assert_eq!(out, raw);
}

#[test]
fn pretty_body_empty_body_returns_empty() {
    let out = pretty_body("", "application/json");
    assert_eq!(out, "");
}

#[test]
fn pretty_body_vendor_json_type_returned_unchanged() {
    let raw = r#"{"x":1}"#;
    let out = pretty_body(raw, "application/vnd.api+json");
    assert_eq!(out, raw, "vendor +json types are not pretty-printed by current impl");
}

#[test]
fn pretty_body_with_picks_the_pretty_text_only_for_json_types() {
    assert_eq!(pretty_body_with("{}", "text/json", Some("P".to_string())), "P");
    assert_eq!(pretty_body_with("{}", "text/plain", Some("P".to_string())), "{}");
    assert_eq!(pretty_body_with("{}", "application/json", None), "{}");
}

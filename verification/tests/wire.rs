use oproxy::forward::{ApplicationProtocol, BodyMode};
use oproxy::wire::{
    request_scheme, target_url, upstream_headers, upstream_path,
    infer_application_protocol, infer_body_mode, is_binary_content_type,
    sanitize_forwarded_request_headers, strip_hop_by_hop_response_headers, HeaderMap,
};

fn headers(pairs: &[(&str, &str)]) -> HeaderMap {
    let mut h = HeaderMap::new();
    for (k, v) in pairs {
        h.insert(k.to_string(), v.to_string());
    }
    h
}

#[test]
fn binary_ct_image_types_are_binary() {
    for ct in &["image/png", "image/jpeg", "image/gif", "image/webp", "image/svg+xml"] {
        assert!(is_binary_content_type(ct), "{ct} must be binary");
    }
}

#[test]
fn binary_ct_audio_video_are_binary() {
    assert!(is_binary_content_type("audio/mpeg"));
    assert!(is_binary_content_type("video/mp4"));
}

#[test]
fn binary_ct_octet_stream_is_binary() {
    assert!(is_binary_content_type("application/octet-stream"));
}

#[test]
fn binary_ct_pdf_wasm_woff_are_binary() {
    assert!(is_binary_content_type("application/pdf"));
    assert!(is_binary_content_type("application/wasm"));
    assert!(is_binary_content_type("font/woff"));
    assert!(is_binary_content_type("font/woff2"));
}

#[test]
fn binary_ct_text_and_json_are_not_binary() {
    assert!(!is_binary_content_type("text/plain"));
    assert!(!is_binary_content_type("text/html"));
    assert!(!is_binary_content_type("application/json"));
    assert!(!is_binary_content_type("application/xml"));
}

#[test]
fn binary_ct_charset_suffix_ignored() {
    assert!(is_binary_content_type("image/png; charset=utf-8"));
    assert!(!is_binary_content_type("application/json; charset=utf-8"));
}

#[test]
fn binary_ct_surrounding_whitespace_ignored() {
    assert!(is_binary_content_type("  application/zip ; q=1"));
    assert!(!is_binary_content_type("application/zipx"));
}

#[test]
fn application_protocol_follows_content_type() {
    assert_eq!(
        infer_application_protocol(&headers(&[("Content-Type", "application/grpc+proto")])),
        ApplicationProtocol::Grpc
    );
    assert_eq!(
        infer_application_protocol(&headers(&[("content-type", "text/event-stream")])),
        ApplicationProtocol::Sse
    );
    assert_eq!(
        infer_application_protocol(&headers(&[("content-type", "application/graphql+json")])),
        ApplicationProtocol::Graphql
    );
    assert_eq!(
        infer_application_protocol(&headers(&[("content-type", "Application/JSON")])),
        ApplicationProtocol::Json
    );
    assert_eq!(
        infer_application_protocol(&headers(&[("content-type", "image/png")])),
        ApplicationProtocol::Binary
    );
    assert_eq!(infer_application_protocol(&headers(&[])), ApplicationProtocol::Http);
}

#[test]
fn body_mode_follows_method_and_framing_headers() {
    assert_eq!(
        infer_body_mode("GET", &headers(&[("Upgrade", "WebSocket")])),
        BodyMode::Frames
    );
    assert_eq!(
        infer_body_mode("POST", &headers(&[("content-type", "application/grpc")])),
        BodyMode::StreamMessages
    );
    assert_eq!(infer_body_mode("GET", &headers(&[])), BodyMode::Empty);
    assert_eq!(
        infer_body_mode("POST", &headers(&[("transfer-encoding", "Chunked")])),
        BodyMode::StreamBytes
    );
    assert_eq!(
        infer_body_mode("POST", &headers(&[("content-length", "524289")])),
        BodyMode::StreamBytes
    );
    assert_eq!(
        infer_body_mode("POST", &headers(&[("content-length", "524288")])),
        BodyMode::Full
    );
    assert_eq!(
        infer_body_mode("POST", &headers(&[("content-length", "abc")])),
        BodyMode::Full
    );
}

#[test]
fn request_sanitising_drops_spoofed_and_hop_headers() {
    let mut h = headers(&[
        ("X-Oproxy-Session", "spoof"),
        ("connection", "keep-alive"),
        ("te", " Trailers "),
        ("authorization", "Bearer x"),
        ("upgrade", "h2c"),
    ]);
    sanitize_forwarded_request_headers(&mut h);
    let names: Vec<&str> = h.entries.iter().map(|(k, _)| k.as_str()).collect();
    assert_eq!(names, vec!["te", "authorization"]);

    let mut h = headers(&[("te", "gzip")]);
    sanitize_forwarded_request_headers(&mut h);
    assert!(h.entries.is_empty());
}

#[test]
fn response_stripping_ignores_header_case() {
    let mut h = headers(&[
        ("Connection", "close"),
        ("Content-Type", "text/plain"),
        ("TE", "trailers"),
        ("Transfer-Encoding", "chunked"),
    ]);
    strip_hop_by_hop_response_headers(&mut h);
    assert_eq!(h.entries, vec![("Content-Type".to_string(), "text/plain".to_string())]);
}

#[test]
fn request_scheme_prefers_mitm_destination() {
    assert_eq!(request_scheme(Some("http"), Some("https://example.com")), "https");
    assert_eq!(request_scheme(Some("ws"), Some("example.com")), "ws");
    assert_eq!(request_scheme(None, None), "http");
}

#[test]
fn upstream_path_falls_back_to_root() {
    assert_eq!(upstream_path(Some("/v1?q=1"), "/x"), "/v1?q=1");
    assert_eq!(upstream_path(None, "/fallback"), "/fallback");
    assert_eq!(upstream_path(None, "example.com"), "/");
}

#[test]
fn target_url_routes_to_destination_with_host_header() {
    assert_eq!(target_url(None, "api.test", "/a"), ("http://api.test/a".to_string(), None));
    assert_eq!(
        target_url(Some("localhost:3000/"), "api.test", "/a"),
        ("http://localhost:3000/a".to_string(), Some("localhost:3000".to_string()))
    );
    assert_eq!(
        target_url(Some("https://example.com"), "api.test", "/b?c=1"),
        ("https://example.com/b?c=1".to_string(), Some("example.com".to_string()))
    );
}

#[test]
fn upstream_headers_drop_host_length_and_invalid_headers() {
    let mut h = HeaderMap::new();
    h.insert("host".to_string(), "a".to_string());
    h.insert("content-length".to_string(), "3".to_string());
    h.insert("x-ok".to_string(), "1".to_string());
    h.insert("bad name".to_string(), "1".to_string());
    h.insert("x-bad-value".to_string(), "a\u{1}b".to_string());
    h.insert("Host".to_string(), "kept".to_string());
    assert_eq!(
        upstream_headers(&h),
        vec![("x-ok".to_string(), "1".to_string()), ("Host".to_string(), "kept".to_string())]
    );
}

use oproxy::engine::{
    attaches_request_body, body_limit_message, chunk_fits, display_request_uri,
    encoded_limit_message, is_self_proxy, merge_tags, needs_grpc_trailers, normalizes_encoding,
    short_circuit_response_size, streams_response, RequestTarget,
};
use oproxy::wire::HeaderMap;

fn origin_form(pq: &str) -> RequestTarget {
    RequestTarget { text: pq.to_string(), path_and_query: Some(pq.to_string()), absolute: false }
}

#[test]
fn engine_display_request_uri_uses_mitm_destination_for_origin_form_requests() {
    let uri = origin_form("/login?next=1");
    assert_eq!(
        display_request_uri(&uri, Some("https://example.com"), "example.com"),
        "https://example.com/login?next=1"
    );
}

#[test]
fn mod_display_request_uri_uses_mitm_destination_for_origin_form_requests() {
    let uri = origin_form("/login?next=1");
    assert_eq!(
        display_request_uri(&uri, Some("https://example.com"), "example.com"),
        "https://example.com/login?next=1"
    );
}

#[test]
fn engine_display_request_uri_preserves_absolute_forward_proxy_uri() {
    let uri = RequestTarget {
        text: "http://api.example.test/v1?q=1".to_string(),
        path_and_query: Some("/v1?q=1".to_string()),
        absolute: true,
    };
    assert_eq!(display_request_uri(&uri, None, "api.example.test"), "http://api.example.test/v1?q=1");
}

#[test]
fn mod_display_request_uri_preserves_absolute_forward_proxy_uri() {
    let uri = RequestTarget {
        text: "http://api.example.test/v1?q=1".to_string(),
        path_and_query: Some("/v1?q=1".to_string()),
        absolute: true,
    };
    assert_eq!(display_request_uri(&uri, None, "api.example.test"), "http://api.example.test/v1?q=1");
}

#[test]
fn engine_display_request_uri_keeps_root_path_for_mitm_requests() {
    let uri = origin_form("/");
    assert_eq!(
        display_request_uri(&uri, Some("https://example.com"), "example.com"),
        "https://example.com/"
    );
}

#[test]
fn mod_display_request_uri_keeps_root_path_for_mitm_requests() {
    let uri = origin_form("/");
    assert_eq!(
        display_request_uri(&uri, Some("https://example.com"), "example.com"),
        "https://example.com/"
    );
}

#[test]
fn display_request_uri_falls_back_to_the_host_header() {
    let uri = RequestTarget { text: "*".to_string(), path_and_query: None, absolute: false };
    assert_eq!(display_request_uri(&uri, None, "h.test:8080"), "http://h.test:8080/");
    assert_eq!(
        display_request_uri(&origin_form("/x"), Some("https://example.com///"), "e"),
        "https://example.com/x"
    );
}

#[test]
fn self_proxy_detection_matches_port_and_host() {
    let lan = vec!["192.168.1.5".to_string()];
    assert!(is_self_proxy("http://localhost:8080/x", 8080, "127.0.0.1", &lan));
    assert!(!is_self_proxy("http://localhost:8081/x", 8080, "127.0.0.1", &lan));
    assert!(is_self_proxy("http://LOCALHOST/", 80, "127.0.0.1", &lan));
    assert!(!is_self_proxy("https://localhost/", 80, "127.0.0.1", &lan));
    assert!(is_self_proxy("http://proxy.local:8080/", 8080, " Proxy.Local :9", &lan));
    assert!(is_self_proxy("http://192.168.1.5:8080/", 8080, "0.0.0.0", &lan));
    assert!(!is_self_proxy("http://192.168.1.6:8080/", 8080, "0.0.0.0", &lan));
    assert!(!is_self_proxy("not a url", 8080, "0.0.0.0", &lan));
}

#[test]
fn short_circuit_size_prefers_body_then_content_length() {
    let mut h = HeaderMap::new();
    assert_eq!(short_circuit_response_size(12, &h), 12);
    assert_eq!(short_circuit_response_size(0, &h), 0);
    h.insert("Content-Length".to_string(), "+42".to_string());
    assert_eq!(short_circuit_response_size(0, &h), 42);
    let mut bad = HeaderMap::new();
    bad.insert("content-length".to_string(), " 42".to_string());
    assert_eq!(short_circuit_response_size(0, &bad), 0);
}

#[test]
fn merged_tags_keep_old_and_add_new_once() {
    let existing = vec!["a".to_string(), "b".to_string()];
    let added = vec!["b".to_string(), "c".to_string(), "c".to_string()];
    assert_eq!(merge_tags(&existing, &added), vec!["a", "b", "c"]);
    assert_eq!(merge_tags(&Vec::new(), &Vec::new()), Vec::<String>::new());
}

fn headers_of(pairs: &[(&str, &str)]) -> HeaderMap {
    HeaderMap {
        entries: pairs.iter().map(|(k, v)| (k.to_string(), v.to_string())).collect(),
    }
}

#[test]
fn bodiless_requests_are_sent_without_a_body() {
    assert!(!attaches_request_body(0, &headers_of(&[("accept", "*/*")])));
    assert!(attaches_request_body(3, &headers_of(&[])));
    assert!(attaches_request_body(0, &headers_of(&[("content-length", "0")])));
}

#[test]
fn event_streams_large_and_chunked_responses_stream() {
    assert!(streams_response("text/event-stream; charset=utf-8", None, None));
    assert!(!streams_response("application/json", Some(524288), None));
    assert!(streams_response("application/json", Some(524289), None));
    assert!(streams_response("application/json", None, Some("gzip, Chunked")));
    assert!(!streams_response("application/json", None, Some("identity")));
    assert!(!streams_response("Text/Event-Stream", None, None));
}

#[test]
fn successful_grpc_responses_get_a_status_trailer() {
    assert!(needs_grpc_trailers("application/grpc+proto", 200));
    assert!(!needs_grpc_trailers("application/grpc", 500));
    assert!(!needs_grpc_trailers("application/json", 200));
}

#[test]
fn encoded_streamed_responses_are_decoded_within_the_limit() {
    let gz = headers_of(&[("Content-Encoding", "gzip"), ("content-type", "application/json")]);
    assert!(normalizes_encoding(&gz, None, 1024));
    assert!(normalizes_encoding(&gz, Some(1024), 1024));
    assert!(!normalizes_encoding(&gz, Some(1025), 1024));
    let sse = headers_of(&[("content-encoding", "gzip"), ("Content-Type", "TEXT/EVENT-STREAM")]);
    assert!(!normalizes_encoding(&sse, None, 1024));
    let blank = headers_of(&[("content-encoding", "  ")]);
    assert!(!normalizes_encoding(&blank, None, 1024));
    assert!(chunk_fits(1000, 24, 1024));
    assert!(!chunk_fits(1000, 25, 1024));
    assert!(!chunk_fits(0, usize::MAX, 1024));
}

#[test]
fn limit_messages_name_the_limit() {
    assert_eq!(
        body_limit_message(2048),
        "Request body exceeds the 2048 byte limit. Raise max_body_bytes in settings to increase it."
    );
    assert_eq!(
        encoded_limit_message(10),
        "encoded response exceeded max_body_bytes (10) while normalizing content-encoding"
    );
}

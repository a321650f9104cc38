use oproxy::compat::compact_probe_response;
use oproxy::exchange::{Exchange, RequestContext, SessionSource};
use oproxy::listing::{sort_sessions, SessionSort, SessionSortDirection};
use oproxy::login::{html_escape, sanitize_next};
use oproxy::playback::{is_hop_by_hop_header, replay_headers, replay_record, replay_request, replay_tags};
use oproxy::storage::{
    is_safe_relative_path, path_within, resolve_storage_file_for_read, storage_candidate,
};

#[test]
fn login_next_stays_on_this_site() {
    assert_eq!(sanitize_next("/ui/sessions"), "/ui/sessions");
    assert_eq!(sanitize_next("//evil.example"), "/");
    assert_eq!(sanitize_next("https://evil.example"), "/");
    assert_eq!(sanitize_next("/login"), "/");
    assert_eq!(sanitize_next("/login?x"), "/login?x");
    assert_eq!(sanitize_next(""), "/");
}

#[test]
fn html_escape_covers_attribute_breakers() {
    assert_eq!(html_escape("a&b<c>\"d'"), "a&amp;b&lt;c&gt;&quot;d&#x27;");
    assert_eq!(html_escape("plain"), "plain");
    assert_eq!(html_escape(""), "");
}

#[test]
fn relative_storage_paths_cannot_escape() {
    assert!(is_safe_relative_path("sessions/a.json"));
    assert!(is_safe_relative_path("./a.json"));
    assert!(!is_safe_relative_path("../outside.json"));
    assert!(!is_safe_relative_path("a/../../b"));
    assert!(!is_safe_relative_path("/etc/passwd"));
    assert!(!is_safe_relative_path(""));
}

#[test]
fn storage_file_write_rejects_path_traversal() {
    assert_eq!(
        storage_candidate("/srv/storage", "../outside.json").unwrap_err(),
        "path must stay inside storage directory"
    );
    assert_eq!(storage_candidate("/srv/storage", "").unwrap_err(), "path is required");
    assert_eq!(storage_candidate("/srv/storage", "a.json").unwrap(), "/srv/storage/a.json");
    assert_eq!(storage_candidate("/srv/storage/", "a.json").unwrap(), "/srv/storage/a.json");
    assert_eq!(storage_candidate("/srv/storage", "/tmp/x.json").unwrap(), "/tmp/x.json");
}

#[test]
fn storage_file_read_rejects_absolute_path_outside_storage() {
    let r = resolve_storage_file_for_read("/srv/storage", Ok("/tmp/outside.json".to_string()), true);
    assert_eq!(r.unwrap_err(), "path must stay inside storage directory");
    let r = resolve_storage_file_for_read("/srv/storage", Ok("/srv/storage/a.json".to_string()), true);
    assert_eq!(r.unwrap(), "/srv/storage/a.json");
    let r = resolve_storage_file_for_read("/srv/storage", Ok("/srv/storage/dir".to_string()), false);
    assert_eq!(r.unwrap_err(), "path must reference a file");
    let r = resolve_storage_file_for_read("/srv/storage", Err("No such file".to_string()), false);
    assert_eq!(r.unwrap_err(), "failed to resolve file: No such file");
}

#[test]
fn path_prefixes_are_component_wise() {
    assert!(path_within("/srv/storage/a", "/srv/storage"));
    assert!(!path_within("/srv/storage2/a", "/srv/storage"));
    assert!(path_within("/srv//storage/./a", "/srv/storage/"));
    assert!(!path_within("srv/storage/a", "/srv/storage"));
}

#[test]
fn replay_drops_connection_headers_and_marks_the_request() {
    assert!(is_hop_by_hop_header("Transfer-Encoding"));
    assert!(is_hop_by_hop_header("TE"));
    assert!(!is_hop_by_hop_header("authorization"));
    let headers = vec![
        ("Host".to_string(), "a".to_string()),
        ("x-ok".to_string(), "1".to_string()),
        ("bad name".to_string(), "v".to_string()),
        ("x-bad-value".to_string(), "a\nb".to_string()),
        ("x-tab".to_string(), "a\tb".to_string()),
    ];
    assert_eq!(
        replay_headers(&headers),
        vec![("x-ok".to_string(), "1".to_string()), ("x-tab".to_string(), "a\tb".to_string())]
    );
    let req = RequestContext {
        method: "GET".to_string(),
        uri: "http://a/".to_string(),
        headers: vec![],
        body: String::new(),
        host: "a".to_string(),
    };
    assert_eq!(replay_request(req).method, "[REPLAY] GET");
    assert_eq!(replay_tags(), vec!["replay".to_string()]);
}

fn ex(id: &str, ts: i64, method: &str) -> Exchange {
    Exchange {
        id: id.to_string(),
        timestamp: ts,
        updated_at: None,
        request: RequestContext {
            method: method.to_string(),
            uri: "/".to_string(),
            headers: vec![],
            body: String::new(),
            host: "h".to_string(),
        },
        response: None,
        metrics: None,
        ws_frames: vec![],
        note: None,
        tags: vec![],
        inspector_data: None,
        source: SessionSource::Proxy,
        protocol_context: None,
        downstream_protocol: None,
        connection_id: None,
        stream_id: None,
    }
}

#[test]
fn sort_sessions_is_stable_and_reverses_descending() {
    let mut v = vec![ex("a", 2, "post"), ex("b", 1, "GET"), ex("c", 3, "Post")];
    sort_sessions(&mut v, &SessionSort { key: "method".to_string(), dir: SessionSortDirection::Asc });
    let ids: Vec<&str> = v.iter().map(|e| e.id.as_str()).collect();
    assert_eq!(ids, vec!["b", "a", "c"]);
    sort_sessions(&mut v, &SessionSort { key: "ts".to_string(), dir: SessionSortDirection::Desc });
    let ids: Vec<&str> = v.iter().map(|e| e.id.as_str()).collect();
    assert_eq!(ids, vec!["c", "a", "b"]);
    sort_sessions(&mut v, &SessionSort { key: "unknown".to_string(), dir: SessionSortDirection::Asc });
    let ids: Vec<&str> = v.iter().map(|e| e.id.as_str()).collect();
    assert_eq!(ids, vec!["b", "a", "c"]);
}

#[test]
fn probe_answers_are_squeezed_and_cut() {
    assert_eq!(compact_probe_response("  a \n b\t\tc  "), "a b c");
    let long = "x".repeat(200);
    let out = compact_probe_response(&long);
    assert_eq!(out.chars().count(), 163);
    assert!(out.ends_with("..."));
    assert_eq!(compact_probe_response(&"y".repeat(160)), "y".repeat(160));
    assert_eq!(compact_probe_response(""), "");
}

#[test]
fn replay_records_only_answered_requests() {
    let req = RequestContext {
        method: "GET".to_string(),
        uri: "http://a.test/x".to_string(),
        headers: vec![],
        body: String::new(),
        host: "a.test".to_string(),
    };
    assert!(replay_record(req.clone(), None).is_none());
    let (r, resp, tags) = replay_record(req, Some((201, "ok".to_string()))).unwrap();
    assert_eq!(r.method, "[REPLAY] GET");
    assert_eq!(resp.status, 201);
    assert_eq!(resp.body, "ok");
    assert_eq!(resp.request_uri, "http://a.test/x");
    assert_eq!(tags, vec!["replay".to_string()]);
}

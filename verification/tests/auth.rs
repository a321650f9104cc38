use oproxy::auth::{admin_access, AdminAccess, AdminRequest};
use oproxy::auth::{request_has_admin_token, request_has_header_admin_token};
use oproxy::auth::{
    admin_token_cookie, authority_port, configured_admin_token, cookie_has_admin_token,
    csrf_origin_allowed, host_without_port, is_auth_exempt_request, is_management_host,
    is_state_changing_admin_request, query_admin_token, same_authority, token_matches,
    url_authority,
};
use oproxy::config::Config;

fn s(v: Vec<char>) -> String {
    v.into_iter().collect()
}

#[test]
fn management_host_accepts_localhost_and_configured_lan_bindings() {
    let none: Vec<String> = Vec::new();
    assert!(is_management_host("localhost:8080", "127.0.0.1", false, false, true, &none));
    assert!(is_management_host("127.0.0.1:8080", "127.0.0.1", false, false, true, &none));
    assert!(is_management_host("[::1]:8080", "127.0.0.1", false, false, true, &none));
    assert!(is_management_host("::1", "127.0.0.1", false, false, true, &none));
    assert!(
        !is_management_host("localhost:8080", "0.0.0.0", true, true, false, &none),
        "remote clients must not reach admin by spoofing a localhost Host header"
    );
    assert!(!is_management_host("192.168.1.10:8080", "192.168.1.10", false, true, false, &none));
    assert!(is_management_host("192.168.1.10:8080", "192.168.1.10", true, true, false, &none));
    assert!(!is_management_host("192.168.1.10:8080", "192.168.1.10", true, false, false, &none));
    assert!(!is_management_host("example.com", "127.0.0.1", true, true, false, &none));
}

#[test]
fn management_host_on_wildcard_bind_matches_lan_addresses() {
    let lan = vec!["192.168.1.50".to_string()];
    assert!(is_management_host("192.168.1.50:8080", "0.0.0.0", true, true, false, &lan));
    assert!(is_management_host("0.0.0.0:8080", "::", true, true, false, &lan));
    assert!(!is_management_host("10.0.0.1:8080", "0.0.0.0", true, true, false, &lan));
}

#[test]
fn admin_token_accepts_supported_locations() {
    assert!(token_matches("secret", "secret"));
    assert!(!token_matches("secret", "different"));
    assert_eq!(
        query_admin_token(Some("foo=bar&token=secret")).as_deref(),
        Some("secret")
    );
    assert!(cookie_has_admin_token("theme=dark; oproxy_admin_token=secret", "secret"));
    assert!(admin_token_cookie("secret-token").is_some());
}

#[test]
fn admin_token_cookie_rejects_unsafe_characters() {
    assert_eq!(
        admin_token_cookie("abc").as_deref(),
        Some("oproxy_admin_token=abc; HttpOnly; SameSite=Strict; Path=/")
    );
    assert!(admin_token_cookie("a b").is_none());
    assert!(admin_token_cookie("a;b").is_none());
    assert!(admin_token_cookie("é").is_none());
}

#[test]
fn query_token_takes_first_token_key() {
    assert_eq!(
        query_admin_token(Some("admin_token=one&token=two")).as_deref(),
        Some("one")
    );
    assert_eq!(query_admin_token(Some("token")).as_deref(), Some(""));
    assert_eq!(query_admin_token(Some("x=1")), None);
    assert_eq!(query_admin_token(None), None);
}

#[test]
fn configured_admin_token_ignores_blank_values() {
    let mut cfg = Config::default();
    assert_eq!(configured_admin_token(&cfg), None);
    cfg.admin_token = Some("  ".to_string());
    assert_eq!(configured_admin_token(&cfg), None);
    cfg.admin_token = Some(" tok ".to_string());
    assert_eq!(configured_admin_token(&cfg).as_deref(), Some("tok"));
}

#[test]
fn authorities_compare_host_case_insensitively_with_ports() {
    assert_eq!(s(host_without_port("Example.com:8080")), "Example.com");
    assert_eq!(s(host_without_port("[::1]:8080")), "::1");
    assert_eq!(s(host_without_port("::1")), "::1");
    assert_eq!(authority_port("example.com:8080"), Some(8080));
    assert_eq!(authority_port("[::1]:9000"), Some(9000));
    assert_eq!(authority_port("example.com"), None);
    assert!(same_authority("EXAMPLE.com:80", "example.COM:80"));
    assert!(!same_authority("example.com:80", "example.com:81"));
}

#[test]
fn csrf_origin_requires_same_management_authority() {
    let cfg = Config::default();
    let none: Vec<String> = Vec::new();
    assert!(csrf_origin_allowed(
        Some("http://127.0.0.1:8080"),
        None,
        Some("127.0.0.1:8080"),
        &cfg,
        true,
        &none
    ));
    assert!(!csrf_origin_allowed(
        Some("http://evil.test"),
        None,
        Some("127.0.0.1:8080"),
        &cfg,
        true,
        &none
    ));
    assert!(csrf_origin_allowed(None, None, Some("127.0.0.1:8080"), &cfg, true, &none));
    assert!(!csrf_origin_allowed(
        None,
        Some("http://127.0.0.1:8080/page"),
        None,
        &cfg,
        true,
        &none
    ));
}

#[test]
fn url_authority_keeps_explicit_ports_only() {
    assert_eq!(url_authority("http://127.0.0.1:8080/x").as_deref(), Some("127.0.0.1:8080"));
    assert_eq!(url_authority("https://example.com:443/").as_deref(), Some("example.com"));
    assert_eq!(url_authority("ftp://example.com/"), None);
    assert_eq!(url_authority("not a url"), None);
}

#[test]
fn admin_auth_exempts_absolute_form_proxy_requests() {
    assert!(is_auth_exempt_request(true, "/path"));
    assert!(is_auth_exempt_request(false, "/health"));
    assert!(!is_auth_exempt_request(false, "/admin/routes"));
}

#[test]
fn safe_methods_do_not_change_state() {
    assert!(!is_state_changing_admin_request("GET"));
    assert!(!is_state_changing_admin_request("OPTIONS"));
    assert!(is_state_changing_admin_request("POST"));
    assert!(is_state_changing_admin_request("DELETE"));
}

#[test]
fn header_tokens_are_read_from_admin_header_or_bearer() {
    assert!(request_has_header_admin_token(Some(" s3cret "), None, "s3cret"));
    assert!(request_has_header_admin_token(None, Some("Bearer  s3cret"), "s3cret"));
    assert!(!request_has_header_admin_token(None, Some("bearer s3cret"), "s3cret"));
    assert!(!request_has_header_admin_token(Some("nope"), Some("Basic s3cret"), "s3cret"));
    assert!(request_has_header_admin_token(Some("nope"), Some("Bearer s3cret"), "s3cret"));
}

#[test]
fn request_tokens_also_come_from_cookie_or_query() {
    assert!(request_has_admin_token(None, None, Some("a=1; oproxy_admin_token=s3cret"), None, "s3cret"));
    assert!(request_has_admin_token(None, None, None, Some("x=1&token=s3cret"), "s3cret"));
    assert!(!request_has_admin_token(None, None, Some("other=s3cret"), Some("x=1"), "s3cret"));
    assert!(request_has_admin_token(Some("s3cret"), None, None, None, "s3cret"));
}

fn admin_request(method: &str, path: &str) -> AdminRequest {
    AdminRequest {
        method: method.to_string(),
        uri_has_scheme: false,
        path: path.to_string(),
        query: None,
        admin_header: None,
        authorization: None,
        cookie: None,
        origin: None,
        referer: None,
        host: Some("127.0.0.1:8080".to_string()),
        peer_is_loopback: true,
    }
}

#[test]
fn admin_guard_without_token_only_checks_origin() {
    let config = Config::default();
    let lan = vec![];
    assert_eq!(admin_access(&admin_request("GET", "/admin/sessions"), &config, &lan), AdminAccess::Pass);
    let mut post = admin_request("POST", "/admin/sessions");
    post.origin = Some("http://evil.test".to_string());
    assert_eq!(admin_access(&post, &config, &lan), AdminAccess::Forbidden);
    post.origin = Some("http://127.0.0.1:8080".to_string());
    assert_eq!(admin_access(&post, &config, &lan), AdminAccess::Pass);
}

#[test]
fn admin_guard_with_token_requires_it() {
    let mut config = Config::default();
    config.admin_token = Some(" s3cret ".to_string());
    let lan = vec![];
    assert_eq!(admin_access(&admin_request("GET", "/admin/sessions"), &config, &lan), AdminAccess::Unauthorized);
    assert_eq!(admin_access(&admin_request("GET", "/health"), &config, &lan), AdminAccess::Pass);
    let mut with_header = admin_request("DELETE", "/admin/sessions");
    with_header.admin_header = Some("s3cret".to_string());
    with_header.origin = Some("http://evil.test".to_string());
    assert_eq!(admin_access(&with_header, &config, &lan), AdminAccess::Pass);
    let mut with_query = admin_request("GET", "/");
    with_query.query = Some("token=s3cret".to_string());
    assert_eq!(
        admin_access(&with_query, &config, &lan),
        AdminAccess::PassSettingCookie("oproxy_admin_token=s3cret; HttpOnly; SameSite=Strict; Path=/".to_string())
    );
    let mut cookie_post = admin_request("POST", "/admin/x");
    cookie_post.cookie = Some("oproxy_admin_token=s3cret".to_string());
    cookie_post.origin = Some("http://evil.test".to_string());
    assert_eq!(admin_access(&cookie_post, &config, &lan), AdminAccess::Forbidden);
}

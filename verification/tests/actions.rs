use oproxy::actions::{
    apply_collection_action, collection_route, delete_dns_override, CollectionOutcome, CollectionRoute, mutate_collection, CollectionItem};
use oproxy::json::JsonValue;
use oproxy::actions::{
    classify_action_risk, clean_host_token, normalize_destination_origin, normalize_source_host,
    path_id, risk_category, split_host_port, AssistantActionRisk, DirectActionRoute,
};

#[test]
fn direct_routes_are_allowlisted_by_method_and_endpoint() {
    assert_eq!(DirectActionRoute::classify("POST", "/admin/dns"), Some(DirectActionRoute::Dns));
    assert_eq!(
        DirectActionRoute::classify("DELETE", "/admin/sessions"),
        Some(DirectActionRoute::ClearSessions)
    );
    assert_eq!(
        DirectActionRoute::classify("POST", "/admin/forward/websocket"),
        Some(DirectActionRoute::ForwardWebSocket)
    );
    assert_eq!(DirectActionRoute::classify("GET", "/admin/dns"), None);
    assert_eq!(DirectActionRoute::classify("post", "/admin/dns"), None);
    assert_eq!(DirectActionRoute::classify("POST", "/admin/sessions"), None);
}

#[test]
fn risk_defaults_to_mutate_without_a_route_contract() {
    assert_eq!(classify_action_risk("GET", "/admin/config"), AssistantActionRisk::Mutate);
    assert_eq!(classify_action_risk("POST", "/admin/throttling"), AssistantActionRisk::Mutate);
    assert_eq!(classify_action_risk("DELETE", "/admin/sessions"), AssistantActionRisk::Destructive);
    assert_eq!(classify_action_risk("POST", "/admin/playback"), AssistantActionRisk::Network);
    assert_eq!(classify_action_risk("PUT", "/admin/mock/rules/r1"), AssistantActionRisk::Mutate);
    assert_eq!(classify_action_risk("DELETE", "/admin/dns/api.test"), AssistantActionRisk::Destructive);
    assert_eq!(risk_category(AssistantActionRisk::Destructive), "destructive");
}

#[test]
fn path_ids_follow_the_collection_prefix() {
    assert_eq!(path_id("/admin/rule-sets/abc", "/admin/rule-sets").as_deref(), Some("abc"));
    assert_eq!(path_id("/admin/rule-sets/", "/admin/rule-sets"), None);
    assert_eq!(path_id("/admin/rule-sets", "/admin/rule-sets"), None);
    assert_eq!(path_id("/admin/rule-setsabc", "/admin/rule-sets"), None);
    assert_eq!(path_id("/admin/mock/a/b", "/admin/mock").as_deref(), Some("a/b"));
}

#[test]
fn host_tokens_lose_quotes_and_sentence_punctuation() {
    assert_eq!(clean_host_token("  \"api.test.com\". "), "api.test.com");
    assert_eq!(clean_host_token("(<api.test.com>)?"), "api.test.com");
    assert_eq!(clean_host_token("..."), "");
    assert_eq!(clean_host_token("a.b"), "a.b");
}

#[test]
fn host_and_port_split_at_the_last_colon() {
    assert_eq!(split_host_port("api.test.com:8080"), ("api.test.com".to_string(), Some(8080)));
    assert_eq!(split_host_port("api.test.com"), ("api.test.com".to_string(), None));
    assert_eq!(split_host_port("api.test.com:99999"), ("api.test.com:99999".to_string(), None));
    assert_eq!(split_host_port("::1:80"), ("::1:80".to_string(), None));
    assert_eq!(split_host_port("h:+80"), ("h".to_string(), Some(80)));
}

#[test]
fn propose_map_remote_normalizes_ports_and_existing_scheme() {
    let source = normalize_source_host("http://api.test.com:8080/v1").unwrap();
    let (host, port) = split_host_port(&source);
    assert_eq!(host, "api.test.com");
    assert_eq!(port, Some(8080));
    assert_eq!(normalize_destination_origin("http://localhost:3000").unwrap(), "http://localhost:3000");
}

#[test]
fn source_hosts_and_destinations_normalise() {
    assert_eq!(normalize_source_host("api.test.com").unwrap(), "api.test.com");
    assert_eq!(normalize_source_host("api.test.com/path.").unwrap(), "api.test.com");
    assert_eq!(normalize_source_host("https://api.test.com:443/").unwrap(), "api.test.com");
    assert_eq!(normalize_source_host("  '' ").unwrap_err(), "source host is required");
    assert!(normalize_source_host("http://").unwrap_err().starts_with("invalid source URL: "));
    assert_eq!(normalize_destination_origin("localhost:3000").unwrap(), "https://localhost:3000");
    assert_eq!(normalize_destination_origin("example.com.").unwrap(), "https://example.com");
    assert_eq!(normalize_destination_origin("").unwrap_err(), "destination is required");
    assert!(normalize_destination_origin("https://").unwrap_err().starts_with("invalid destination URL: "));
}

fn rule(id: &str, name: &str) -> CollectionItem {
    CollectionItem { id: id.to_string(), rule: JsonValue::Str(name.to_string()) }
}

fn ids(items: &[CollectionItem]) -> Vec<String> {
    items.iter().map(|x| x.id.clone()).collect()
}

#[test]
fn collection_post_appends_under_a_fresh_id() {
    let mut items = vec![rule("a", "first")];
    let created = mutate_collection(
        "POST",
        "/admin/rule-sets",
        "/admin/rule-sets",
        "rule_sets",
        &mut items,
        Ok(JsonValue::Str("second".to_string())),
        "new-id".to_string(),
    )
    .unwrap()
    .unwrap();
    assert_eq!(created.id, "new-id");
    assert_eq!(ids(&items), vec!["a", "new-id"]);
}

#[test]
fn collection_put_replaces_the_rule_with_that_id() {
    let mut items = vec![rule("a", "first"), rule("b", "second")];
    let r = mutate_collection(
        "PUT",
        "/admin/rule-sets/b",
        "/admin/rule-sets",
        "rule_sets",
        &mut items,
        Ok(JsonValue::Str("changed".to_string())),
        "unused".to_string(),
    );
    assert!(matches!(r, Ok(None)));
    assert_eq!(ids(&items), vec!["a", "b"]);
    assert!(matches!(&items[1].rule, JsonValue::Str(s) if s == "changed"));
    let err = mutate_collection(
        "PUT",
        "/admin/rule-sets/zzz",
        "/admin/rule-sets",
        "rule_sets",
        &mut items,
        Ok(JsonValue::Null),
        "unused".to_string(),
    )
    .unwrap_err();
    assert_eq!(err, "rule_sets item not found");
}

#[test]
fn collection_delete_removes_every_rule_with_that_id() {
    let mut items = vec![rule("a", "1"), rule("b", "2"), rule("a", "3")];
    let r = mutate_collection(
        "DELETE",
        "/admin/map-remote-rules/a",
        "/admin/map-remote-rules",
        "map_remote",
        &mut items,
        Err(String::new()),
        "unused".to_string(),
    );
    assert!(matches!(r, Ok(None)));
    assert_eq!(ids(&items), vec!["b"]);
    let err = mutate_collection(
        "DELETE",
        "/admin/map-remote-rules/a",
        "/admin/map-remote-rules",
        "map_remote",
        &mut items,
        Err(String::new()),
        "unused".to_string(),
    )
    .unwrap_err();
    assert_eq!(err, "map_remote item not found");
    assert_eq!(ids(&items), vec!["b"]);
}

#[test]
fn collection_rejects_bad_endpoints_methods_and_payloads() {
    let mut items = vec![rule("a", "1")];
    let call = |items: &mut Vec<CollectionItem>, method: &str, endpoint: &str, payload: Result<JsonValue, String>| {
        mutate_collection(method, endpoint, "/admin/access-rules", "access", items, payload, "n".to_string())
    };
    assert_eq!(call(&mut items, "PUT", "/admin/other", Ok(JsonValue::Null)).unwrap_err(), "access item endpoint is invalid");
    assert_eq!(call(&mut items, "PATCH", "/admin/access-rules/a", Ok(JsonValue::Null)).unwrap_err(), "unsupported access method");
    assert_eq!(
        call(&mut items, "POST", "/admin/access-rules", Err("missing field `name`".to_string())).unwrap_err(),
        "invalid assistant action payload: missing field `name`"
    );
    assert_eq!(ids(&items), vec!["a"]);
}

#[test]
fn action_risk_classification_marks_dangerous_work() {
    assert!(matches!(
        classify_action_risk("POST", "/admin/rule-sets"),
        AssistantActionRisk::Mutate
    ));
    assert!(matches!(
        classify_action_risk("POST", "/admin/forward"),
        AssistantActionRisk::Network
    ));
    assert!(matches!(
        classify_action_risk("DELETE", "/admin/rule-sets/abc"),
        AssistantActionRisk::Destructive
    ));
}

fn dns_items() -> Vec<CollectionItem> {
    vec![
        CollectionItem { id: "a.test".to_string(), rule: JsonValue::Str("10.0.0.1".to_string()) },
        CollectionItem { id: "b.test".to_string(), rule: JsonValue::Str("10.0.0.2".to_string()) },
    ]
}

#[test]
fn actions_are_routed_to_their_collection() {
    assert_eq!(collection_route("DELETE", "/admin/dns/a.test"), Ok(CollectionRoute::Dns));
    assert_eq!(collection_route("POST", "/admin/rule-sets"), Ok(CollectionRoute::RuleSets));
    assert_eq!(collection_route("PUT", "/admin/mock/rules/m1"), Ok(CollectionRoute::Mock));
    assert_eq!(collection_route("DELETE", "/admin/webhooks/w1"), Ok(CollectionRoute::Webhooks));
    assert_eq!(
        collection_route("POST", "/admin/throttling"),
        Err("assistant action endpoint is not executable".to_string())
    );
    assert_eq!(
        collection_route("GET", "/admin/rule-sets"),
        Err("assistant action endpoint is not executable".to_string())
    );
}

#[test]
fn dns_override_is_deleted_by_host() {
    let mut items = dns_items();
    assert_eq!(delete_dns_override("DELETE", "/admin/dns/a.test", &mut items), Ok(()));
    assert_eq!(items.len(), 1);
    assert_eq!(items[0].id, "b.test");
    assert_eq!(
        delete_dns_override("DELETE", "/admin/dns/a.test", &mut items),
        Err("DNS override not found".to_string())
    );
    assert_eq!(
        delete_dns_override("PUT", "/admin/dns/b.test", &mut items),
        Err("DNS item endpoint supports DELETE only".to_string())
    );
    assert_eq!(
        delete_dns_override("POST", "/admin/dns", &mut items),
        Err("DNS collection replacement is handled as a direct action".to_string())
    );
    assert_eq!(items.len(), 1);
}

#[test]
fn collection_actions_apply_or_go_to_their_executor() {
    let mut items = dns_items();
    let out = apply_collection_action(
        CollectionRoute::Access,
        "POST",
        "/admin/access-rules",
        &mut items,
        Ok(JsonValue::Bool(true)),
        "new-1".to_string(),
    );
    assert!(matches!(out, Ok(CollectionOutcome::Applied(Some(ref c))) if c.id == "new-1"));
    assert_eq!(items.len(), 3);
    let out = apply_collection_action(
        CollectionRoute::Mock,
        "POST",
        "/admin/mock/rules",
        &mut items,
        Ok(JsonValue::Null),
        "x".to_string(),
    );
    assert!(matches!(out, Ok(CollectionOutcome::Dedicated)));
    assert_eq!(items.len(), 3);
    let out = apply_collection_action(
        CollectionRoute::Dns,
        "DELETE",
        "/admin/dns/b.test",
        &mut items,
        Ok(JsonValue::Null),
        "x".to_string(),
    );
    assert!(matches!(out, Ok(CollectionOutcome::Applied(None))));
    assert_eq!(items.len(), 2);
}

use oproxy::contracts::{static_tool_contracts, StaticAssistantTool};
use oproxy::json::JsonValue;
use oproxy::tools::{
    location_summary, non_empty_string_arg, normalize_dns_host, optional_u64_arg,
    parse_string_array_arg, title_case,
};

fn args(entries: Vec<(&str, JsonValue)>) -> JsonValue {
    JsonValue::Object(entries.into_iter().map(|(k, v)| (k.to_string(), v)).collect())
}

#[test]
fn every_model_tool_has_an_executor() {
    for contract in static_tool_contracts() {
        assert!(
            StaticAssistantTool::from_name(&contract.name).is_some(),
            "model tool '{}' is exposed but has no executor arm",
            contract.name
        );
    }
}

#[test]
fn dns_hosts_are_cleaned_and_lowercased() {
    assert_eq!(normalize_dns_host("  \"API.Test.COM\". ").unwrap(), "api.test.com");
    assert_eq!(normalize_dns_host(" ;'' ").unwrap_err(), "DNS override host is required");
    assert_eq!(
        normalize_dns_host("api.test.com/path").unwrap_err(),
        "DNS override host must be a clean hostname"
    );
    assert_eq!(
        normalize_dns_host("api test.com").unwrap_err(),
        "DNS override host must be a clean hostname"
    );
    assert_eq!(
        normalize_dns_host(&"a".repeat(256)).unwrap_err(),
        "DNS override host must be a clean hostname"
    );
    assert_eq!(normalize_dns_host(&"a".repeat(255)).unwrap(), "a".repeat(255));
}

#[test]
fn location_summaries_read_naturally() {
    let methods = vec!["GET".to_string(), "POST".to_string()];
    assert_eq!(location_summary(Some("api.test.com"), Some("/v1"), &methods), "GET,POST api.test.com /v1");
    assert_eq!(location_summary(None, Some("/v1"), &vec![]), "/v1");
    assert_eq!(location_summary(None, None, &vec![]), "matching traffic");
    assert_eq!(location_summary(Some("h"), None, &vec!["PUT".to_string()]), "PUT h");
}

#[test]
fn title_case_upper_cases_the_first_letter() {
    assert_eq!(title_case("mutate"), "Mutate");
    assert_eq!(title_case(""), "");
    assert_eq!(title_case("élan"), "élan");
    assert_eq!(title_case("x"), "X");
}

#[test]
fn optional_u64_arg_reads_non_negative_integers() {
    let a = args(vec![
        ("delay_ms", JsonValue::Number("250".to_string())),
        ("none", JsonValue::Null),
        ("neg", JsonValue::Number("-3".to_string())),
        ("frac", JsonValue::Number("1.5".to_string())),
        ("big", JsonValue::Number("18446744073709551616".to_string())),
        ("text", JsonValue::Str("7".to_string())),
    ]);
    assert_eq!(optional_u64_arg(&a, "delay_ms"), Ok(Some(250)));
    assert_eq!(optional_u64_arg(&a, "missing"), Ok(None));
    assert_eq!(optional_u64_arg(&a, "none"), Ok(None));
    assert_eq!(
        optional_u64_arg(&a, "neg"),
        Err("neg must be a non-negative integer".to_string())
    );
    assert!(optional_u64_arg(&a, "frac").is_err());
    assert!(optional_u64_arg(&a, "big").is_err());
    assert_eq!(
        optional_u64_arg(&a, "text"),
        Err("text must be a non-negative integer".to_string())
    );
    assert_eq!(
        optional_u64_arg(&JsonValue::Null, "delay_ms"),
        Ok(None)
    );
}

#[test]
fn non_empty_string_arg_trims_and_drops_blank() {
    let a = args(vec![
        ("host", JsonValue::Str("  api.test.com ".to_string())),
        ("blank", JsonValue::Str(" \t ".to_string())),
        ("num", JsonValue::Number("1".to_string())),
    ]);
    assert_eq!(non_empty_string_arg(&a, "host"), Some("api.test.com".to_string()));
    assert_eq!(non_empty_string_arg(&a, "blank"), None);
    assert_eq!(non_empty_string_arg(&a, "num"), None);
    assert_eq!(non_empty_string_arg(&a, "missing"), None);
}

#[test]
fn parse_string_array_arg_keeps_trimmed_strings() {
    let v = JsonValue::Array(vec![
        JsonValue::Str(" GET ".to_string()),
        JsonValue::Number("3".to_string()),
        JsonValue::Str("".to_string()),
        JsonValue::Str("POST".to_string()),
    ]);
    assert_eq!(
        parse_string_array_arg(&v),
        Some(vec!["GET".to_string(), "POST".to_string()])
    );
    assert_eq!(parse_string_array_arg(&JsonValue::Array(vec![])), Some(vec![]));
    assert_eq!(parse_string_array_arg(&JsonValue::Str("GET".to_string())), None);
}

use oproxy::assistant::{
    attached_session_id, has_explicit_attachment, parse_tool_arguments, tool_argument_text,
};
use oproxy::compat::{
    field_score, leaf_equal, score_eval_case, EvalCaseSpec, EvalScore, ExpectedActionSpec,
};
use oproxy::fingerprint::{action_state_precondition, canonicalize_value, stable_value_hash};
use oproxy::json::JsonValue;
use oproxy::tools::tool_summary;

fn convert(v: &serde_json::Value) -> JsonValue {
    match v {
        serde_json::Value::Null => JsonValue::Null,
        serde_json::Value::Bool(b) => JsonValue::Bool(*b),
        serde_json::Value::Number(n) => JsonValue::Number(n.to_string()),
        serde_json::Value::String(s) => JsonValue::Str(s.clone()),
        serde_json::Value::Array(items) => JsonValue::Array(items.iter().map(convert).collect()),
        serde_json::Value::Object(map) => {
            JsonValue::Object(map.iter().map(|(k, v)| (k.clone(), convert(v))).collect())
        }
    }
}

fn doc(text: &str) -> JsonValue {
    convert(&serde_json::from_str::<serde_json::Value>(text).expect("test JSON"))
}

/// Reads a tool call's arguments the way the chat loop does: the argument
/// text (if any) through serde_json, then the library's decision.
fn args_of(call: &JsonValue) -> Result<JsonValue, String> {
    let parsed = match tool_argument_text(call) {
        Some(text) => serde_json::from_str::<serde_json::Value>(&text)
            .map(|v| convert(&v))
            .map_err(|e| e.to_string()),
        None => Err(String::new()),
    };
    parse_tool_arguments(call, &parsed)
}

fn text(v: &JsonValue) -> String {
    v.to_text()
}

/// The score percentage as the compatibility runner computes it.
fn percent(score: &EvalScore) -> u8 {
    let ratio = if score.fields_total > 0 {
        score.fields_matched as f64 / score.fields_total as f64
    } else {
        1.0
    };
    let s = if score.tool_ok { 0.5 + 0.5 * ratio } else { 0.0 };
    (s * 100.0).round() as u8
}

fn dns_case() -> EvalCaseSpec {
    EvalCaseSpec {
        id: "x".into(),
        prompt: "resolve api.test.com to 10.0.0.5".into(),
        expected_tool: "propose_dns_override".into(),
        args: doc(r#"{ "operation": "set", "host": "api.test.com", "ip": "10.0.0.5" }"#),
        expected_action: ExpectedActionSpec { endpoint: "/admin/dns".into(), payload: JsonValue::Null },
    }
}

fn score(case: &EvalCaseSpec, calls: &Vec<JsonValue>) -> EvalScore {
    let parsed = match calls.first().and_then(tool_argument_text) {
        Some(text) => serde_json::from_str::<serde_json::Value>(&text)
            .map(|v| convert(&v))
            .map_err(|e| e.to_string()),
        None => Err(String::new()),
    };
    score_eval_case(case, calls, &parsed)
}

#[test]
fn tool_summary_describes_common_payload_shapes() {
    assert_eq!(tool_summary(&doc(r#"{ "a": 1, "b": 2 }"#)), "2 fields returned");
    assert_eq!(tool_summary(&doc("[1, 2, 3]")), "3 items returned");
    assert_eq!(tool_summary(&doc("true")), "tool result returned");
}

#[test]
fn lenient_leaf_compare_handles_case_numbers_and_booleans() {
    assert!(leaf_equal(&doc(r#""API.TEST.COM""#), &doc(r#""api.test.com""#)));
    assert!(leaf_equal(&doc("500"), &doc(r#""500""#)));
    assert!(leaf_equal(&doc("true"), &doc(r#""yes""#)));
    assert!(!leaf_equal(&doc(r#""get""#), &doc(r#""post""#)));
}

#[test]
fn leaf_compare_treats_false_synonyms_alike() {
    assert!(leaf_equal(&doc("false"), &doc(r#"" Off ""#)));
    assert!(leaf_equal(&doc("0"), &doc(r#""no""#)));
    assert!(!leaf_equal(&doc("true"), &doc(r#""no""#)));
    assert!(leaf_equal(&doc("null"), &doc(r#""NULL""#)));
}

#[test]
fn field_score_walks_objects_and_arrays() {
    let expected = doc(r#"{ "a": [1, "x"], "b": { "c": true } }"#);
    let actual = doc(r#"{ "a": ["1", "X", 3], "b": { "c": "on" } }"#);
    assert_eq!(field_score(&expected, &actual), (3, 3));
    assert_eq!(field_score(&expected, &doc("{}")), (0, 3));
    assert_eq!(field_score(&doc("[]"), &actual), (0, 0));
}

#[test]
fn malformed_tool_arguments_return_explicit_error() {
    let err = args_of(&doc(
        r#"{ "function": { "name": "list_sessions", "arguments": "{not json" } }"#,
    ))
    .expect_err("invalid JSON should be reported");
    assert!(err.contains("invalid JSON"));
}

#[test]
fn missing_tool_arguments_default_to_empty_object() {
    let args = args_of(&doc(r#"{ "function": { "name": "get_config" } }"#)).expect("missing arguments");
    assert_eq!(text(&args), "{}");
}

#[test]
fn object_form_tool_arguments_are_accepted() {
    let args = args_of(&doc(
        r#"{ "function": { "name": "list_sessions", "arguments": { "q": "host:api.test.com", "limit": 5 } } }"#,
    ))
    .expect("object arguments");
    assert_eq!(text(&args), text(&doc(r#"{ "q": "host:api.test.com", "limit": 5 }"#)));
}

#[test]
fn empty_and_null_tool_arguments_default_to_empty_object() {
    let from_empty = args_of(&doc(r#"{ "function": { "name": "get_config", "arguments": "" } }"#))
        .expect("empty-string arguments");
    assert_eq!(text(&from_empty), "{}");
    let from_whitespace =
        args_of(&doc(r#"{ "function": { "name": "get_config", "arguments": "  \n " } }"#))
            .expect("whitespace arguments");
    assert_eq!(text(&from_whitespace), "{}");
    let from_null = args_of(&doc(r#"{ "function": { "name": "get_config", "arguments": null } }"#))
        .expect("null arguments");
    assert_eq!(text(&from_null), "{}");
}

#[test]
fn string_tool_arguments_are_read_as_json() {
    let args = args_of(&doc(
        r#"{ "function": { "name": "get_session", "arguments": " {\"id\": \"abc\"} " } }"#,
    ))
    .expect("string arguments");
    assert_eq!(text(&args), r#"{"id":"abc"}"#);
}

#[test]
fn scalar_tool_arguments_are_refused() {
    let err = args_of(&doc(r#"{ "function": { "name": "get_config", "arguments": 7 } }"#))
        .expect_err("number arguments");
    assert_eq!(err, "assistant tool arguments must be a JSON object or string, got 7");
}

#[test]
fn null_client_attachment_does_not_suppress_selected_session() {
    assert!(!has_explicit_attachment(Some(&doc(r#"{ "attachment": null }"#))));
    assert!(has_explicit_attachment(Some(&doc(
        r#"{ "attachment": { "kind": "session", "id": "right-clicked-request" } }"#
    ))));
}

#[test]
fn session_attachment_supplies_authoritative_session_id() {
    assert_eq!(
        attached_session_id(Some(&doc(
            r#"{ "attachment": { "kind": "session", "id": "right-clicked-request" } }"#
        ))),
        Some("right-clicked-request".to_string())
    );
    assert_eq!(
        attached_session_id(Some(&doc(
            r#"{ "attachment": { "kind": "header", "id": "not-a-session" } }"#
        ))),
        None
    );
}

#[test]
fn session_attachment_id_is_trimmed_and_bounded() {
    assert_eq!(
        attached_session_id(Some(&doc(r#"{ "attachment": { "kind": "session", "id": "  abc " } }"#))),
        Some("abc".to_string())
    );
    assert_eq!(
        attached_session_id(Some(&doc(r#"{ "attachment": { "kind": "session", "id": "   " } }"#))),
        None
    );
    let long = format!(r#"{{ "attachment": {{ "kind": "session", "id": "{}" }} }}"#, "a".repeat(257));
    assert_eq!(attached_session_id(Some(&doc(&long))), None);
    assert_eq!(attached_session_id(None), None);
}

#[test]
fn stable_value_hash_is_independent_of_object_key_order() {
    let left = doc(r#"{ "b": 2, "a": { "d": 4, "c": 3 } }"#);
    let right = doc(r#"{ "a": { "c": 3, "d": 4 }, "b": 2 }"#);
    assert_eq!(stable_value_hash(&left), stable_value_hash(&right));
}

#[test]
fn canonical_form_orders_members_written_in_any_order() {
    let inner_a = JsonValue::Object(vec![
        ("d".to_string(), JsonValue::Number("4".to_string())),
        ("c".to_string(), JsonValue::Number("3".to_string())),
    ]);
    let left = JsonValue::Object(vec![
        ("b".to_string(), JsonValue::Number("2".to_string())),
        ("a".to_string(), inner_a),
    ]);
    assert_eq!(text(&canonicalize_value(&left)), r#"{"a":{"c":3,"d":4},"b":2}"#);
    let right = doc(r#"{ "a": { "c": 3, "d": 4 }, "b": 2 }"#);
    assert_eq!(stable_value_hash(&left), stable_value_hash(&right));
    assert_ne!(stable_value_hash(&left), stable_value_hash(&doc(r#"{ "a": 1 }"#)));
}

#[test]
fn fingerprint_is_hex_sha256_of_canonical_text() {
    assert_eq!(
        stable_value_hash(&doc("{}")),
        "44136fa355b3678a1146ad16f7e8649e94fb4fc21fe77e8310c060f61caaff8a"
    );
    let p = action_state_precondition("dns", &doc("{}"), "changed");
    assert_eq!(p.resource, "dns");
    assert_eq!(p.expected_hash, stable_value_hash(&doc("{}")));
    assert_eq!(p.message, "changed");
}

#[test]
fn json_text_escapes_strings() {
    let v = JsonValue::Array(vec![
        JsonValue::Str("a\"b\n".to_string()),
        JsonValue::Bool(false),
        JsonValue::Null,
    ]);
    assert_eq!(text(&v), "[\"a\\\"b\\n\",false,null]");
}

#[test]
fn right_tool_all_fields_scores_100() {
    let calls = vec![doc(
        r#"{ "function": { "name": "propose_dns_override", "arguments": "{\"operation\":\"set\",\"host\":\"api.test.com\",\"ip\":\"10.0.0.5\"}" } }"#,
    )];
    let result = score(&dns_case(), &calls);
    assert_eq!(percent(&result), 100, "{}", result.detail);
    assert!(percent(&result) == 100);
    assert_eq!(result.fields_matched, 3);
    assert_eq!(result.fields_total, 3);
}

#[test]
fn right_tool_partial_fields_scores_between_weight_and_100() {
    let calls = vec![doc(
        r#"{ "function": { "name": "propose_dns_override", "arguments": "{\"host\":\"api.test.com\"}" } }"#,
    )];
    let result = score(&dns_case(), &calls);
    assert!(!(percent(&result) == 100));
    assert_eq!(result.fields_matched, 1);
    assert_eq!(result.fields_total, 3);
    assert!(
        percent(&result) > 50 && percent(&result) < 100,
        "score was {}",
        percent(&result)
    );
}

#[test]
fn right_tool_no_fields_scores_only_tool_weight() {
    let calls = vec![doc(r#"{ "function": { "name": "propose_dns_override", "arguments": "{}" } }"#)];
    let result = score(&dns_case(), &calls);
    assert_eq!(percent(&result), 50, "{}", result.detail);
}

#[test]
fn score_accepts_propose_action_with_matching_endpoint() {
    let case = EvalCaseSpec {
        id: "x".into(),
        prompt: "resolve a to b".into(),
        expected_tool: "propose_dns_override".into(),
        args: JsonValue::Null,
        expected_action: ExpectedActionSpec { endpoint: "/admin/dns".into(), payload: JsonValue::Null },
    };
    let calls = vec![doc(
        r#"{ "function": { "name": "propose_action", "arguments": "{\"endpoint\":\"/admin/dns\"}" } }"#,
    )];
    let result = score(&case, &calls);
    assert!(percent(&result) == 100, "{}", result.detail);
}

#[test]
fn score_fails_on_wrong_tool() {
    let calls = vec![doc(r#"{ "function": { "name": "propose_throttling", "arguments": "{}" } }"#)];
    let result = score(&dns_case(), &calls);
    assert_eq!(percent(&result), 0);
    assert!(!(percent(&result) == 100));
    assert_eq!(result.called_tool.as_deref(), Some("propose_throttling"));
}

#[test]
fn score_details_name_the_outcome() {
    let none = score(&dns_case(), &Vec::new());
    assert_eq!(none.detail, "Model returned no tool call.");
    assert_eq!(none.called_tool, None);
    let wrong = score(
        &dns_case(),
        &vec![doc(r#"{ "function": { "name": "propose_action", "arguments": "{\"endpoint\":\"/admin/x\"}" } }"#)],
    );
    assert_eq!(
        wrong.detail,
        "Called propose_action targeting `/admin/x`, expected `/admin/dns` (or tool `propose_dns_override`)."
    );
    let partial = score(
        &dns_case(),
        &vec![doc(r#"{ "function": { "name": "propose_dns_override", "arguments": "{\"host\":\"api.test.com\"}" } }"#)],
    );
    assert_eq!(
        partial.detail,
        "Called expected tool `propose_dns_override`. Payload fields 1/3 correct."
    );
}

#[test]
fn tool_arguments_must_be_an_object() {
    let err = args_of(&doc(r#"{ "function": { "name": "get_config", "arguments": [1, 2] } }"#))
        .expect_err("array arguments");
    assert_eq!(err, "assistant tool arguments must be a JSON object or string, got [1,2]");
    let err = args_of(&doc(r#"{ "function": { "name": "get_config", "arguments": "[1]" } }"#))
        .expect_err("array text");
    assert_eq!(err, "assistant tool arguments must be a JSON object, got [1]");
    let err = args_of(&doc(r#"{ "function": { "name": "get_config", "arguments": " 5 " } }"#))
        .expect_err("number text");
    assert_eq!(err, "assistant tool arguments must be a JSON object, got 5");
}

#[test]
fn strings_are_quoted_as_serde_json_writes_them() {
    for s in ["plain", "quote \" and \\ backslash", "tab\tnew\nline\r\u{8}\u{c}", "\u{1}\u{1f}\u{7f} é ✓", ""] {
        let expected = serde_json::to_string(s).unwrap();
        assert_eq!(JsonValue::Str(s.to_string()).to_text(), expected);
    }
}

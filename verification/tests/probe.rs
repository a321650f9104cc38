use oproxy::compat::{
    finish, primary_priority_response_ok, secondary_fallback_response_ok, EvalCaseSpec,
    ExpectedActionSpec,
};
use oproxy::json::JsonValue;
use oproxy::probe::{
    context_primary_priority_messages, context_secondary_fallback_messages, eval_messages,
    eval_request_failed, first_named_tool_call, plain_messages, probe_tool_spec,
    tool_request_messages, CompatProbe, ProbeReply, ProbeRequest, ProbeStage,
};

fn content_of(message: &JsonValue) -> String {
    message.get("content").unwrap().as_str().unwrap().clone()
}

fn role_of(message: &JsonValue) -> String {
    message.get("role").unwrap().as_str().unwrap().clone()
}

fn named_call(name: &str) -> JsonValue {
    JsonValue::Object(vec![(
        "function".to_string(),
        JsonValue::Object(vec![
            ("name".to_string(), JsonValue::Str(name.to_string())),
            ("arguments".to_string(), JsonValue::Str("{}".to_string())),
        ]),
    )])
}

#[test]
fn context_priority_probe_messages_exercise_primary_and_fallback() {
    let primary_messages = context_primary_priority_messages();
    let primary_user = content_of(&primary_messages[1]);
    assert!(primary_user.contains("primary.example.com"));
    assert!(primary_user.contains("secondary.example.com"));
    assert!(primary_priority_response_ok("primary.example.com /primary"));
    assert!(!primary_priority_response_ok("secondary.example.com /secondary"));

    let fallback_messages = context_secondary_fallback_messages();
    let fallback_user = content_of(&fallback_messages[1]);
    assert!(fallback_user.contains("Primary is insufficient"));
    assert!(fallback_user.contains("fallback.example.com"));
    assert!(secondary_fallback_response_ok("fallback.example.com /secondary"));
    assert!(!secondary_fallback_response_ok("primary.example.com /primary"));
}

#[test]
fn probe_messages_have_system_then_user() {
    for messages in [
        plain_messages(),
        tool_request_messages(),
        context_primary_priority_messages(),
        context_secondary_fallback_messages(),
        eval_messages("resolve api.test.com to 10.0.0.5"),
    ] {
        assert_eq!(messages.len(), 2);
        assert_eq!(role_of(&messages[0]), "system");
        assert_eq!(role_of(&messages[1]), "user");
    }
    assert_eq!(
        content_of(&tool_request_messages()[1]),
        "Call the oproxy_probe_echo function with message set to the word ping."
    );
    assert_eq!(
        content_of(&eval_messages("resolve api.test.com to 10.0.0.5")[1]),
        "resolve api.test.com to 10.0.0.5"
    );
    assert_eq!(
        content_of(&plain_messages()[1]),
        "Reply with a brief confirmation that you are reachable."
    );
}

#[test]
fn probe_tool_spec_is_the_echo_function() {
    assert_eq!(
        probe_tool_spec().to_text(),
        "{\"type\":\"function\",\"function\":{\"name\":\"oproxy_probe_echo\",\"description\":\"Compatibility probe. Echo the provided message back verbatim.\",\"parameters\":{\"type\":\"object\",\"required\":[\"message\"],\"properties\":{\"message\":{\"type\":\"string\",\"description\":\"Text to echo back.\"}}}}}"
    );
}

#[test]
fn first_named_tool_call_skips_other_tools() {
    let calls = vec![named_call("read_rules"), named_call("oproxy_probe_echo"), named_call("oproxy_probe_echo")];
    let found = first_named_tool_call(&calls, "oproxy_probe_echo").unwrap();
    assert_eq!(found.to_text(), calls[1].to_text());
    assert!(first_named_tool_call(&calls, "propose_action").is_none());
    assert!(first_named_tool_call(&[], "oproxy_probe_echo").is_none());
    assert!(first_named_tool_call(&[JsonValue::Null], "oproxy_probe_echo").is_none());
}

#[test]
fn configuration_failure_finishes_at_once() {
    let (probe, request) = CompatProbe::start(Err("missing api key".to_string()));
    assert!(matches!(request, ProbeRequest::Finish));
    assert_eq!(probe.stage, ProbeStage::Done);
    assert_eq!(probe.checks.len(), 1);
    assert_eq!(probe.checks[0].id, "provider_config");
    assert!(!probe.checks[0].ok);
    assert_eq!(probe.checks[0].detail, "missing api key");
    assert_eq!(probe.checks[0].latency_ms, None);
}

#[test]
fn passing_every_check_runs_the_evals() {
    let (mut probe, request) = CompatProbe::start(Ok(()));
    assert_eq!(probe.checks[0].detail, "Base URL, model, and credentials accepted.");
    assert!(matches!(request, ProbeRequest::Text(ref m) if content_of(&m[0]).contains("connectivity probe")));

    let next = probe.step(ProbeReply::Text(Ok("  héllo  ".to_string())), 12);
    assert_eq!(probe.checks[1].id, "text_completion");
    assert!(probe.checks[1].ok);
    assert_eq!(probe.checks[1].detail, "Model returned text (6 chars).");
    assert_eq!(probe.checks[1].latency_ms, Some(12));
    match next {
        ProbeRequest::Text(m) => assert!(content_of(&m[1]).contains("primary.example.com")),
        other => panic!("unexpected request {other:?}"),
    }

    let next = probe.step(ProbeReply::Text(Ok("PRIMARY.example.com /primary".to_string())), 3);
    assert!(probe.checks[2].ok);
    assert_eq!(probe.stage, ProbeStage::SecondaryFallback);
    assert!(matches!(next, ProbeRequest::Text(ref m) if content_of(&m[1]).contains("fallback.example.com")));

    let next = probe.step(ProbeReply::Text(Ok("fallback.example.com /secondary".to_string())), 4);
    assert!(probe.checks[3].ok);
    match next {
        ProbeRequest::Tools(m, tools) => {
            assert!(content_of(&m[1]).contains("oproxy_probe_echo"));
            assert_eq!(tools.len(), 1);
        }
        other => panic!("unexpected request {other:?}"),
    }

    let next = probe.step(ProbeReply::ToolCalls(Ok(vec![named_call("oproxy_probe_echo")])), 5);
    assert!(matches!(next, ProbeRequest::RunEvals));
    assert_eq!(probe.stage, ProbeStage::Done);
    assert_eq!(probe.checks.len(), 5);
    assert_eq!(probe.checks[4].detail, "Model emitted a tool call.");

    let report = finish("m".to_string(), "http://x".to_string(), probe.checks, Vec::new(), true);
    assert!(report.compatible);
    assert_eq!(report.compatibility_percent, Some(100));
}

#[test]
fn empty_text_answer_fails_the_run() {
    let (mut probe, _) = CompatProbe::start(Ok(()));
    let next = probe.step(ProbeReply::Text(Ok(" \n ".to_string())), 7);
    assert!(matches!(next, ProbeRequest::Finish));
    assert!(!probe.checks[1].ok);
    assert_eq!(probe.checks[1].detail, "Model accepted the request but returned empty content.");
    let report = finish("m".to_string(), "u".to_string(), probe.checks, Vec::new(), false);
    assert!(!report.compatible);
    assert_eq!(report.compatibility_percent, None);
    assert_eq!(report.summary, "Not compatible. Failing required checks: Plain text completion.");
}

#[test]
fn wrong_priority_answer_reports_compacted_response() {
    let (mut probe, _) = CompatProbe::start(Ok(()));
    probe.step(ProbeReply::Text(Ok("ok".to_string())), 1);
    let next = probe.step(ProbeReply::Text(Ok("secondary.example.com\n\n  /secondary".to_string())), 2);
    assert!(matches!(next, ProbeRequest::Finish));
    assert_eq!(
        probe.checks[2].detail,
        "Model did not clearly prioritize primary context. Response: secondary.example.com /secondary"
    );
    assert_eq!(probe.checks[2].label, "Primary context priority");
}

#[test]
fn provider_errors_fail_the_check() {
    let (mut probe, _) = CompatProbe::start(Ok(()));
    let next = probe.step(ProbeReply::Text(Err("connection refused".to_string())), 9);
    assert!(matches!(next, ProbeRequest::Finish));
    assert_eq!(probe.checks[1].detail, "connection refused");

    let (mut probe, _) = CompatProbe::start(Ok(()));
    probe.step(ProbeReply::Text(Ok("hi".to_string())), 1);
    probe.step(ProbeReply::Text(Ok("primary.example.com /primary".to_string())), 1);
    probe.step(ProbeReply::Text(Ok("fallback.example.com /secondary".to_string())), 1);
    let next = probe.step(ProbeReply::ToolCalls(Err("400 tools unsupported".to_string())), 1);
    assert!(matches!(next, ProbeRequest::Finish));
    assert_eq!(
        probe.checks[4].detail,
        "Tool-calling request failed (model may not support `tools`): 400 tools unsupported"
    );
}

#[test]
fn missing_probe_tool_call_fails_tool_check() {
    let (mut probe, _) = CompatProbe::start(Ok(()));
    probe.step(ProbeReply::Text(Ok("hi".to_string())), 1);
    probe.step(ProbeReply::Text(Ok("primary.example.com /primary".to_string())), 1);
    probe.step(ProbeReply::Text(Ok("fallback.example.com /secondary".to_string())), 1);
    let next = probe.step(ProbeReply::ToolCalls(Ok(vec![named_call("read_rules")])), 1);
    assert!(matches!(next, ProbeRequest::Finish));
    assert!(!probe.checks[4].ok);
    assert_eq!(
        probe.checks[4].detail,
        "Model did not emit a tool call when explicitly instructed; it cannot drive read/action tools."
    );
}

#[test]
fn failed_eval_request_scores_zero() {
    let case = EvalCaseSpec {
        id: "x".to_string(),
        prompt: "resolve api.test.com to 10.0.0.5".to_string(),
        expected_tool: "propose_dns_override".to_string(),
        args: JsonValue::Null,
        expected_action: ExpectedActionSpec {
            endpoint: "/admin/dns".to_string(),
            payload: JsonValue::Null,
        },
    };
    let result = eval_request_failed(&case, "timeout", 30);
    assert_eq!(result.id, "x");
    assert_eq!(result.called_tool, None);
    assert!(!result.ok);
    assert_eq!(result.score_percent, 0);
    assert_eq!(result.detail, "Provider request failed: timeout");
    assert_eq!(result.latency_ms, Some(30));
}

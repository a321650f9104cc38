use oproxy::assistant::{
    constant_time_eq, context_priority, primary_subject_for_attached_session,
    session_filter_from_workspace, session_filter_from_workspace_context, SessionsViewState,
    SortDirection, WorkspaceSort,
};
use oproxy::compat::{
    context_priority_system_prompt, finish, primary_priority_response_ok,
    secondary_fallback_response_ok, CompatCheck, EvalResult,
};
use oproxy::listing::SessionSortDirection;

fn view() -> SessionsViewState {
    SessionsViewState {
        query: "host:api.test.com".to_string(),
        regex: true,
        methods: vec!["POST".to_string()],
        status_buckets: vec!["5".to_string()],
        host_focus: vec!["api.test.com".to_string()],
        host_filter: Some("api.test.com".to_string()),
        sort: WorkspaceSort { key: "status".to_string(), dir: SortDirection::Desc },
        selected_session_id: Some("s1".to_string()),
    }
}

#[test]
fn workspace_context_filter_preserves_backend_view_semantics() {
    let filter = session_filter_from_workspace_context(&view());
    assert_eq!(filter.query, "host:api.test.com");
    assert!(filter.regex);
    assert_eq!(filter.methods, Some(vec!["POST".to_string()]));
    assert_eq!(filter.status_buckets, Some(vec!["5".to_string()]));
    assert_eq!(filter.host_focus, vec!["api.test.com".to_string()]);
    assert_eq!(filter.host_filter.as_deref(), Some("api.test.com"));
    assert_eq!(filter.sort.key, "status");
    assert!(matches!(filter.sort.dir, SessionSortDirection::Desc));
}

#[test]
fn sessions_table_filter_adds_websocket_to_get() {
    let mut v = view();
    v.methods = vec!["get".to_string()];
    let filter = session_filter_from_workspace(&v);
    assert_eq!(filter.methods, Some(vec!["get".to_string(), "WS".to_string()]));
    v.methods = vec!["GET".to_string(), "ws".to_string()];
    let filter = session_filter_from_workspace(&v);
    assert_eq!(filter.methods, Some(vec!["GET".to_string(), "ws".to_string()]));
    v.methods = vec!["POST".to_string()];
    v.sort.dir = SortDirection::Asc;
    let filter = session_filter_from_workspace(&v);
    assert_eq!(filter.methods, Some(vec!["POST".to_string()]));
    assert!(matches!(filter.sort.dir, SessionSortDirection::Asc));
}

#[test]
fn session_attachment_builds_primary_subject_instruction() {
    let subject = primary_subject_for_attached_session("right-clicked-request");
    assert_eq!(subject.kind, "attached_session");
    assert_eq!(subject.session_id, "right-clicked-request");
    assert!(subject.instruction.contains("primary subject"));
    assert!(subject.instruction.contains("secondary context only to fill gaps"));
}

#[test]
fn context_priority_marks_ui_state_as_secondary() {
    let with_primary = context_priority(Some("right-clicked-request"));
    assert_eq!(
        with_primary.primary.as_deref(),
        Some("primary_subject selected_session for attached session right-clicked-request")
    );
    assert!(with_primary.secondary.contains(&"workspace.sessions_view".to_string()));
    assert!(with_primary.secondary.contains(&"visible_sessions".to_string()));
    assert!(with_primary.secondary.contains(&"client_hints.ui_state".to_string()));
    assert!(with_primary.rule.contains("Use primary context first"));
    assert!(with_primary.rule.contains("secondary only when primary is absent or not sufficient"));
    let without_primary = context_priority(None);
    assert!(without_primary.primary.is_none());
}

#[test]
fn confirmation_compare_is_constant_time_style() {
    assert!(constant_time_eq("abc", "abc"));
    assert!(!constant_time_eq("abc", "abd"));
    assert!(!constant_time_eq("abc", "abcd"));
    assert!(constant_time_eq("", ""));
    assert!(!constant_time_eq("é", "e"));
}

fn eval(id: &str, expected: &str, called: Option<&str>, score_percent: u8) -> EvalResult {
    EvalResult {
        id: id.into(),
        prompt: "p".into(),
        expected_tool: expected.into(),
        called_tool: called.map(str::to_string),
        ok: score_percent == 100,
        score_percent,
        fields_matched: 0,
        fields_total: 0,
        detail: String::new(),
        latency_ms: Some(1),
    }
}

#[test]
fn percentage_and_summary_reflect_eval_pass_rate() {
    let checks = vec![CompatCheck {
        id: "tool_calling".into(),
        label: "Tool calling".into(),
        required: true,
        ok: true,
        detail: String::new(),
        latency_ms: Some(1),
    }];
    // Mean of weighted scores: (100 + 100 + 0 + 50) / 4 = 62.5 -> 63.
    let evals = vec![
        eval("a", "t", Some("t"), 100),
        eval("b", "t", Some("t"), 100),
        eval("c", "t", Some("x"), 0),
        eval("d", "t", Some("t"), 50),
    ];
    let report = finish("m".into(), "u".into(), checks, evals, true);
    assert!(report.compatible);
    assert_eq!(report.compatibility_percent, Some(63));
    assert_eq!(report.evals_passed, 2);
    assert_eq!(report.avg_eval_latency_ms, Some(1));
    assert!(report.summary.contains("63%"));
    assert!(report.summary.contains("Avg latency"));
    assert_eq!(
        report.summary,
        "63% compatible — weighted across tool selection and payload-field correctness; 2 of 4 eval cases fully correct. Avg latency 1 ms/prompt."
    );
}

#[test]
fn percentage_is_none_when_gate_fails() {
    let checks = vec![CompatCheck {
        id: "text_completion".into(),
        label: "Plain text completion".into(),
        required: true,
        ok: false,
        detail: "boom".into(),
        latency_ms: Some(1),
    }];
    let report = finish("m".into(), "u".into(), checks, Vec::new(), false);
    assert!(!report.compatible);
    assert_eq!(report.compatibility_percent, None);
    assert!(report.summary.contains("Not compatible"));
    assert_eq!(report.summary, "Not compatible. Failing required checks: Plain text completion.");
}

#[test]
fn failing_labels_are_joined_and_recommended_checks_do_not_gate() {
    let checks = vec![
        CompatCheck::new("a", "First", true).fail("x".into(), None),
        CompatCheck::new("b", "Optional", false).fail("y".into(), Some(3)),
        CompatCheck::new("c", "Second", true),
    ];
    let report = finish("m".into(), "u".into(), checks, Vec::new(), false);
    assert_eq!(report.summary, "Not compatible. Failing required checks: First, Second.");
    let checks = vec![
        CompatCheck::new("a", "First", true).pass_config(),
        CompatCheck::new("b", "Optional", false),
    ];
    let report = finish("m".into(), "u".into(), checks, Vec::new(), false);
    assert!(report.compatible);
    assert_eq!(report.summary, "Required capability checks passed.");
    let report = finish("m".into(), "u".into(), Vec::new(), Vec::new(), true);
    assert_eq!(report.compatibility_percent, Some(100));
    assert_eq!(report.avg_eval_latency_ms, None);
    assert_eq!(
        report.summary,
        "100% compatible — weighted across tool selection and payload-field correctness; 0 of 0 eval cases fully correct."
    );
}

#[test]
fn average_latency_rounds_down_over_timed_evals() {
    let mut a = eval("a", "t", Some("t"), 100);
    a.latency_ms = Some(10);
    let mut b = eval("b", "t", Some("t"), 25);
    b.latency_ms = Some(5);
    let mut c = eval("c", "t", None, 0);
    c.latency_ms = None;
    let report = finish("m".into(), "u".into(), Vec::new(), vec![a, b, c], true);
    assert_eq!(report.avg_eval_latency_ms, Some(7));
    // (100 + 25 + 0) / 3 = 41.67 -> 42
    assert_eq!(report.compatibility_percent, Some(42));
}

#[test]
fn check_builders_set_outcome_and_latency() {
    let c = CompatCheck::new("id", "Label", true);
    assert!(!c.ok);
    assert!(c.detail.is_empty());
    let c = c.pass("fine".to_string(), 12);
    assert!(c.ok);
    assert_eq!(c.detail, "fine");
    assert_eq!(c.latency_ms, Some(12));
    let c = c.pass_config();
    assert_eq!(c.detail, "Base URL, model, and credentials accepted.");
}

#[test]
fn context_priority_probe_answers() {
    assert!(context_priority_system_prompt().contains("primary context is the user-intentionally attached request"));
    assert!(primary_priority_response_ok("PRIMARY.example.com /primary"));
    assert!(!primary_priority_response_ok("secondary.example.com /secondary"));
    assert!(!primary_priority_response_ok("primary.example.com /primary or secondary.example.com"));
    assert!(secondary_fallback_response_ok("fallback.example.com /secondary"));
    assert!(!secondary_fallback_response_ok("primary.example.com /primary"));
}

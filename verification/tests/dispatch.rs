use oproxy::contracts::{StaticAssistantTool, WorkspaceActionDefinition, WorkspaceActionRisk};
use oproxy::dispatch::{plan_tool_call, tool_route, ToolCallPlan, ToolRoute};
use oproxy::json::JsonValue;

fn s(v: &str) -> JsonValue {
    JsonValue::Str(v.to_string())
}

fn obj(entries: Vec<(&str, JsonValue)>) -> JsonValue {
    JsonValue::Object(entries.into_iter().map(|(k, v)| (k.to_string(), v)).collect())
}

fn call(name: &str, arguments: JsonValue) -> JsonValue {
    obj(vec![
        ("id", s("c1")),
        ("function", obj(vec![("name", s(name)), ("arguments", arguments)])),
    ])
}

fn workspace_actions() -> Vec<WorkspaceActionDefinition> {
    vec![WorkspaceActionDefinition {
        function_name: Some("workspace_set_filter".to_string()),
        category: "workspace".to_string(),
        risk: WorkspaceActionRisk::UiSafe,
        refreshed_resources: vec![],
    }]
}

#[test]
fn tools_route_to_their_executor() {
    let actions = workspace_actions();
    assert_eq!(
        tool_route("list_sessions", &actions),
        Ok(ToolRoute::Static(StaticAssistantTool::ListSessions))
    );
    assert_eq!(tool_route("workspace_set_filter", &actions), Ok(ToolRoute::Workspace(0)));
    assert_eq!(
        tool_route("rm_rf", &actions),
        Err("assistant tool 'rm_rf' is not declared or allowlisted".to_string())
    );
}

#[test]
fn unreadable_arguments_refuse_the_call_without_running_it() {
    let plan = plan_tool_call(
        &call("list_sessions", s("{not json")),
        &Err("key must be a string at line 1 column 2".to_string()),
        &workspace_actions(),
    );
    match plan {
        ToolCallPlan::Refused(p) => {
            assert_eq!(p.event.name, "list_sessions");
            assert_eq!(p.event.status, "error");
            assert_eq!(p.event.category, "unknown");
            assert!(p.event.summary.as_deref().unwrap().contains("invalid JSON"));
            assert!(p.proposed_action.is_none());
            assert_eq!(p.message.get("role").unwrap().as_str().unwrap(), "tool");
            assert_eq!(p.message.get("tool_call_id").unwrap().as_str().unwrap(), "c1");
        }
        other => panic!("unexpected {other:?}"),
    }
}

#[test]
fn undeclared_tool_is_refused() {
    match plan_tool_call(&call("rm_rf", s("{}")), &Ok(obj(vec![])), &workspace_actions()) {
        ToolCallPlan::Refused(p) => assert_eq!(
            p.event.summary.as_deref(),
            Some("assistant tool 'rm_rf' is not declared or allowlisted")
        ),
        other => panic!("unexpected {other:?}"),
    }
}

#[test]
fn declared_tool_runs_with_its_arguments() {
    match plan_tool_call(
        &call("get_session", s("{\"id\":\"abc\"}")),
        &Ok(obj(vec![("id", s("abc"))])),
        &workspace_actions(),
    ) {
        ToolCallPlan::Run(route, args) => {
            assert_eq!(route, ToolRoute::Static(StaticAssistantTool::GetSession));
            assert_eq!(args.to_text(), "{\"id\":\"abc\"}");
        }
        other => panic!("unexpected {other:?}"),
    }
}

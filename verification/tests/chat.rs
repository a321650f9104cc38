use oproxy::actions::AssistantActionRisk;
use oproxy::chat::{process_tool_call, ChatStep, ChatTurn, ToolOutcome, MAX_TOOL_LOOPS};
use oproxy::json::JsonValue;
use oproxy::pending::AssistantAction;

fn s(v: &str) -> JsonValue {
    JsonValue::Str(v.to_string())
}

fn obj(entries: Vec<(&str, JsonValue)>) -> JsonValue {
    JsonValue::Object(entries.into_iter().map(|(k, v)| (k.to_string(), v)).collect())
}

fn call(id: Option<&str>, name: &str) -> JsonValue {
    let mut entries = Vec::new();
    if let Some(id) = id {
        entries.push(("id", s(id)));
    }
    entries.push(("function", obj(vec![("name", s(name)), ("arguments", s("{}"))])));
    obj(entries)
}

fn proposal(id: &str) -> AssistantAction {
    AssistantAction {
        action_id: id.to_string(),
        confirmation_token: "tok".to_string(),
        kind: "dns".to_string(),
        summary: "Resolve api.test.com to 10.0.0.5".to_string(),
        risk: AssistantActionRisk::Network,
        endpoint: "/admin/dns".to_string(),
        method: "POST".to_string(),
        payload: JsonValue::Null,
        requires_confirmation: true,
        preconditions: Vec::new(),
    }
}

#[test]
fn read_tool_result_goes_back_as_tool_message() {
    let result = obj(vec![("total", JsonValue::Number("2".to_string()))]);
    let p = process_tool_call(&call(Some("c1"), "list_sessions"), ToolOutcome::Read(result));
    assert_eq!(p.event.name, "list_sessions");
    assert_eq!(p.event.category, "read");
    assert_eq!(p.event.status, "ok");
    assert_eq!(p.event.summary.as_deref(), Some("1 fields returned"));
    assert_eq!(
        p.message.to_text(),
        "{\"role\":\"tool\",\"tool_call_id\":\"c1\",\"content\":\"{\\\"total\\\":2}\"}"
    );
    assert!(p.proposed_action.is_none());
}

#[test]
fn proposed_action_needs_confirmation() {
    let p = process_tool_call(&call(None, "propose_dns_override"), ToolOutcome::Proposed(proposal("a1")));
    assert_eq!(p.event.category, "network");
    assert_eq!(p.event.status, "needs_confirmation");
    assert_eq!(p.event.summary.as_deref(), Some("Resolve api.test.com to 10.0.0.5"));
    assert_eq!(
        p.message.get("tool_call_id").unwrap().as_str().unwrap(),
        "tool_call"
    );
    assert_eq!(
        p.message.get("content").unwrap().as_str().unwrap(),
        "{\"status\":\"needs_confirmation\",\"action_id\":\"a1\",\"summary\":\"Resolve api.test.com to 10.0.0.5\"}"
    );
    assert_eq!(p.proposed_action.unwrap().action_id, "a1");
}

#[test]
fn failed_tool_reports_error() {
    let p = process_tool_call(&JsonValue::Null, ToolOutcome::Failed("bad args".to_string()));
    assert_eq!(p.event.name, "");
    assert_eq!(p.event.category, "unknown");
    assert_eq!(p.event.status, "error");
    assert_eq!(
        p.message.get("content").unwrap().as_str().unwrap(),
        "{\"error\":\"bad args\"}"
    );
    let w = process_tool_call(
        &call(Some("c2"), "workspace_filter"),
        ToolOutcome::Workspace("Filtered sessions".to_string(), obj(vec![("ok", JsonValue::Bool(true))])),
    );
    assert_eq!(w.event.category, "ui");
    assert_eq!(w.event.summary.as_deref(), Some("Filtered sessions"));
}

fn turn_of(step: ChatStep) -> ChatTurn {
    match step {
        ChatStep::AskWithTools(t) | ChatStep::AskTextOnly(t) => t,
        ChatStep::RunTools(t, _) => t,
        ChatStep::Answer(a) => panic!("turn ended early: {}", a.message),
    }
}

#[test]
fn answer_without_tool_calls_ends_the_turn() {
    let turn = turn_of(ChatTurn::start(vec![s("hi")]));
    match turn.on_answer("Hello there".to_string(), vec![], JsonValue::Null) {
        ChatStep::Answer(a) => {
            assert_eq!(a.message, "Hello there");
            assert!(a.tool_events.is_empty());
        }
        other => panic!("unexpected {other:?}"),
    }
}

#[test]
fn proposal_ends_the_turn_with_a_review_note() {
    let turn = turn_of(ChatTurn::start(vec![s("map a to b")]));
    let step = turn.on_answer("  ".to_string(), vec![call(Some("c1"), "propose_dns_override")], s("raw"));
    let (turn, calls) = match step {
        ChatStep::RunTools(t, calls) => (t, calls),
        other => panic!("unexpected {other:?}"),
    };
    assert_eq!(calls.len(), 1);
    assert_eq!(turn.messages.len(), 2);
    let processed = vec![process_tool_call(&calls[0], ToolOutcome::Proposed(proposal("a1")))];
    match turn.on_tools_done(processed) {
        ChatStep::Answer(a) => {
            assert_eq!(
                a.message,
                "I prepared the action below. Review it and click Apply when you want me to run it."
            );
            assert_eq!(a.tool_events.len(), 1);
            assert_eq!(a.proposed_actions.len(), 1);
        }
        other => panic!("unexpected {other:?}"),
    }
}

#[test]
fn tool_budget_ends_with_a_text_only_answer() {
    let mut step = ChatTurn::start(vec![s("explain")]);
    for round in 0..MAX_TOOL_LOOPS {
        let turn = match step {
            ChatStep::AskWithTools(t) => t,
            other => panic!("round {round}: unexpected {other:?}"),
        };
        let (turn, calls) = match turn.on_answer(String::new(), vec![call(Some("c"), "list_sessions")], s("raw")) {
            ChatStep::RunTools(t, c) => (t, c),
            other => panic!("unexpected {other:?}"),
        };
        let processed = vec![process_tool_call(&calls[0], ToolOutcome::Read(JsonValue::Array(vec![])))];
        step = turn.on_tools_done(processed);
    }
    let turn = match step {
        ChatStep::AskTextOnly(t) => t,
        other => panic!("unexpected {other:?}"),
    };
    assert_eq!(turn.rounds, MAX_TOOL_LOOPS);
    assert_eq!(turn.messages.len(), 1 + 2 * MAX_TOOL_LOOPS);
    assert_eq!(turn.tool_events.len(), MAX_TOOL_LOOPS);
    let answer = turn.on_final(Ok("   ".to_string()));
    assert_eq!(
        answer.message,
        "I gathered the available context but could not compose a final answer within the tool budget. Try narrowing the request."
    );
    assert_eq!(answer.tool_events.len(), MAX_TOOL_LOOPS);
}

#[test]
fn final_text_answer_is_kept() {
    let turn = turn_of(ChatTurn::start(vec![]));
    assert_eq!(turn.on_final(Ok("Here is what I found.".to_string())).message, "Here is what I found.");
    let turn = turn_of(ChatTurn::start(vec![]));
    assert!(turn.on_final(Err("timeout".to_string())).message.starts_with("I gathered"));
}

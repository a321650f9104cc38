use oproxy::actions::AssistantActionRisk;
use oproxy::json::JsonValue;
use oproxy::pending::{
    action_failure_status, AssistantAction, PendingActions, PendingError, ASSISTANT_ACTION_TTL_MS,
    MAX_PENDING_ACTIONS,
};

fn action(id: &str, token: &str) -> AssistantAction {
    AssistantAction {
        action_id: id.to_string(),
        confirmation_token: token.to_string(),
        kind: "dns".to_string(),
        summary: format!("Resolve {id}"),
        risk: AssistantActionRisk::Mutate,
        endpoint: "/admin/dns".to_string(),
        method: "POST".to_string(),
        payload: JsonValue::Object(vec![("a".to_string(), JsonValue::Bool(true))]),
        requires_confirmation: true,
        preconditions: Vec::new(),
    }
}

#[test]
fn confirmed_action_is_taken_once() {
    let mut store = PendingActions::new();
    store.register(action("a1", "t1"), 1_000);
    let taken = store.take("a1", "t1", 2_000).unwrap();
    assert_eq!(taken.action_id, "a1");
    assert_eq!(taken.summary, "Resolve a1");
    assert_eq!(store.take("a1", "t1", 2_000).unwrap_err(), PendingError::NotFound);
    assert_eq!(store.len(), 0);
}

#[test]
fn wrong_token_is_refused_and_action_keeps_waiting() {
    let mut store = PendingActions::new();
    store.register(action("a1", "t1"), 0);
    assert_eq!(store.take("a1", "nope", 10).unwrap_err(), PendingError::Forbidden);
    assert_eq!(store.cancel("a1", "nope", 10), Err(PendingError::Forbidden));
    assert_eq!(store.len(), 1);
    assert_eq!(store.cancel("a1", "t1", 10), Ok(()));
    assert_eq!(store.len(), 0);
    assert_eq!(store.cancel("a1", "t1", 10), Err(PendingError::NotFound));
}

#[test]
fn actions_expire_after_ten_minutes() {
    let mut store = PendingActions::new();
    store.register(action("a1", "t1"), 5_000);
    assert_eq!(ASSISTANT_ACTION_TTL_MS, 600_000);
    assert_eq!(
        store.take("a1", "t1", 5_000 + ASSISTANT_ACTION_TTL_MS).unwrap_err(),
        PendingError::NotFound
    );
    let mut store = PendingActions::new();
    store.register(action("a1", "t1"), 5_000);
    assert!(store.take("a1", "t1", 5_000 + ASSISTANT_ACTION_TTL_MS - 1).is_ok());
}

#[test]
fn a_full_store_drops_the_oldest_action() {
    let mut store = PendingActions::new();
    for i in 0..MAX_PENDING_ACTIONS {
        store.register(action(&format!("a{i}"), "t"), i as u64);
    }
    assert_eq!(store.len(), 50);
    store.register(action("new", "t"), 100);
    assert_eq!(store.len(), 50);
    assert_eq!(store.take("a0", "t", 100).unwrap_err(), PendingError::NotFound);
    assert!(store.take("a1", "t", 100).is_ok());
    assert!(store.take("new", "t", 100).is_ok());
}

#[test]
fn registering_the_same_id_replaces_the_entry() {
    let mut store = PendingActions::new();
    store.register(action("a1", "old"), 0);
    store.register(action("a1", "new"), 1);
    assert_eq!(store.len(), 1);
    assert_eq!(store.take("a1", "old", 2).unwrap_err(), PendingError::Forbidden);
    assert!(store.take("a1", "new", 2).is_ok());
}

#[test]
fn expired_entries_are_pruned() {
    let mut store = PendingActions::new();
    store.register(action("a1", "t"), 0);
    store.register(action("a2", "t"), 300_000);
    store.prune_expired(650_000);
    assert_eq!(store.len(), 1);
    assert!(store.take("a2", "t", 650_000).is_ok());
}

#[test]
fn refusals_have_status_and_message() {
    assert_eq!(PendingError::NotFound.status(), 404);
    assert_eq!(PendingError::NotFound.message(), "assistant action not found or expired");
    assert_eq!(PendingError::Forbidden.status(), 403);
    assert_eq!(PendingError::Forbidden.message(), "assistant action confirmation failed");
}

#[test]
fn failed_precondition_is_a_conflict() {
    assert_eq!(
        action_failure_status("assistant action precondition failed: DNS overrides changed"),
        409
    );
    assert_eq!(action_failure_status("invalid assistant action payload: x"), 422);
}

#[test]
fn duplicate_copies_every_field() {
    let a = action("a1", "t1");
    let b = a.duplicate();
    assert_eq!(b.action_id, a.action_id);
    assert_eq!(b.confirmation_token, a.confirmation_token);
    assert_eq!(b.endpoint, a.endpoint);
    assert_eq!(b.payload.to_text(), a.payload.to_text());
}

use oproxy::actions::{CollectionRoute, DirectActionRoute};
use oproxy::fingerprint::{stable_value_hash, AssistantActionPrecondition};
use oproxy::pending::{check_action_preconditions, plan_action, ActionTarget, WorkspaceSnapshot};

const EMPTY_OBJECT_HASH: &str = "44136fa355b3678a1146ad16f7e8649e94fb4fc21fe77e8310c060f61caaff8a";

fn snapshot() -> WorkspaceSnapshot {
    WorkspaceSnapshot {
        capture_filter: JsonValue::Object(vec![]),
        dns: JsonValue::Object(vec![]),
        throttling: JsonValue::Object(vec![("delay_ms".to_string(), JsonValue::Number("5".to_string()))]),
        upstream_proxy: JsonValue::Object(vec![("upstream_proxy".to_string(), JsonValue::Null)]),
    }
}

fn precondition(resource: &str, hash: &str, message: &str) -> AssistantActionPrecondition {
    AssistantActionPrecondition {
        resource: resource.to_string(),
        expected_hash: hash.to_string(),
        message: message.to_string(),
    }
}

#[test]
fn preconditions_hold_when_state_is_unchanged() {
    assert_eq!(stable_value_hash(&JsonValue::Object(vec![])), EMPTY_OBJECT_HASH);
    let ps = vec![
        precondition("dns", EMPTY_OBJECT_HASH, "DNS changed"),
        precondition("capture_filter", EMPTY_OBJECT_HASH, "filter changed"),
    ];
    assert_eq!(check_action_preconditions(&ps, &snapshot()), Ok(()));
}

#[test]
fn first_failing_precondition_fails_the_action() {
    let ps = vec![
        precondition("dns", EMPTY_OBJECT_HASH, "DNS changed"),
        precondition("throttling", EMPTY_OBJECT_HASH, "Throttling changed"),
        precondition("nope", EMPTY_OBJECT_HASH, "x"),
    ];
    assert_eq!(
        check_action_preconditions(&ps, &snapshot()),
        Err("assistant action precondition failed: Throttling changed".to_string())
    );
    let ps = vec![precondition("nope", EMPTY_OBJECT_HASH, "x")];
    assert_eq!(
        check_action_preconditions(&ps, &snapshot()),
        Err("assistant action precondition references unsupported resource 'nope'".to_string())
    );
}

#[test]
fn confirmed_actions_are_checked_and_routed() {
    let mut a = action("a1", "t");
    a.preconditions = vec![precondition("dns", EMPTY_OBJECT_HASH, "DNS changed")];
    assert_eq!(plan_action(&a, &snapshot()), Ok(ActionTarget::Direct(DirectActionRoute::Dns)));
    a.payload = JsonValue::Null;
    assert_eq!(
        plan_action(&a, &snapshot()),
        Err("assistant action payload is required".to_string())
    );
    a.method = "DELETE".to_string();
    a.endpoint = "/admin/dns/api.test".to_string();
    assert_eq!(plan_action(&a, &snapshot()), Ok(ActionTarget::Collection(CollectionRoute::Dns)));
    a.preconditions = vec![precondition("dns", "00", "DNS changed")];
    assert_eq!(
        plan_action(&a, &snapshot()),
        Err("assistant action precondition failed: DNS changed".to_string())
    );
    a.endpoint = "/admin/config".to_string();
    assert_eq!(
        plan_action(&a, &snapshot()),
        Err("assistant action endpoint is not executable".to_string())
    );
}

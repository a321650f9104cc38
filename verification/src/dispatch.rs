//! Which executor runs a tool call the model made: a workspace action, a
//! built-in tool, or none, in which case the call fails without running.
use vstd::prelude::*;
use crate::assistant::{parse_tool_arguments, tool_arguments_of};
use crate::chat::{process_tool_call, call_name_or_empty, call_id_of, ProcessedToolCall, ToolOutcome};
use crate::contracts::{
    contract_for_tool, execution_kind_label, find_contract, risk_label, static_contracts_spec,
    workspace_contracts_spec, AssistantToolExecutionKind, AssistantToolRisk, StaticAssistantTool,
    WorkspaceActionDefinition, static_tool_named,
};
use crate::json::{Json, JsonValue, json_text};
use crate::text::{chars_of, eq_chars, string_of};

verus! {

/// The executor of a tool: the workspace action at an index of the
/// offered actions, or a built-in tool.
#[derive(Debug, Clone, Copy, PartialEq, Eq, Structural)]
pub enum ToolRoute {
    Workspace(usize),
    Static(StaticAssistantTool),
}

/// The first offered workspace action whose function is named `name`.
pub open spec fn workspace_action_for(actions: Seq<WorkspaceActionDefinition>, name: Seq<char>) -> Option<int>
    decreases actions.len(),
{
    if actions.len() == 0 {
        None
    } else {
        match workspace_action_for(actions.drop_last(), name) {
            Some(i) => Some(i),
            None => if actions.last().function_name matches Some(n) && n@ == name {
                Some(actions.len() - 1)
            } else {
                None
            },
        }
    }
}

/// The label of an execution kind.
pub open spec fn kind_label_spec(k: AssistantToolExecutionKind) -> Seq<char> {
    match k {
        AssistantToolExecutionKind::Read => "read"@,
        AssistantToolExecutionKind::Workspace => "workspace"@,
        AssistantToolExecutionKind::Proposal => "proposal"@,
    }
}

/// The label of a tool risk.
pub open spec fn risk_label_spec(r: AssistantToolRisk) -> Seq<char> {
    match r {
        AssistantToolRisk::Read => "read"@,
        AssistantToolRisk::UiSafe => "ui_safe"@,
        AssistantToolRisk::UiSensitive => "ui_sensitive"@,
        AssistantToolRisk::Mutate => "mutate"@,
        AssistantToolRisk::Network => "network"@,
        AssistantToolRisk::Destructive => "destructive"@,
    }
}

/// The executor of the tool `name`: a tool without a contract is not
/// allowlisted; a tool that names a workspace action runs that action; a
/// built-in tool runs itself; a declared tool with neither has no
/// executor.
pub open spec fn tool_route_spec(name: Seq<char>, actions: Seq<WorkspaceActionDefinition>) -> Result<
    ToolRoute,
    Seq<char>,
> {
    match find_contract(static_contracts_spec() + workspace_contracts_spec(actions), name) {
        None => Err("assistant tool '"@ + name + "' is not declared or allowlisted"@),
        Some(c) => match workspace_action_for(actions, name) {
            Some(i) => Ok(ToolRoute::Workspace(i as usize)),
            None => if let Some(t) = static_tool_named(name) {
                Ok(ToolRoute::Static(t))
            } else {
                Err(
                    "assistant tool '"@ + name + "' is declared as "@ + kind_label_spec(c.execution_kind)
                        + " ("@ + risk_label_spec(c.risk) + ") but has no executor"@,
                )
            },
        },
    }
}

fn cat(parts: &Vec<&str>) -> (r: String)
    ensures
        r@ == parts@.fold_left(Seq::<char>::empty(), |acc: Seq<char>, p: &str| acc + p@),
{
    let mut v: Vec<char> = Vec::new();
    let mut i: usize = 0;
    while i < parts.len()
        invariant
            i <= parts@.len(),
            v@ == parts@.subrange(0, i as int).fold_left(
                Seq::<char>::empty(),
                |acc: Seq<char>, p: &str| acc + p@,
            ),
        decreases parts.len() - i,
    {
        let ghost pre = parts@.subrange(0, i as int);
        assert(parts@.subrange(0, i + 1).drop_last() =~= pre);
        v.extend_from_slice(chars_of(parts[i]).as_slice());
        i = i + 1;
    }
    assert(parts@.subrange(0, parts@.len() as int) =~= parts@);
    string_of(&v)
}

/// Finds the executor of the tool `name` among the built-in tools and the
/// offered workspace actions (see `tool_route_spec`).
pub fn tool_route(name: &str, actions: &Vec<WorkspaceActionDefinition>) -> (r: Result<ToolRoute, String>)
    ensures
        match r {
            Ok(route) => tool_route_spec(name@, actions@) == Ok::<ToolRoute, Seq<char>>(route),
            Err(e) => tool_route_spec(name@, actions@) == Err::<ToolRoute, Seq<char>>(e@),
        },
{
    let contract = match contract_for_tool(name, actions) {
        Some(c) => c,
        None => {
            let mut v = vec![];
            v.push("assistant tool '");
            v.push(name);
            v.push("' is not declared or allowlisted");
            let e = cat(&v);
            assert(e@ =~= "assistant tool '"@ + name@ + "' is not declared or allowlisted"@) by {
                reveal_with_fuel(Seq::fold_left, 4);
                assert(v@ =~= seq!["assistant tool '", name, "' is not declared or allowlisted"]);
            }
            return Err(e);
        },
    };
    let want = chars_of(name);
    let mut i: usize = 0;
    while i < actions.len()
        invariant
            i <= actions@.len(),
            want@ == name@,
            find_contract(static_contracts_spec() + workspace_contracts_spec(actions@), name@) is Some,
            workspace_action_for(actions@.subrange(0, i as int), name@) is None,
        decreases actions.len() - i,
    {
        let ghost next = actions@.subrange(0, i + 1);
        assert(next.drop_last() =~= actions@.subrange(0, i as int));
        let hit = match &actions[i].function_name {
            Some(n) => eq_chars(&chars_of(n.as_str()), &want),
            None => false,
        };
        if hit {
            proof {
                assert(next.last() == actions@[i as int]);
                assert(workspace_action_for(next, name@) == Some(i as int));
                lemma_workspace_action_prefix(actions@, i as int + 1, name@, i as int);
            }
            return Ok(ToolRoute::Workspace(i));
        }
        i = i + 1;
    }
    assert(actions@.subrange(0, actions@.len() as int) =~= actions@);
    match StaticAssistantTool::from_name(name) {
        Some(t) => Ok(ToolRoute::Static(t)),
        None => {
            let mut v = vec![];
            v.push("assistant tool '");
            v.push(name);
            v.push("' is declared as ");
            v.push(execution_kind_label(contract.execution_kind));
            v.push(" (");
            v.push(risk_label(contract.risk));
            v.push(") but has no executor");
            let e = cat(&v);
            assert(e@ =~= "assistant tool '"@ + name@ + "' is declared as "@ + kind_label_spec(
                contract.execution_kind,
            ) + " ("@ + risk_label_spec(contract.risk) + ") but has no executor"@) by {
                reveal_with_fuel(Seq::fold_left, 8);
            }
            Err(e)
        },
    }
}

proof fn lemma_workspace_action_prefix(actions: Seq<WorkspaceActionDefinition>, n: int, name: Seq<char>, k: int)
    requires
        1 <= n <= actions.len(),
        workspace_action_for(actions.subrange(0, n), name) == Some(k),
    ensures
        workspace_action_for(actions, name) == Some(k),
    decreases actions.len() - n,
{
    if n < actions.len() {
        assert(actions.subrange(0, n + 1).drop_last() =~= actions.subrange(0, n));
        lemma_workspace_action_prefix(actions, n + 1, name, k);
    } else {
        assert(actions.subrange(0, n) =~= actions);
    }
}

/// What becomes of a tool call before any tool runs: it runs on its
/// executor with its arguments, or it is refused with an error event.
#[derive(Debug)]
pub enum ToolCallPlan {
    Run(ToolRoute, JsonValue),
    Refused(ProcessedToolCall),
}

/// The call is refused with the error `e`: an `unknown`, `error` event
/// carrying `e`, no proposed action, and a tool message whose content is
/// `{"error": e}`.
pub open spec fn refused_with(p: ProcessedToolCall, call: Json, e: Seq<char>) -> bool {
    &&& p.event.name@ == call_name_or_empty(call)
    &&& p.event.category@ == "unknown"@
    &&& p.event.status@ == "error"@
    &&& p.event.summary matches Some(s) && s@ == e
    &&& p.proposed_action is None
    &&& p.message.model() == Json::Object(
        seq![
            ("role"@, Json::Str("tool"@)),
            ("tool_call_id"@, Json::Str(call_id_of(call))),
            ("content"@, Json::Str(json_text(Json::Object(seq![("error"@, Json::Str(e))])))),
        ],
    )
}

/// Decides a tool call the model made: its arguments must read as an
/// object (see `tool_arguments_of`, `parsed` being the JSON reader's
/// outcome on the argument text) and its tool must have an executor (see
/// `tool_route_spec`); otherwise the call is refused without running.
pub fn plan_tool_call(
    call: &JsonValue,
    parsed: &Result<JsonValue, String>,
    actions: &Vec<WorkspaceActionDefinition>,
) -> (r: ToolCallPlan)
    ensures
        ({
            let p = match parsed {
                Ok(v) => Ok(v.model()),
                Err(e) => Err(e@),
            };
            match tool_arguments_of(call.model(), p) {
                Err(e) => r matches ToolCallPlan::Refused(c) && refused_with(c, call.model(), e),
                Ok(a) => match tool_route_spec(call_name_or_empty(call.model()), actions@) {
                    Err(e) => r matches ToolCallPlan::Refused(c) && refused_with(c, call.model(), e),
                    Ok(route) => r matches ToolCallPlan::Run(rt, v) && rt == route && v.model() == a,
                },
            }
        }),
{
    let args = match parse_tool_arguments(call, parsed) {
        Ok(a) => a,
        Err(e) => {
            return ToolCallPlan::Refused(process_tool_call(call, ToolOutcome::Failed(e)));
        },
    };
    let name = call_name_text(call);
    match tool_route(name.as_str(), actions) {
        Ok(route) => ToolCallPlan::Run(route, args),
        Err(e) => ToolCallPlan::Refused(process_tool_call(call, ToolOutcome::Failed(e))),
    }
}

fn call_name_text(call: &JsonValue) -> (r: String)
    ensures
        r@ == call_name_or_empty(call.model()),
{
    match call.get("function") {
        Some(f) => match f.get("name") {
            Some(n) => match n.as_str() {
                Some(t) => t.clone(),
                None => String::new(),
            },
            None => String::new(),
        },
        None => String::new(),
    }
}

} // verus!

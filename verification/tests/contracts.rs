use oproxy::contracts::{
    all_tool_contracts, contract_for_tool, execution_kind_label, grouped_tool_contract_info,
    risk_label, static_tool_contracts, validate_assistant_contracts, workspace_risk,
    workspace_tool_contracts, AssistantToolExecutionKind, AssistantToolRisk, StaticAssistantTool,
    ToolInfo, WorkspaceActionDefinition, WorkspaceActionRisk,
};

/// A workspace catalogue in the shape the UI workspace registers its actions.
fn workspace_actions() -> Vec<WorkspaceActionDefinition> {
    vec![
        WorkspaceActionDefinition {
            function_name: Some("workspace_sessions_apply_filter".to_string()),
            category: "ui".to_string(),
            risk: WorkspaceActionRisk::UiSafe,
            refreshed_resources: vec!["sessions".to_string(), "workspace".to_string()],
        },
        WorkspaceActionDefinition {
            function_name: Some("workspace_select_session".to_string()),
            category: "ui".to_string(),
            risk: WorkspaceActionRisk::UiSensitive,
            refreshed_resources: vec!["workspace".to_string()],
        },
        WorkspaceActionDefinition {
            function_name: None,
            category: "ui".to_string(),
            risk: WorkspaceActionRisk::UiSafe,
            refreshed_resources: vec![],
        },
    ]
}

fn model_tool_names() -> Vec<String> {
    all_tool_contracts(&workspace_actions()).into_iter().map(|c| c.name).collect()
}

fn registry() -> Vec<ToolInfo> {
    vec![
        ToolInfo {
            name: "list_sessions".to_string(),
            description: "List captured sessions with filters".to_string(),
            category: "read".to_string(),
        },
        ToolInfo {
            name: "propose_action".to_string(),
            description: "Propose a confirmed workspace change".to_string(),
            category: "mutate".to_string(),
        },
        ToolInfo {
            name: "workspace_sessions_apply_filter".to_string(),
            description: "Apply a filter to the sessions view".to_string(),
            category: "ui".to_string(),
        },
    ]
}

#[test]
fn every_model_tool_has_a_contract() {
    validate_assistant_contracts(&model_tool_names(), &workspace_actions())
        .expect("assistant contracts should match exposed tools");
}

#[test]
fn missing_and_unexposed_tools_are_reported() {
    let mut names = model_tool_names();
    names.retain(|n| n != "get_dns");
    names.push("made_up_tool".to_string());
    let errors = validate_assistant_contracts(&names, &workspace_actions()).unwrap_err();
    assert_eq!(errors.len(), 2);
    assert_eq!(errors[0], "assistant tool 'made_up_tool' has no execution contract");
    assert_eq!(errors[1], "assistant tool contract 'get_dns' is not exposed to the model");
}

#[test]
fn read_tools_are_automatic_and_read_risk() {
    let contract = contract_for_tool("list_sessions", &workspace_actions()).expect("list sessions contract");
    assert_eq!(contract.execution_kind, AssistantToolExecutionKind::Read);
    assert_eq!(contract.risk, AssistantToolRisk::Read);
    assert!(!contract.requires_confirmation);
}

#[test]
fn proposal_tools_require_confirmation() {
    for name in [
        "propose_map_remote",
        "propose_dns_override",
        "propose_throttling",
        "propose_rewrite_rule",
        "propose_mock_rule",
        "propose_access_rule",
        "propose_capture_filter",
        "propose_upstream_proxy",
        "propose_action",
    ] {
        let contract = contract_for_tool(name, &workspace_actions()).expect("proposal contract");
        assert_eq!(contract.execution_kind, AssistantToolExecutionKind::Proposal);
        assert!(contract.requires_confirmation);
    }
}

#[test]
fn workspace_contracts_are_derived_from_workspace_actions() {
    let contract = contract_for_tool("workspace_sessions_apply_filter", &workspace_actions())
        .expect("workspace filter contract");
    assert_eq!(contract.execution_kind, AssistantToolExecutionKind::Workspace);
    assert_eq!(contract.category, "ui");
    assert!(!contract.requires_confirmation);
    assert!(contract.refreshed_resources.iter().any(|item| item == "sessions"));
}

#[test]
fn workspace_actions_without_a_function_name_get_no_contract() {
    let contracts = workspace_tool_contracts(&workspace_actions());
    assert_eq!(contracts.len(), 2);
    assert_eq!(contracts[1].risk, AssistantToolRisk::UiSensitive);
    assert_eq!(all_tool_contracts(&workspace_actions()).len(), static_tool_contracts().len() + 2);
    assert!(contract_for_tool("no_such_tool", &workspace_actions()).is_none());
}

#[test]
fn grouped_tool_contract_info_enriches_read_tools() {
    let grouped = grouped_tool_contract_info(&registry(), &workspace_actions());
    let read_tools = &grouped.iter().find(|(c, _)| c == "read").expect("read tools").1;
    let list_sessions =
        read_tools.iter().find(|tool| tool.name == "list_sessions").expect("list sessions metadata");
    assert_eq!(list_sessions.execution_kind, AssistantToolExecutionKind::Read);
    assert_eq!(list_sessions.risk, AssistantToolRisk::Read);
    assert!(!list_sessions.requires_confirmation);
    assert!(list_sessions.description.contains("captured sessions"));
    let get_dns = read_tools.iter().find(|tool| tool.name == "get_dns").expect("get_dns");
    assert_eq!(get_dns.description, "Assistant tool");
}

#[test]
fn grouped_tool_contract_info_enriches_proposal_and_workspace_tools() {
    let grouped = grouped_tool_contract_info(&registry(), &workspace_actions());
    let mutate_tools = &grouped.iter().find(|(c, _)| c == "mutate").expect("mutate tools").1;
    let proposal =
        mutate_tools.iter().find(|tool| tool.name == "propose_action").expect("proposal metadata");
    assert_eq!(proposal.execution_kind, AssistantToolExecutionKind::Proposal);
    assert_eq!(proposal.risk, AssistantToolRisk::Mutate);
    assert!(proposal.requires_confirmation);

    let ui_tools = &grouped.iter().find(|(c, _)| c == "ui").expect("ui tools").1;
    let filter = ui_tools
        .iter()
        .find(|tool| tool.name == "workspace_sessions_apply_filter")
        .expect("workspace filter metadata");
    assert_eq!(filter.execution_kind, AssistantToolExecutionKind::Workspace);
    assert_eq!(filter.risk, AssistantToolRisk::UiSafe);
    assert!(!filter.requires_confirmation);
    assert!(filter.refreshed_resources.iter().any(|item| item == "sessions"));
}

#[test]
fn groups_are_ordered_by_category_and_name() {
    let grouped = grouped_tool_contract_info(&registry(), &workspace_actions());
    let categories: Vec<&str> = grouped.iter().map(|(c, _)| c.as_str()).collect();
    assert_eq!(categories, vec!["mutate", "read", "ui"]);
    for (_, tools) in &grouped {
        let names: Vec<&str> = tools.iter().map(|t| t.name.as_str()).collect();
        let mut sorted = names.clone();
        sorted.sort();
        assert_eq!(names, sorted);
    }
    let total: usize = grouped.iter().map(|(_, t)| t.len()).sum();
    assert_eq!(total, all_tool_contracts(&workspace_actions()).len());
}

#[test]
fn registry_category_overrides_contract_category() {
    let tools = vec![ToolInfo {
        name: "get_dns".to_string(),
        description: "DNS overrides".to_string(),
        category: "network".to_string(),
    }];
    let grouped = grouped_tool_contract_info(&tools, &vec![]);
    let network = &grouped.iter().find(|(c, _)| c == "network").expect("network group").1;
    assert_eq!(network.len(), 1);
    assert_eq!(network[0].name, "get_dns");
    assert_eq!(network[0].description, "DNS overrides");
}

#[test]
fn labels_and_names() {
    assert_eq!(execution_kind_label(AssistantToolExecutionKind::Workspace), "workspace");
    assert_eq!(risk_label(AssistantToolRisk::UiSensitive), "ui_sensitive");
    assert_eq!(workspace_risk(WorkspaceActionRisk::UiSafe), AssistantToolRisk::UiSafe);
    assert_eq!(StaticAssistantTool::from_name("get_dns"), Some(StaticAssistantTool::GetDns));
    assert_eq!(StaticAssistantTool::from_name("nope"), None);
}

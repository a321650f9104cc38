//! Execution contracts of the assistant's tools: which tools only read, which
//! act on the workspace UI, and which propose changes that the user must
//! confirm.
use vstd::prelude::*;
use crate::text::{chars_of, eq_chars, eq_str, string_of};
use crate::order::{
    seq_lt, is_sorted_perm, sorted_positions, SortKey, key_view, keys_view, perm_view, tally,
    is_tally, count_label,
};

verus! {

#[derive(Debug, Clone, Copy, PartialEq, Eq, Structural)]
pub enum AssistantToolExecutionKind {
    Read,
    Workspace,
    Proposal,
}

/// Risk taxonomy for assistant tools. Not every level is assigned to a tool
/// today (`Network` and `Destructive` are reserved).
#[derive(Debug, Clone, Copy, PartialEq, Eq, Structural)]
pub enum AssistantToolRisk {
    Read,
    UiSafe,
    UiSensitive,
    Mutate,
    Network,
    Destructive,
}

/// Risk of a workspace (UI) action.
#[derive(Debug, Clone, Copy, PartialEq, Eq, Structural)]
pub enum WorkspaceActionRisk {
    UiSafe,
    UiSensitive,
}

#[derive(Debug, Clone)]
pub struct AssistantToolContract {
    pub name: String,
    pub category: String,
    pub execution_kind: AssistantToolExecutionKind,
    pub requires_confirmation: bool,
    pub risk: AssistantToolRisk,
    pub refreshed_resources: Vec<String>,
}

/// A workspace action offered to the model: the function name of its tool
/// spec (if it has one), its category, risk and the resources it refreshes.
#[derive(Debug, Clone)]
pub struct WorkspaceActionDefinition {
    pub function_name: Option<String>,
    pub category: String,
    pub risk: WorkspaceActionRisk,
    pub refreshed_resources: Vec<String>,
}

/// The abstract content of a contract.
pub struct ContractView {
    pub name: Seq<char>,
    pub category: Seq<char>,
    pub execution_kind: AssistantToolExecutionKind,
    pub requires_confirmation: bool,
    pub risk: AssistantToolRisk,
    pub refreshed_resources: Seq<Seq<char>>,
}

pub open spec fn strings_view(v: Seq<String>) -> Seq<Seq<char>> {
    v.map_values(|s: String| s@)
}

pub open spec fn contract_view(c: AssistantToolContract) -> ContractView {
    ContractView {
        name: c.name@,
        category: c.category@,
        execution_kind: c.execution_kind,
        requires_confirmation: c.requires_confirmation,
        risk: c.risk,
        refreshed_resources: strings_view(c.refreshed_resources@),
    }
}

pub open spec fn contracts_view(v: Seq<AssistantToolContract>) -> Seq<ContractView> {
    v.map_values(|c: AssistantToolContract| contract_view(c))
}

/// A read tool: automatic, read risk, refreshes nothing.
pub open spec fn read_contract_spec(name: Seq<char>) -> ContractView {
    ContractView {
        name,
        category: "read"@,
        execution_kind: AssistantToolExecutionKind::Read,
        requires_confirmation: false,
        risk: AssistantToolRisk::Read,
        refreshed_resources: Seq::empty(),
    }
}

/// A proposal tool: the user confirms, mutate risk.
pub open spec fn proposal_contract_spec(name: Seq<char>, resources: Seq<Seq<char>>) -> ContractView {
    ContractView {
        name,
        category: "mutate"@,
        execution_kind: AssistantToolExecutionKind::Proposal,
        requires_confirmation: true,
        risk: AssistantToolRisk::Mutate,
        refreshed_resources: resources,
    }
}

/// The built-in tools, in the order they are offered.
pub open spec fn static_contracts_spec() -> Seq<ContractView> {
    seq![
        read_contract_spec("get_feature_catalog"@),
        read_contract_spec("list_sessions"@),
        read_contract_spec("get_session"@),
        read_contract_spec("get_config"@),
        read_contract_spec("get_rules"@),
        read_contract_spec("get_protocol_metrics"@),
        read_contract_spec("get_connections"@),
        read_contract_spec("get_breakpoint_diagnostics"@),
        read_contract_spec("get_throttling"@),
        read_contract_spec("get_dns"@),
        read_contract_spec("get_capture_filter"@),
        read_contract_spec("get_webhooks"@),
        read_contract_spec("get_upstream_proxy"@),
        proposal_contract_spec("propose_map_remote"@, seq!["rules"@]),
        proposal_contract_spec("propose_dns_override"@, seq!["dns"@]),
        proposal_contract_spec("propose_throttling"@, seq!["throttling"@]),
        proposal_contract_spec("propose_rewrite_rule"@, seq!["rule_sets"@]),
        proposal_contract_spec("propose_mock_rule"@, seq!["mock"@]),
        proposal_contract_spec("propose_access_rule"@, seq!["access"@]),
        proposal_contract_spec("propose_capture_filter"@, seq!["capture_filter"@]),
        proposal_contract_spec("propose_upstream_proxy"@, seq!["upstream_proxy"@]),
        proposal_contract_spec(
            "propose_action"@,
            seq!["workspace"@, "rules"@, "sessions"@, "config"@],
        ),
    ]
}

fn lit(s: &str) -> (r: String)
    ensures
        r@ == s@,
{
    string_of(&chars_of(s))
}

/// The contract of a read-only tool.
pub fn read_contract(name: &str) -> (c: AssistantToolContract)
    ensures
        contract_view(c) == read_contract_spec(name@),
{
    let c = AssistantToolContract {
        name: lit(name),
        category: lit("read"),
        execution_kind: AssistantToolExecutionKind::Read,
        requires_confirmation: false,
        risk: AssistantToolRisk::Read,
        refreshed_resources: Vec::new(),
    };
    assert(strings_view(c.refreshed_resources@) =~= Seq::<Seq<char>>::empty());
    c
}

fn proposal_contract(name: &str, resources: Vec<String>) -> (c: AssistantToolContract)
    ensures
        contract_view(c) == proposal_contract_spec(name@, strings_view(resources@)),
{
    AssistantToolContract {
        name: lit(name),
        category: lit("mutate"),
        execution_kind: AssistantToolExecutionKind::Proposal,
        requires_confirmation: true,
        risk: AssistantToolRisk::Mutate,
        refreshed_resources: resources,
    }
}

fn one(s: &str) -> (r: Vec<String>)
    ensures
        strings_view(r@) == seq![s@],
{
    let mut v: Vec<String> = Vec::new();
    v.push(lit(s));
    assert(strings_view(v@) =~= seq![s@]);
    v
}

/// The built-in tool contracts.
pub fn static_tool_contracts() -> (r: Vec<AssistantToolContract>)
    ensures
        contracts_view(r@) == static_contracts_spec(),
{
    let mut v: Vec<AssistantToolContract> = Vec::new();
    v.push(read_contract("get_feature_catalog"));
    v.push(read_contract("list_sessions"));
    v.push(read_contract("get_session"));
    v.push(read_contract("get_config"));
    v.push(read_contract("get_rules"));
    v.push(read_contract("get_protocol_metrics"));
    v.push(read_contract("get_connections"));
    v.push(read_contract("get_breakpoint_diagnostics"));
    v.push(read_contract("get_throttling"));
    v.push(read_contract("get_dns"));
    v.push(read_contract("get_capture_filter"));
    v.push(read_contract("get_webhooks"));
    v.push(read_contract("get_upstream_proxy"));
    v.push(proposal_contract("propose_map_remote", one("rules")));
    v.push(proposal_contract("propose_dns_override", one("dns")));
    v.push(proposal_contract("propose_throttling", one("throttling")));
    v.push(proposal_contract("propose_rewrite_rule", one("rule_sets")));
    v.push(proposal_contract("propose_mock_rule", one("mock")));
    v.push(proposal_contract("propose_access_rule", one("access")));
    v.push(proposal_contract("propose_capture_filter", one("capture_filter")));
    v.push(proposal_contract("propose_upstream_proxy", one("upstream_proxy")));
    let mut res: Vec<String> = Vec::new();
    res.push(lit("workspace"));
    res.push(lit("rules"));
    res.push(lit("sessions"));
    res.push(lit("config"));
    assert(strings_view(res@) =~= seq!["workspace"@, "rules"@, "sessions"@, "config"@]);
    v.push(proposal_contract("propose_action", res));
    assert(contracts_view(v@) =~= static_contracts_spec());
    v
}

/// The tool risk that a workspace action risk maps to.
pub open spec fn workspace_risk_spec(r: WorkspaceActionRisk) -> AssistantToolRisk {
    match r {
        WorkspaceActionRisk::UiSafe => AssistantToolRisk::UiSafe,
        WorkspaceActionRisk::UiSensitive => AssistantToolRisk::UiSensitive,
    }
}

pub fn workspace_risk(risk: WorkspaceActionRisk) -> (r: AssistantToolRisk)
    ensures
        r == workspace_risk_spec(risk),
{
    match risk {
        WorkspaceActionRisk::UiSafe => AssistantToolRisk::UiSafe,
        WorkspaceActionRisk::UiSensitive => AssistantToolRisk::UiSensitive,
    }
}

/// Contracts derived from workspace actions that have a function name: they
/// run directly, without confirmation.
pub open spec fn workspace_contracts_spec(actions: Seq<WorkspaceActionDefinition>) -> Seq<ContractView>
    decreases actions.len(),
{
    if actions.len() == 0 {
        Seq::empty()
    } else {
        let prev = workspace_contracts_spec(actions.subrange(0, actions.len() - 1));
        let a = actions[actions.len() - 1];
        match a.function_name {
            Some(name) => prev.push(
                ContractView {
                    name: name@,
                    category: a.category@,
                    execution_kind: AssistantToolExecutionKind::Workspace,
                    requires_confirmation: false,
                    risk: workspace_risk_spec(a.risk),
                    refreshed_resources: strings_view(a.refreshed_resources@),
                },
            ),
            None => prev,
        }
    }
}

fn clone_strings(v: &Vec<String>) -> (r: Vec<String>)
    ensures
        strings_view(r@) == strings_view(v@),
{
    let mut r: Vec<String> = Vec::new();
    let mut i: usize = 0;
    while i < v.len()
        invariant
            i <= v.len(),
            strings_view(r@) == strings_view(v@.subrange(0, i as int)),
        decreases v.len() - i,
    {
        let ghost before = r@;
        let c = v[i].clone();
        assert(c@ == v@[i as int]@);
        r.push(c);
        i = i + 1;
        assert(strings_view(r@) =~= strings_view(before).push(c@));
        assert(strings_view(v@.subrange(0, i as int)) =~= strings_view(v@.subrange(0, i - 1 as int)).push(v@[i - 1]@));
    }
    assert(v@.subrange(0, v.len() as int) =~= v@);
    r
}

/// Contracts of the workspace actions that name a function.
pub fn workspace_tool_contracts(actions: &Vec<WorkspaceActionDefinition>) -> (r: Vec<
    AssistantToolContract,
>)
    ensures
        contracts_view(r@) == workspace_contracts_spec(actions@),
{
    let mut r: Vec<AssistantToolContract> = Vec::new();
    let mut i: usize = 0;
    while i < actions.len()
        invariant
            i <= actions.len(),
            contracts_view(r@) == workspace_contracts_spec(actions@.subrange(0, i as int)),
        decreases actions.len() - i,
    {
        let a = &actions[i];
        assert(actions@.subrange(0, i + 1 as int).subrange(0, i as int) =~= actions@.subrange(
            0,
            i as int,
        ));
        match &a.function_name {
            Some(name) => {
                let c = AssistantToolContract {
                    name: name.clone(),
                    category: a.category.clone(),
                    execution_kind: AssistantToolExecutionKind::Workspace,
                    requires_confirmation: false,
                    risk: workspace_risk(a.risk),
                    refreshed_resources: clone_strings(&a.refreshed_resources),
                };
                let ghost before = r@;
                r.push(c);
                assert(contracts_view(r@) =~= contracts_view(before).push(contract_view(c)));
            },
            None => {},
        }
        i = i + 1;
    }
    assert(actions@.subrange(0, actions.len() as int) =~= actions@);
    r
}

/// Every tool contract: the built-in tools, then the workspace actions.
pub fn all_tool_contracts(actions: &Vec<WorkspaceActionDefinition>) -> (r: Vec<
    AssistantToolContract,
>)
    ensures
        contracts_view(r@) == static_contracts_spec() + workspace_contracts_spec(actions@),
{
    let mut contracts = static_tool_contracts();
    let mut extra = workspace_tool_contracts(actions);
    let ghost a = contracts@;
    let ghost b = extra@;
    contracts.append(&mut extra);
    assert(contracts_view(contracts@) =~= contracts_view(a) + contracts_view(b));
    contracts
}

/// The first contract with the given name.
pub open spec fn find_contract(cs: Seq<ContractView>, name: Seq<char>) -> Option<ContractView>
    decreases cs.len(),
{
    if cs.len() == 0 {
        None
    } else if cs[0].name == name {
        Some(cs[0])
    } else {
        find_contract(cs.subrange(1, cs.len() as int), name)
    }
}

pub open spec fn opt_contract_view(c: Option<AssistantToolContract>) -> Option<ContractView> {
    match c {
        Some(x) => Some(contract_view(x)),
        None => None,
    }
}

/// The contract of the named tool.
pub fn contract_for_tool(name: &str, actions: &Vec<WorkspaceActionDefinition>) -> (r: Option<
    AssistantToolContract,
>)
    ensures
        opt_contract_view(r) == find_contract(
            static_contracts_spec() + workspace_contracts_spec(actions@),
            name@,
        ),
{
    let all = all_tool_contracts(actions);
    let target = chars_of(name);
    let ghost cs = contracts_view(all@);
    let mut i: usize = 0;
    assert(cs.subrange(0, all.len() as int) =~= cs);
    while i < all.len()
        invariant
            i <= all.len(),
            cs == contracts_view(all@),
            cs == static_contracts_spec() + workspace_contracts_spec(actions@),
            target@ == name@,
            find_contract(cs, name@) == find_contract(cs.subrange(i as int, all.len() as int), name@),
        decreases all.len() - i,
    {
        let ghost rest = cs.subrange(i as int, all.len() as int);
        assert(rest.subrange(1, rest.len() as int) =~= cs.subrange(i + 1, all.len() as int));
        let n = chars_of(all[i].name.as_str());
        if eq_chars(&n, &target) {
            let c = AssistantToolContract {
                name: all[i].name.clone(),
                category: all[i].category.clone(),
                execution_kind: all[i].execution_kind,
                requires_confirmation: all[i].requires_confirmation,
                risk: all[i].risk,
                refreshed_resources: clone_strings(&all[i].refreshed_resources),
            };
            return Some(c);
        }
        i = i + 1;
    }
    None
}

/// The rules every contract must follow: read tools are automatic and
/// read-risk, proposals need confirmation, workspace UI tools run directly.
pub open spec fn well_formed_contract(c: ContractView) -> bool {
    &&& (c.execution_kind == AssistantToolExecutionKind::Read ==> !c.requires_confirmation && c.risk
        == AssistantToolRisk::Read)
    &&& (c.execution_kind == AssistantToolExecutionKind::Proposal ==> c.requires_confirmation)
    &&& (c.execution_kind == AssistantToolExecutionKind::Workspace ==> !c.requires_confirmation)
}

/// A contract derived from a workspace action.
pub open spec fn workspace_ok(c: ContractView) -> bool {
    well_formed_contract(c) && c.execution_kind == AssistantToolExecutionKind::Workspace
}

proof fn lemma_workspace_contracts_well_formed(actions: Seq<WorkspaceActionDefinition>)
    ensures
        forall|i: int|
            0 <= i < workspace_contracts_spec(actions).len() ==> #[trigger] workspace_ok(
                workspace_contracts_spec(actions)[i],
            ),
    decreases actions.len(),
{
    if actions.len() > 0 {
        let prev_actions = actions.subrange(0, actions.len() - 1);
        lemma_workspace_contracts_well_formed(prev_actions);
        let w = workspace_contracts_spec(actions);
        let prev = workspace_contracts_spec(prev_actions);
        assert forall|i: int| 0 <= i < w.len() implies #[trigger] workspace_ok(w[i]) by {
            if i < prev.len() {
                assert(w[i] == prev[i]);
                assert(workspace_ok(prev[i]));
            }
        }
    }
}

/// Every tool contract, built-in or derived from a workspace action, follows
/// the confirmation and risk rules, so validation can only fail on names.
pub proof fn law_all_contracts_well_formed(actions: Seq<WorkspaceActionDefinition>)
    ensures
        forall|i: int|
            0 <= i < (static_contracts_spec() + workspace_contracts_spec(actions)).len()
                ==> #[trigger] well_formed_contract(
                (static_contracts_spec() + workspace_contracts_spec(actions))[i],
            ),
{
    lemma_workspace_contracts_well_formed(actions);
    let s = static_contracts_spec();
    let w = workspace_contracts_spec(actions);
    assert forall|i: int| 0 <= i < (s + w).len() implies #[trigger] well_formed_contract(
        (s + w)[i],
    ) by {
        if i < s.len() {
            assert(well_formed_contract(s[i]));
        } else {
            assert((s + w)[i] == w[i - s.len()]);
            assert(workspace_ok(w[i - s.len()]));
        }
    }
}

/// Every proposal tool requires confirmation; no built-in tool runs a change
/// on its own.
pub proof fn law_proposals_require_confirmation(actions: Seq<WorkspaceActionDefinition>, i: int)
    requires
        0 <= i < (static_contracts_spec() + workspace_contracts_spec(actions)).len(),
        (static_contracts_spec() + workspace_contracts_spec(actions))[i].execution_kind
            == AssistantToolExecutionKind::Proposal,
    ensures
        (static_contracts_spec() + workspace_contracts_spec(actions))[i].requires_confirmation,
{
    law_all_contracts_well_formed(actions);
    assert(well_formed_contract((static_contracts_spec() + workspace_contracts_spec(actions))[i]));
}

// ───────────────────────── validation ─────────────────────────

fn push_message(errors: &mut Vec<String>, pre: &str, name: &str, post: &str)
    ensures
        final(errors)@.len() == old(errors)@.len() + 1,
        strings_view(final(errors)@) == strings_view(old(errors)@).push(pre@ + name@ + post@),
{
    let mut v = chars_of(pre);
    let n = chars_of(name);
    let p = chars_of(post);
    let ghost h = v@;
    let mut i: usize = 0;
    while i < n.len()
        invariant
            i <= n.len(),
            v@ == h + n@.subrange(0, i as int),
        decreases n.len() - i,
    {
        v.push(n[i]);
        i = i + 1;
        assert(v@ =~= h + n@.subrange(0, i as int));
    }
    assert(n@.subrange(0, n.len() as int) =~= n@);
    let ghost h2 = v@;
    let mut j: usize = 0;
    while j < p.len()
        invariant
            j <= p.len(),
            v@ == h2 + p@.subrange(0, j as int),
        decreases p.len() - j,
    {
        v.push(p[j]);
        j = j + 1;
        assert(v@ =~= h2 + p@.subrange(0, j as int));
    }
    assert(p@.subrange(0, p.len() as int) =~= p@);
    errors.push(string_of(&v));
    assert(strings_view(errors@) =~= strings_view(old(errors)@).push(pre@ + name@ + post@));
}

fn contains_name(names: &Vec<String>, name: &str) -> (r: bool)
    ensures
        r == strings_view(names@).contains(name@),
{
    let t = chars_of(name);
    let mut i: usize = 0;
    while i < names.len()
        invariant
            i <= names.len(),
            t@ == name@,
            forall|j: int| 0 <= j < i ==> strings_view(names@)[j] != name@,
        decreases names.len() - i,
    {
        let n = chars_of(names[i].as_str());
        if eq_chars(&n, &t) {
            assert(strings_view(names@)[i as int] == name@);
            return true;
        }
        i = i + 1;
    }
    false
}

/// Some contract carries the name.
pub open spec fn has_contract_named(cs: Seq<ContractView>, name: Seq<char>) -> bool {
    exists|j: int| 0 <= j < cs.len() && cs[j].name == name
}

/// Every model tool name has a contract.
pub open spec fn all_names_covered(names: Seq<String>, cs: Seq<ContractView>, upto: int) -> bool {
    forall|a: int| 0 <= a < upto ==> has_contract_named(cs, #[trigger] names[a]@)
}

/// Every contract's tool is exposed to the model.
pub open spec fn all_contracts_exposed(names: Seq<String>, cs: Seq<ContractView>, upto: int) -> bool {
    forall|b: int| 0 <= b < upto ==> strings_view(names).contains(#[trigger] cs[b].name)
}

/// Checks that the tools exposed to the model and the tool contracts match
/// one to one, and that each contract follows the confirmation and risk rules.
pub fn validate_assistant_contracts(
    model_tool_names: &Vec<String>,
    actions: &Vec<WorkspaceActionDefinition>,
) -> (r: Result<(), Vec<String>>)
    ensures
        r is Ok <==> (all_names_covered(
            model_tool_names@,
            static_contracts_spec() + workspace_contracts_spec(actions@),
            model_tool_names@.len() as int,
        ) && all_contracts_exposed(
            model_tool_names@,
            static_contracts_spec() + workspace_contracts_spec(actions@),
            (static_contracts_spec() + workspace_contracts_spec(actions@)).len() as int,
        )),
{
    let contracts = all_tool_contracts(actions);
    let ghost cs = contracts_view(contracts@);
    let mut names: Vec<String> = Vec::new();
    let mut k: usize = 0;
    while k < contracts.len()
        invariant
            k <= contracts.len(),
            cs == contracts_view(contracts@),
            names@.len() == k,
            forall|j: int| 0 <= j < k ==> #[trigger] names@[j]@ == cs[j].name,
        decreases contracts.len() - k,
    {
        names.push(contracts[k].name.clone());
        k = k + 1;
    }
    let mut errors: Vec<String> = Vec::new();
    let mut i: usize = 0;
    while i < model_tool_names.len()
        invariant
            i <= model_tool_names.len(),
            cs == contracts_view(contracts@),
            names@.len() == cs.len(),
            forall|j: int| 0 <= j < names@.len() ==> #[trigger] names@[j]@ == cs[j].name,
            errors@.len() == 0 <==> all_names_covered(model_tool_names@, cs, i as int),
        decreases model_tool_names.len() - i,
    {
        let ghost nm = model_tool_names@[i as int]@;
        let ghost before_len = errors@.len();
        assert(all_names_covered(model_tool_names@, cs, i + 1 as int) ==> all_names_covered(model_tool_names@, cs, i as int));
        assert(forall|a: int| 0 <= a < i + 1 ==> #[trigger] model_tool_names@[a]@ == model_tool_names@[a]@);
        if !contains_name(&names, model_tool_names[i].as_str()) {
            proof {
                assert forall|j: int| 0 <= j < cs.len() implies cs[j].name != model_tool_names@[i as int]@ by {
                    assert(strings_view(names@)[j] == names@[j]@);
                }
            }
            push_message(
                &mut errors,
                "assistant tool '",
                model_tool_names[i].as_str(),
                "' has no execution contract",
            );
            assert(!has_contract_named(cs, nm));
            assert(!all_names_covered(model_tool_names@, cs, i + 1 as int));
            assert(errors@.len() == before_len + 1);
        } else {
            proof {
                let j = choose|j: int| 0 <= j < names@.len() && strings_view(names@)[j] == model_tool_names@[i as int]@;
                assert(strings_view(names@)[j] == names@[j]@);
                assert(cs[j].name == model_tool_names@[i as int]@);
                assert(has_contract_named(cs, model_tool_names@[i as int]@));
                assert(all_names_covered(model_tool_names@, cs, i as int) ==> all_names_covered(model_tool_names@, cs, i + 1 as int));
                assert(all_names_covered(model_tool_names@, cs, i + 1 as int) ==> all_names_covered(model_tool_names@, cs, i as int));
            }
        }
        i = i + 1;
    }
    let ghost first_ok = errors@.len() == 0;
    assert(cs == static_contracts_spec() + workspace_contracts_spec(actions@));
    let mut j: usize = 0;
    while j < contracts.len()
        invariant
            j <= contracts.len(),
            cs == contracts_view(contracts@),
            first_ok <==> all_names_covered(model_tool_names@, cs, model_tool_names@.len() as int),
            errors@.len() == 0 <==> (first_ok && all_contracts_exposed(model_tool_names@, cs, j as int)),
        decreases contracts.len() - j,
    {
        assert(contracts@[j as int].name@ == cs[j as int].name);
        let ghost before_len = errors@.len();
        assert(all_contracts_exposed(model_tool_names@, cs, j + 1 as int) ==> all_contracts_exposed(model_tool_names@, cs, j as int));
        if !contains_name(model_tool_names, contracts[j].name.as_str()) {
            push_message(
                &mut errors,
                "assistant tool contract '",
                contracts[j].name.as_str(),
                "' is not exposed to the model",
            );
            assert(!all_contracts_exposed(model_tool_names@, cs, j + 1 as int));
            assert(errors@.len() == before_len + 1);
        } else {
            assert(all_contracts_exposed(model_tool_names@, cs, j as int) ==> all_contracts_exposed(model_tool_names@, cs, j + 1 as int));
            assert(all_contracts_exposed(model_tool_names@, cs, j + 1 as int) ==> all_contracts_exposed(model_tool_names@, cs, j as int));
        }
        j = j + 1;
    }
    proof {
        law_all_contracts_well_formed(actions@);
    }
    if errors.len() == 0 {
        Ok(())
    } else {
        Err(errors)
    }
}

// ───────────────────────── grouped contract metadata ─────────────────────────

/// A tool as the model's tool registry describes it.
#[derive(Debug, Clone)]
pub struct ToolInfo {
    pub name: String,
    pub description: String,
    pub category: String,
}

/// A tool contract enriched with the registry's description and category.
#[derive(Debug, Clone)]
pub struct AssistantToolContractInfo {
    pub name: String,
    pub description: String,
    pub category: String,
    pub execution_kind: AssistantToolExecutionKind,
    pub requires_confirmation: bool,
    pub risk: AssistantToolRisk,
    pub refreshed_resources: Vec<String>,
}

/// The abstract content of an enriched contract.
pub struct InfoView {
    pub name: Seq<char>,
    pub description: Seq<char>,
    pub category: Seq<char>,
    pub execution_kind: AssistantToolExecutionKind,
    pub requires_confirmation: bool,
    pub risk: AssistantToolRisk,
    pub refreshed_resources: Seq<Seq<char>>,
}

pub open spec fn info_view(i: AssistantToolContractInfo) -> InfoView {
    InfoView {
        name: i.name@,
        description: i.description@,
        category: i.category@,
        execution_kind: i.execution_kind,
        requires_confirmation: i.requires_confirmation,
        risk: i.risk,
        refreshed_resources: strings_view(i.refreshed_resources@),
    }
}

/// The last registry entry with the given name (a later entry shadows an
/// earlier one).
pub open spec fn last_tool_named(tools: Seq<ToolInfo>, name: Seq<char>) -> Option<int>
    decreases tools.len(),
{
    if tools.len() == 0 {
        None
    } else if tools.last().name@ == name {
        Some(tools.len() - 1)
    } else {
        last_tool_named(tools.drop_last(), name)
    }
}

/// A contract enriched from the registry: its description and category
/// come from the registry entry of the same name, or are `Assistant tool`
/// and the contract's own category when there is none.
pub open spec fn info_of(tools: Seq<ToolInfo>, c: ContractView) -> InfoView {
    let (description, category) = match last_tool_named(tools, c.name) {
        Some(i) => (tools[i].description@, tools[i].category@),
        None => ("Assistant tool"@, c.category),
    };
    InfoView {
        name: c.name,
        description,
        category,
        execution_kind: c.execution_kind,
        requires_confirmation: c.requires_confirmation,
        risk: c.risk,
        refreshed_resources: c.refreshed_resources,
    }
}

/// The positions of the entries in `category`, in order.
pub open spec fn members(infos: Seq<InfoView>, category: Seq<char>, n: nat) -> Seq<int>
    decreases n,
{
    if n == 0 {
        Seq::empty()
    } else {
        let prev = members(infos, category, (n - 1) as nat);
        if infos[n - 1].category == category {
            prev.push(n - 1)
        } else {
            prev
        }
    }
}

/// Name keys of the given entries, for a stable sort by name.
pub open spec fn name_keys(infos: Seq<InfoView>, idx: Seq<int>) -> Seq<(int, Seq<char>)> {
    Seq::new(idx.len(), |j: int| (0int, infos[idx[j]].name))
}

/// `g` groups `infos` by category: categories strictly ascending, every
/// entry's category present, and each group the entries of its category,
/// stably sorted by name.
pub open spec fn grouped_by_category(infos: Seq<InfoView>, g: Seq<(Seq<char>, Seq<InfoView>)>) -> bool {
    &&& forall|a: int, b: int| 0 <= a < b < g.len() ==> seq_lt(#[trigger] g[a].0, #[trigger] g[b].0)
    &&& forall|j: int| 0 <= j < infos.len() ==> has_group(g, #[trigger] infos[j].category)
    &&& forall|a: int| 0 <= a < g.len() ==> members(infos, #[trigger] g[a].0, infos.len()).len() > 0
    &&& forall|a: int| 0 <= a < g.len() ==> group_ok(infos, #[trigger] g[a])
}

/// Some group has the category.
pub open spec fn has_group(g: Seq<(Seq<char>, Seq<InfoView>)>, category: Seq<char>) -> bool {
    exists|a: int| 0 <= a < g.len() && #[trigger] g[a].0 == category
}

/// A group holds the entries of its category, stably sorted by name.
pub open spec fn group_ok(infos: Seq<InfoView>, group: (Seq<char>, Seq<InfoView>)) -> bool {
    let m = members(infos, group.0, infos.len());
    exists|p: Seq<int>| is_sorted_perm(name_keys(infos, m), p) && group.1 == p.map_values(|q: int| infos[m[q]])
}

pub open spec fn groups_view(g: Seq<(String, Vec<AssistantToolContractInfo>)>) -> Seq<(Seq<char>, Seq<InfoView>)> {
    g.map_values(|e: (String, Vec<AssistantToolContractInfo>)| (e.0@, e.1@.map_values(|i: AssistantToolContractInfo| info_view(i))))
}

fn copy_info(i: &AssistantToolContractInfo) -> (r: AssistantToolContractInfo)
    ensures
        info_view(r) == info_view(*i),
{
    AssistantToolContractInfo {
        name: i.name.clone(),
        description: i.description.clone(),
        category: i.category.clone(),
        execution_kind: i.execution_kind,
        requires_confirmation: i.requires_confirmation,
        risk: i.risk,
        refreshed_resources: clone_strings(&i.refreshed_resources),
    }
}

/// The registry entry describing a contract, if any.
fn find_tool(tools: &Vec<ToolInfo>, name: &String) -> (r: Option<usize>)
    ensures
        r matches Some(i) ==> last_tool_named(tools@, name@) == Some(i as int) && i < tools@.len(),
        r is None ==> last_tool_named(tools@, name@) is None,
{
    let target = chars_of(name.as_str());
    let mut i: usize = tools.len();
    assert(tools@.subrange(0, tools.len() as int) =~= tools@);
    while i > 0
        invariant
            i <= tools@.len(),
            target@ == name@,
            last_tool_named(tools@, name@) == last_tool_named(tools@.subrange(0, i as int), name@),
        decreases i,
    {
        let ghost pre = tools@.subrange(0, i as int);
        assert(pre.drop_last() =~= tools@.subrange(0, i - 1));
        if eq_chars(&chars_of(tools[i - 1].name.as_str()), &target) {
            return Some(i - 1);
        }
        i = i - 1;
    }
    None
}

fn enrich(tools: &Vec<ToolInfo>, c: &AssistantToolContract) -> (r: AssistantToolContractInfo)
    ensures
        info_view(r) == info_of(tools@, contract_view(*c)),
{
    let (description, category) = match find_tool(tools, &c.name) {
        Some(i) => (tools[i].description.clone(), tools[i].category.clone()),
        None => {
            proof {
                reveal_strlit("Assistant tool");
            }
            (string_of(&chars_of("Assistant tool")), c.category.clone())
        },
    };
    AssistantToolContractInfo {
        name: c.name.clone(),
        description,
        category,
        execution_kind: c.execution_kind,
        requires_confirmation: c.requires_confirmation,
        risk: c.risk,
        refreshed_resources: clone_strings(&c.refreshed_resources),
    }
}

/// Every tool contract enriched from the registry `tools` and grouped by
/// category; groups are in ascending category order and each is sorted by
/// tool name.
pub fn grouped_tool_contract_info(
    tools: &Vec<ToolInfo>,
    actions: &Vec<WorkspaceActionDefinition>,
) -> (r: Vec<(String, Vec<AssistantToolContractInfo>)>)
    ensures
        grouped_by_category(
            (static_contracts_spec() + workspace_contracts_spec(actions@)).map_values(
                |c: ContractView| info_of(tools@, c),
            ),
            groups_view(r@),
        ),
{
    let contracts = all_tool_contracts(actions);
    let ghost cs = static_contracts_spec() + workspace_contracts_spec(actions@);
    let ghost iv = cs.map_values(|c: ContractView| info_of(tools@, c));
    let mut infos: Vec<AssistantToolContractInfo> = Vec::new();
    let mut k: usize = 0;
    while k < contracts.len()
        invariant
            k <= contracts@.len(),
            contracts_view(contracts@) == cs,
            iv == cs.map_values(|c: ContractView| info_of(tools@, c)),
            infos@.len() == k,
            forall|j: int| 0 <= j < k ==> info_view(#[trigger] infos@[j]) == iv[j],
        decreases contracts.len() - k,
    {
        let info = enrich(tools, &contracts[k]);
        assert(contract_view(contracts@[k as int]) == cs[k as int]);
        infos.push(info);
        k = k + 1;
    }
    let ghost ivs = infos@.map_values(|i: AssistantToolContractInfo| info_view(i));
    assert(ivs =~= iv);
    // the categories, each once, ascending
    let mut cats: Vec<Vec<char>> = Vec::new();
    let mut j: usize = 0;
    while j < infos.len()
        invariant
            j <= infos@.len(),
            cats@.len() == j,
            forall|x: int| 0 <= x < j ==> #[trigger] cats@[x]@ == iv[x].category,
            forall|x: int| 0 <= x < infos@.len() ==> info_view(#[trigger] infos@[x]) == iv[x],
            iv.len() == infos@.len(),
        decreases infos.len() - j,
    {
        cats.push(chars_of(infos[j].category.as_str()));
        j = j + 1;
    }
    let ghost labels = cats@.map_values(|l: Vec<char>| l@);
    assert(labels =~= iv.map_values(|i: InfoView| i.category));
    let (keys, counts) = tally(&cats);
    let mut out: Vec<(String, Vec<AssistantToolContractInfo>)> = Vec::new();
    let mut a: usize = 0;
    while a < keys.len()
        invariant
            a <= keys@.len(),
            keys@.len() == counts@.len(),
            is_tally(labels, Seq::new(keys@.len(), |b: int| (keys@[b]@, counts@[b] as nat))),
            labels == iv.map_values(|i: InfoView| i.category),
            forall|x: int| 0 <= x < infos@.len() ==> info_view(#[trigger] infos@[x]) == iv[x],
            iv.len() == infos@.len(),
            out@.len() == a,
            forall|b: int| 0 <= b < a ==> #[trigger] groups_view(out@)[b].0 == keys@[b]@,
            forall|b: int| 0 <= b < a ==> group_ok(iv, #[trigger] groups_view(out@)[b]),
        decreases keys.len() - a,
    {
        // positions of this category
        let mut idx: Vec<usize> = Vec::new();
        let mut x: usize = 0;
        while x < infos.len()
            invariant
                x <= infos@.len(),
                forall|y: int| 0 <= y < infos@.len() ==> info_view(#[trigger] infos@[y]) == iv[y],
                iv.len() == infos@.len(),
                a < keys@.len(),
                perm_view(idx@) == members(iv, keys@[a as int]@, x as nat),
                forall|y: int| 0 <= y < idx@.len() ==> #[trigger] idx@[y] < x,
            decreases infos.len() - x,
        {
            assert(info_view(infos@[x as int]) == iv[x as int]);
            if eq_chars(&chars_of(infos[x].category.as_str()), &keys[a]) {
                idx.push(x);
                assert(perm_view(idx@) =~= members(iv, keys@[a as int]@, x as nat).push(x as int));
            }
            x = x + 1;
        }
        let ghost m = members(iv, keys@[a as int]@, iv.len());
        let mut sk: Vec<SortKey> = Vec::new();
        let mut y: usize = 0;
        while y < idx.len()
            invariant
                y <= idx@.len(),
                perm_view(idx@) == m,
                forall|z: int| 0 <= z < idx@.len() ==> #[trigger] idx@[z] < infos@.len(),
                forall|z: int| 0 <= z < infos@.len() ==> info_view(#[trigger] infos@[z]) == iv[z],
                iv.len() == infos@.len(),
                sk@.len() == y,
                keys_view(sk@) == name_keys(iv, m).subrange(0, y as int),
            decreases idx.len() - y,
        {
            let key = SortKey { num: 0, text: chars_of(infos[idx[y]].name.as_str()) };
            assert(info_view(infos@[idx@[y as int] as int]) == iv[idx@[y as int] as int]);
            assert(key_view(key) == name_keys(iv, m)[y as int]);
            sk.push(key);
            y = y + 1;
            assert(keys_view(sk@) =~= name_keys(iv, m).subrange(0, y as int));
        }
        assert(name_keys(iv, m).subrange(0, y as int) =~= name_keys(iv, m));
        let p = sorted_positions(&sk);
        let mut group: Vec<AssistantToolContractInfo> = Vec::new();
        let mut z: usize = 0;
        while z < p.len()
            invariant
                z <= p@.len(),
                is_sorted_perm(name_keys(iv, m), perm_view(p@)),
                perm_view(idx@) == m,
                forall|w: int| 0 <= w < idx@.len() ==> #[trigger] idx@[w] < infos@.len(),
                forall|w: int| 0 <= w < infos@.len() ==> info_view(#[trigger] infos@[w]) == iv[w],
                iv.len() == infos@.len(),
                p@.len() == m.len(),
                group@.len() == z,
                group@.map_values(|i: AssistantToolContractInfo| info_view(i)) == perm_view(p@).subrange(0, z as int).map_values(|q: int| iv[m[q]]),
            decreases p.len() - z,
        {
            assert(perm_view(p@)[z as int] == p@[z as int] as int);
            let q = p[z];
            assert(perm_view(idx@)[q as int] == idx@[q as int] as int);
            let item = copy_info(&infos[idx[q]]);
            assert(info_view(item) == iv[m[q as int]]);
            let ghost old_group = group@;
            let ghost old_g = group@.map_values(|i: AssistantToolContractInfo| info_view(i));
            let ghost old_w = perm_view(p@).subrange(0, z as int).map_values(|q: int| iv[m[q]]);
            group.push(item);
            z = z + 1;
            let ghost new_w = perm_view(p@).subrange(0, z as int).map_values(|q: int| iv[m[q]]);
            assert forall|w: int| 0 <= w < z implies group@.map_values(|i: AssistantToolContractInfo| info_view(i))[w] == new_w[w] by {
                if w < z - 1 {
                    assert(group@[w] == old_group[w]);
                    assert(old_g[w] == info_view(old_group[w]));
                    assert(new_w[w] == old_w[w]);
                }
            }
            assert(group@.map_values(|i: AssistantToolContractInfo| info_view(i)) =~= new_w);
        }
        assert(perm_view(p@).subrange(0, z as int) =~= perm_view(p@));
        let ghost old_out = out@;
        out.push((string_of(&keys[a]), group));
        proof {
            assert(groups_view(out@)[a as int].0 == keys@[a as int]@);
            assert forall|b: int| 0 <= b < a + 1 implies #[trigger] groups_view(out@)[b].0 == keys@[b]@ by {
                if b < a {
                    assert(groups_view(out@)[b] == groups_view(old_out)[b]);
                }
            }
            assert forall|b: int| 0 <= b < a + 1 implies group_ok(iv, #[trigger] groups_view(out@)[b]) by {
                if b < a {
                    assert(groups_view(out@)[b] == groups_view(old_out)[b]);
                } else {
                    assert(groups_view(out@)[b].1 == perm_view(p@).map_values(|q: int| iv[m[q]]));
                    assert(is_sorted_perm(name_keys(iv, m), perm_view(p@)));
                }
            }
        }
        a = a + 1;
    }
    proof {
        let t = Seq::new(keys@.len(), |b: int| (keys@[b]@, counts@[b] as nat));
        let g = groups_view(out@);
        assert forall|x: int, y: int| 0 <= x < y < g.len() implies seq_lt(#[trigger] g[x].0, #[trigger] g[y].0) by {
            assert(t[x].0 == keys@[x]@ && t[y].0 == keys@[y]@);
        }
        assert forall|j: int| 0 <= j < iv.len() implies has_group(g, #[trigger] iv[j].category) by {
            assert(labels[j] == iv[j].category);
            let b = choose|b: int| 0 <= b < t.len() && #[trigger] t[b].0 == #[trigger] labels[j];
            assert(g[b].0 == keys@[b]@);
        }
        assert forall|b: int| 0 <= b < g.len() implies members(iv, #[trigger] g[b].0, iv.len()).len() > 0 by {
            assert(t[b].1 == count_label(labels, t[b].0) && t[b].1 > 0);
            lemma_members_count(iv, g[b].0, iv.len());
            assert(labels.subrange(0, iv.len() as int) =~= labels);
        }
        assert(forall|b: int| 0 <= b < g.len() ==> group_ok(iv, #[trigger] g[b]));
        assert(forall|x: int, y: int| 0 <= x < y < g.len() ==> seq_lt(#[trigger] g[x].0, #[trigger] g[y].0));
        assert(forall|b: int| 0 <= b < g.len() ==> members(iv, #[trigger] g[b].0, iv.len()).len() > 0);
        assert(grouped_by_category(iv, g));
    }
    out
}

/// The number of members of a category is the number of occurrences of the
/// category among the entries' categories.
proof fn lemma_members_count(infos: Seq<InfoView>, category: Seq<char>, n: nat)
    requires
        n <= infos.len(),
    ensures
        members(infos, category, n).len() == count_label(
            infos.map_values(|i: InfoView| i.category).subrange(0, n as int),
            category,
        ),
    decreases n,
{
    let labels = infos.map_values(|i: InfoView| i.category);
    if n > 0 {
        lemma_members_count(infos, category, (n - 1) as nat);
        assert(labels.subrange(0, n as int).drop_last() =~= labels.subrange(0, n - 1));
    } else {
        assert(labels.subrange(0, 0) =~= Seq::<Seq<char>>::empty());
    }
}

// ───────────────────────── tool names and labels ─────────────────────────

/// The built-in assistant tools.
#[derive(Debug, Clone, Copy, PartialEq, Eq, Structural)]
pub enum StaticAssistantTool {
    ListSessions,
    GetSession,
    GetConfig,
    GetFeatureCatalog,
    GetRules,
    GetProtocolMetrics,
    GetConnections,
    GetBreakpointDiagnostics,
    GetThrottling,
    GetDns,
    GetCaptureFilter,
    GetWebhooks,
    GetUpstreamProxy,
    ProposeMapRemote,
    ProposeDnsOverride,
    ProposeThrottling,
    ProposeRewriteRule,
    ProposeMockRule,
    ProposeAccessRule,
    ProposeCaptureFilter,
    ProposeUpstreamProxy,
    ProposeAction,
}

/// The built-in tool the model calls by `name`, if any.
pub open spec fn static_tool_named(name: Seq<char>) -> Option<StaticAssistantTool> {
    if name == "list_sessions"@ {
        Some(StaticAssistantTool::ListSessions)
    } else if name == "get_session"@ {
        Some(StaticAssistantTool::GetSession)
    } else if name == "get_config"@ {
        Some(StaticAssistantTool::GetConfig)
    } else if name == "get_feature_catalog"@ {
        Some(StaticAssistantTool::GetFeatureCatalog)
    } else if name == "get_rules"@ {
        Some(StaticAssistantTool::GetRules)
    } else if name == "get_protocol_metrics"@ {
        Some(StaticAssistantTool::GetProtocolMetrics)
    } else if name == "get_connections"@ {
        Some(StaticAssistantTool::GetConnections)
    } else if name == "get_breakpoint_diagnostics"@ {
        Some(StaticAssistantTool::GetBreakpointDiagnostics)
    } else if name == "get_throttling"@ {
        Some(StaticAssistantTool::GetThrottling)
    } else if name == "get_dns"@ {
        Some(StaticAssistantTool::GetDns)
    } else if name == "get_capture_filter"@ {
        Some(StaticAssistantTool::GetCaptureFilter)
    } else if name == "get_webhooks"@ {
        Some(StaticAssistantTool::GetWebhooks)
    } else if name == "get_upstream_proxy"@ {
        Some(StaticAssistantTool::GetUpstreamProxy)
    } else if name == "propose_map_remote"@ {
        Some(StaticAssistantTool::ProposeMapRemote)
    } else if name == "propose_dns_override"@ {
        Some(StaticAssistantTool::ProposeDnsOverride)
    } else if name == "propose_throttling"@ {
        Some(StaticAssistantTool::ProposeThrottling)
    } else if name == "propose_rewrite_rule"@ {
        Some(StaticAssistantTool::ProposeRewriteRule)
    } else if name == "propose_mock_rule"@ {
        Some(StaticAssistantTool::ProposeMockRule)
    } else if name == "propose_access_rule"@ {
        Some(StaticAssistantTool::ProposeAccessRule)
    } else if name == "propose_capture_filter"@ {
        Some(StaticAssistantTool::ProposeCaptureFilter)
    } else if name == "propose_upstream_proxy"@ {
        Some(StaticAssistantTool::ProposeUpstreamProxy)
    } else if name == "propose_action"@ {
        Some(StaticAssistantTool::ProposeAction)
    } else {
        None
    }
}

impl StaticAssistantTool {
    /// The tool's name as the model calls it.
    pub open spec fn name_spec(self) -> Seq<char> {
        match self {
            StaticAssistantTool::ListSessions => "list_sessions"@,
            StaticAssistantTool::GetSession => "get_session"@,
            StaticAssistantTool::GetConfig => "get_config"@,
            StaticAssistantTool::GetFeatureCatalog => "get_feature_catalog"@,
            StaticAssistantTool::GetRules => "get_rules"@,
            StaticAssistantTool::GetProtocolMetrics => "get_protocol_metrics"@,
            StaticAssistantTool::GetConnections => "get_connections"@,
            StaticAssistantTool::GetBreakpointDiagnostics => "get_breakpoint_diagnostics"@,
            StaticAssistantTool::GetThrottling => "get_throttling"@,
            StaticAssistantTool::GetDns => "get_dns"@,
            StaticAssistantTool::GetCaptureFilter => "get_capture_filter"@,
            StaticAssistantTool::GetWebhooks => "get_webhooks"@,
            StaticAssistantTool::GetUpstreamProxy => "get_upstream_proxy"@,
            StaticAssistantTool::ProposeMapRemote => "propose_map_remote"@,
            StaticAssistantTool::ProposeDnsOverride => "propose_dns_override"@,
            StaticAssistantTool::ProposeThrottling => "propose_throttling"@,
            StaticAssistantTool::ProposeRewriteRule => "propose_rewrite_rule"@,
            StaticAssistantTool::ProposeMockRule => "propose_mock_rule"@,
            StaticAssistantTool::ProposeAccessRule => "propose_access_rule"@,
            StaticAssistantTool::ProposeCaptureFilter => "propose_capture_filter"@,
            StaticAssistantTool::ProposeUpstreamProxy => "propose_upstream_proxy"@,
            StaticAssistantTool::ProposeAction => "propose_action"@,
        }
    }

    /// The built-in tool with the given name, if any.
    pub fn from_name(name: &str) -> (r: Option<Self>)
        ensures
            r == static_tool_named(name@),
            r matches Some(t) ==> t.name_spec() == name@,
            r is None ==> forall|t: StaticAssistantTool| t.name_spec() != name@,
    {
        let n = chars_of(name);
        if eq_str(&n, "list_sessions") {
            Some(StaticAssistantTool::ListSessions)
        } else if eq_str(&n, "get_session") {
            Some(StaticAssistantTool::GetSession)
        } else if eq_str(&n, "get_config") {
            Some(StaticAssistantTool::GetConfig)
        } else if eq_str(&n, "get_feature_catalog") {
            Some(StaticAssistantTool::GetFeatureCatalog)
        } else if eq_str(&n, "get_rules") {
            Some(StaticAssistantTool::GetRules)
        } else if eq_str(&n, "get_protocol_metrics") {
            Some(StaticAssistantTool::GetProtocolMetrics)
        } else if eq_str(&n, "get_connections") {
            Some(StaticAssistantTool::GetConnections)
        } else if eq_str(&n, "get_breakpoint_diagnostics") {
            Some(StaticAssistantTool::GetBreakpointDiagnostics)
        } else if eq_str(&n, "get_throttling") {
            Some(StaticAssistantTool::GetThrottling)
        } else if eq_str(&n, "get_dns") {
            Some(StaticAssistantTool::GetDns)
        } else if eq_str(&n, "get_capture_filter") {
            Some(StaticAssistantTool::GetCaptureFilter)
        } else if eq_str(&n, "get_webhooks") {
            Some(StaticAssistantTool::GetWebhooks)
        } else if eq_str(&n, "get_upstream_proxy") {
            Some(StaticAssistantTool::GetUpstreamProxy)
        } else if eq_str(&n, "propose_map_remote") {
            Some(StaticAssistantTool::ProposeMapRemote)
        } else if eq_str(&n, "propose_dns_override") {
            Some(StaticAssistantTool::ProposeDnsOverride)
        } else if eq_str(&n, "propose_throttling") {
            Some(StaticAssistantTool::ProposeThrottling)
        } else if eq_str(&n, "propose_rewrite_rule") {
            Some(StaticAssistantTool::ProposeRewriteRule)
        } else if eq_str(&n, "propose_mock_rule") {
            Some(StaticAssistantTool::ProposeMockRule)
        } else if eq_str(&n, "propose_access_rule") {
            Some(StaticAssistantTool::ProposeAccessRule)
        } else if eq_str(&n, "propose_capture_filter") {
            Some(StaticAssistantTool::ProposeCaptureFilter)
        } else if eq_str(&n, "propose_upstream_proxy") {
            Some(StaticAssistantTool::ProposeUpstreamProxy)
        } else if eq_str(&n, "propose_action") {
            Some(StaticAssistantTool::ProposeAction)
        } else {
            None
        }
    }
}

pub fn execution_kind_label(kind: AssistantToolExecutionKind) -> (r: &'static str)
    ensures
        r@ == (match kind {
            AssistantToolExecutionKind::Read => "read"@,
            AssistantToolExecutionKind::Workspace => "workspace"@,
            AssistantToolExecutionKind::Proposal => "proposal"@,
        }),
{
    match kind {
        AssistantToolExecutionKind::Read => "read",
        AssistantToolExecutionKind::Workspace => "workspace",
        AssistantToolExecutionKind::Proposal => "proposal",
    }
}

pub fn risk_label(risk: AssistantToolRisk) -> (r: &'static str)
    ensures
        r@ == (match risk {
            AssistantToolRisk::Read => "read"@,
            AssistantToolRisk::UiSafe => "ui_safe"@,
            AssistantToolRisk::UiSensitive => "ui_sensitive"@,
            AssistantToolRisk::Mutate => "mutate"@,
            AssistantToolRisk::Network => "network"@,
            AssistantToolRisk::Destructive => "destructive"@,
        }),
{
    match risk {
        AssistantToolRisk::Read => "read",
        AssistantToolRisk::UiSafe => "ui_safe",
        AssistantToolRisk::UiSensitive => "ui_sensitive",
        AssistantToolRisk::Mutate => "mutate",
        AssistantToolRisk::Network => "network",
        AssistantToolRisk::Destructive => "destructive",
    }
}

} // verus!

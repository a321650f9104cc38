//! The capability probes of a model compatibility run, as a state machine.
//!
//! A run first checks the provider configuration, then asks the model for a
//! plain text answer, two context-priority answers, and a tool call. Each
//! step either passes its check and names the next request, or fails it and
//! ends the run. The driver sends each request to the provider and hands the
//! reply back; once every check has passed it replays the eval suite and
//! assembles the report with `finish`.
use vstd::prelude::*;
use crate::text::{chars_of, string_of, trim, trim_vec, decimal, decimal_exec};
use crate::json::{
    Json, JsonValue, models, entry_models, lemma_models, lemma_entry_models, text_value, entry,
    object1, object2, object3,
};
use crate::compat::{
    CompatCheck, context_priority_system_prompt, primary_priority_response_ok,
    secondary_fallback_response_ok, compact_probe_response, compact_spec, call_name,
    all_required_ok, EvalCaseSpec, EvalResult,
};
use crate::text::{contains, lower};

verus! {

/// The name of the echo tool that the tool-calling probe offers.
pub open spec fn probe_tool_name() -> Seq<char> {
    "oproxy_probe_echo"@
}

/// A chat message: `{"role": role, "content": content}`.
pub open spec fn chat(role: Seq<char>, content: Seq<char>) -> Json {
    Json::Object(seq![("role"@, Json::Str(role)), ("content"@, Json::Str(content))])
}

/// A chat message with this role and content.
pub fn chat_message(role: &str, content: &str) -> (r: JsonValue)
    ensures
        r.model() == chat(role@, content@),
{
    object2(entry("role", text_value(role)), entry("content", text_value(content)))
}

fn pair(a: JsonValue, b: JsonValue) -> (r: Vec<JsonValue>)
    ensures
        models(r@) == seq![a.model(), b.model()],
{
    let mut v: Vec<JsonValue> = Vec::new();
    v.push(a);
    v.push(b);
    proof {
        lemma_models(v@);
        assert(models(v@) =~= seq![a.model(), b.model()]);
    }
    v
}

/// The system prompt of the plain-text probe.
pub open spec fn plain_system() -> Seq<char> {
    "You are a connectivity probe. Answer in one short sentence."@
}

/// The question of the plain-text probe.
pub open spec fn plain_user() -> Seq<char> {
    "Reply with a brief confirmation that you are reachable."@
}

/// The messages of the plain-text probe.
pub fn plain_messages() -> (r: Vec<JsonValue>)
    ensures
        models(r@) == seq![chat("system"@, plain_system()), chat("user"@, plain_user())],
{
    pair(
        chat_message("system", "You are a connectivity probe. Answer in one short sentence."),
        chat_message("user", "Reply with a brief confirmation that you are reachable."),
    )
}

/// The system prompt of the tool-calling probe.
pub open spec fn tool_system() -> Seq<char> {
    "You are a tool-use probe. When a tool is available, call it instead of answering in prose."@
}

/// The instruction of the tool-calling probe, which names the echo tool.
pub open spec fn tool_user() -> Seq<char> {
    "Call the "@ + probe_tool_name() + " function with message set to the word ping."@
}

/// The messages of the tool-calling probe.
pub fn tool_request_messages() -> (r: Vec<JsonValue>)
    ensures
        models(r@) == seq![chat("system"@, tool_system()), chat("user"@, tool_user())],
{
    let mut u = chars_of("Call the ");
    u.extend_from_slice(chars_of("oproxy_probe_echo").as_slice());
    u.extend_from_slice(chars_of(" function with message set to the word ping.").as_slice());
    let user = string_of(&u);
    assert(user@ =~= tool_user());
    pair(
        chat_message(
            "system",
            "You are a tool-use probe. When a tool is available, call it instead of answering in prose.",
        ),
        chat_message("user", user.as_str()),
    )
}

/// The user question of the primary-priority probe.
pub open spec fn primary_user() -> Seq<char> {
    "Primary context: attached request host primary.example.com path /primary. Secondary UI state: selected request host secondary.example.com path /secondary. The user asks: explain this request. Which host and path should be treated as this request?"@
}

/// The user question of the secondary-fallback probe.
pub open spec fn fallback_user() -> Seq<char> {
    "Primary context: attached request id req-1, but no host, path, method, or flow details are available. Secondary UI state: visible selected request host fallback.example.com path /secondary. The user asks: explain this request. Primary is insufficient. Which host and path can be used as fallback?"@
}

/// The system prompt of both context-priority probes.
pub open spec fn priority_system() -> Seq<char> {
    "You are an oproxy assistant compatibility probe. Follow this context policy exactly: primary context is the user-intentionally attached request. Secondary context is UI/workspace state, visible sessions, and browser hints. If primary context is sufficient, answer only from primary even when secondary conflicts. If primary context is absent or insufficient, use secondary context as fallback. Answer with only the requested host and path."@
}

/// The messages of the primary-priority probe: the attached request and a
/// conflicting UI selection.
pub fn context_primary_priority_messages() -> (r: Vec<JsonValue>)
    ensures
        models(r@) == seq![chat("system"@, priority_system()), chat("user"@, primary_user())],
{
    pair(
        chat_message("system", context_priority_system_prompt()),
        chat_message(
            "user",
            "Primary context: attached request host primary.example.com path /primary. Secondary UI state: selected request host secondary.example.com path /secondary. The user asks: explain this request. Which host and path should be treated as this request?",
        ),
    )
}

/// The messages of the secondary-fallback probe: an attached request with no
/// details and a UI selection to fall back on.
pub fn context_secondary_fallback_messages() -> (r: Vec<JsonValue>)
    ensures
        models(r@) == seq![chat("system"@, priority_system()), chat("user"@, fallback_user())],
{
    pair(
        chat_message("system", context_priority_system_prompt()),
        chat_message(
            "user",
            "Primary context: attached request id req-1, but no host, path, method, or flow details are available. Secondary UI state: visible selected request host fallback.example.com path /secondary. The user asks: explain this request. Primary is insufficient. Which host and path can be used as fallback?",
        ),
    )
}

/// The system prompt of an eval case, which mirrors the assistant's
/// tool-routing guidance.
pub open spec fn eval_system() -> Seq<char> {
    "You are the oproxy assistant. Select the single most appropriate tool for the user's request and call it. Prefer specialized tools over the generic propose_action: propose_map_remote for host-to-host mapping, propose_dns_override for DNS, propose_throttling for throttling, propose_rewrite_rule for header/query/path/body/status rewrites, propose_mock_rule for mock responses, propose_access_rule for block/allow, propose_capture_filter for capture filtering, and propose_upstream_proxy for upstream proxy changes. Call exactly one tool; do not answer in prose."@
}

/// The messages of one eval case: the routing prompt and the case's prompt.
pub fn eval_messages(prompt: &str) -> (r: Vec<JsonValue>)
    ensures
        models(r@) == seq![chat("system"@, eval_system()), chat("user"@, prompt@)],
{
    pair(
        chat_message(
            "system",
            "You are the oproxy assistant. Select the single most appropriate tool for the user's request and call it. Prefer specialized tools over the generic propose_action: propose_map_remote for host-to-host mapping, propose_dns_override for DNS, propose_throttling for throttling, propose_rewrite_rule for header/query/path/body/status rewrites, propose_mock_rule for mock responses, propose_access_rule for block/allow, propose_capture_filter for capture filtering, and propose_upstream_proxy for upstream proxy changes. Call exactly one tool; do not answer in prose.",
        ),
        chat_message("user", prompt),
    )
}

/// The echo tool that the tool-calling probe offers, as an OpenAI function
/// tool with one required string parameter `message`.
pub open spec fn probe_tool_model() -> Json {
    Json::Object(
        seq![
            ("type"@, Json::Str("function"@)),
            (
                "function"@,
                Json::Object(
                    seq![
                        ("name"@, Json::Str(probe_tool_name())),
                        (
                            "description"@,
                            Json::Str(
                                "Compatibility probe. Echo the provided message back verbatim."@,
                            ),
                        ),
                        (
                            "parameters"@,
                            Json::Object(
                                seq![
                                    ("type"@, Json::Str("object"@)),
                                    ("required"@, Json::Array(seq![Json::Str("message"@)])),
                                    (
                                        "properties"@,
                                        Json::Object(
                                            seq![
                                                (
                                                    "message"@,
                                                    Json::Object(
                                                        seq![
                                                            ("type"@, Json::Str("string"@)),
                                                            (
                                                                "description"@,
                                                                Json::Str("Text to echo back."@),
                                                            ),
                                                        ],
                                                    ),
                                                ),
                                            ],
                                        ),
                                    ),
                                ],
                            ),
                        ),
                    ],
                ),
            ),
        ],
    )
}

/// The echo tool of the tool-calling probe.
pub fn probe_tool_spec() -> (r: JsonValue)
    ensures
        r.model() == probe_tool_model(),
{
    let message = object2(entry("type", text_value("string")), entry("description", text_value("Text to echo back.")));
    let properties = object1(entry("message", message));
    let mut req: Vec<JsonValue> = Vec::new();
    req.push(text_value("message"));
    proof {
        lemma_models(req@);
        assert(models(req@) =~= seq![Json::Str("message"@)]);
    }
    let parameters = object3(
        entry("type", text_value("object")),
        entry("required", JsonValue::Array(req)),
        entry("properties", properties),
    );
    let function = object3(
        entry("name", text_value("oproxy_probe_echo")),
        entry(
            "description",
            text_value("Compatibility probe. Echo the provided message back verbatim."),
        ),
        entry("parameters", parameters),
    );
    object2(entry("type", text_value("function")), entry("function", function))
}

/// The first of `calls` whose function name is `name`.
pub open spec fn first_named(calls: Seq<Json>, name: Seq<char>) -> Option<Json>
    decreases calls.len(),
{
    if calls.len() == 0 {
        None
    } else if call_name(calls[0]) == Some(name) {
        Some(calls[0])
    } else {
        first_named(calls.drop_first(), name)
    }
}

fn function_name(call: &JsonValue) -> (r: Option<&String>)
    ensures
        match r {
            Some(s) => call_name(call.model()) == Some(s@),
            None => call_name(call.model()) is None,
        },
{
    match call.get("function") {
        Some(f) => match f.get("name") {
            Some(n) => n.as_str(),
            None => None,
        },
        None => None,
    }
}

/// A copy of the first tool call that names the function `name`, if any.
pub fn first_named_tool_call(tool_calls: &[JsonValue], name: &str) -> (r: Option<JsonValue>)
    ensures
        match r {
            Some(c) => first_named(models(tool_calls@), name@) == Some(c.model()),
            None => first_named(models(tool_calls@), name@) is None,
        },
{
    let ghost all = models(tool_calls@);
    proof {
        lemma_models(tool_calls@);
    }
    let want = chars_of(name);
    assert(all.subrange(0, all.len() as int) =~= all);
    let mut i: usize = 0;
    while i < tool_calls.len()
        invariant
            i <= tool_calls@.len(),
            all == models(tool_calls@),
            all.len() == tool_calls@.len(),
            forall|j: int| 0 <= j < all.len() ==> #[trigger] all[j] == tool_calls@[j].model(),
            want@ == name@,
            first_named(all, name@) == first_named(all.subrange(i as int, all.len() as int), name@),
        decreases tool_calls.len() - i,
    {
        let ghost rest = all.subrange(i as int, all.len() as int);
        assert(rest[0] == all[i as int]);
        let hit = match function_name(&tool_calls[i]) {
            Some(n) => crate::text::eq_chars(&chars_of(n.as_str()), &want),
            None => false,
        };
        if hit {
            return Some(tool_calls[i].duplicate());
        }
        assert(rest.drop_first() =~= all.subrange(i + 1, all.len() as int));
        i = i + 1;
    }
    None
}

// ───────────────────────── the probe run ─────────────────────────

/// How far a compatibility run has got: the check it waits on, or done.
#[derive(Debug, Clone, Copy, PartialEq, Eq, Structural)]
pub enum ProbeStage {
    TextCompletion,
    PrimaryPriority,
    SecondaryFallback,
    ToolCalling,
    Done,
}

/// What the driver of a run does next.
#[derive(Debug)]
pub enum ProbeRequest {
    /// Ask the model for an answer to these messages with tools disabled,
    /// and hand back its text.
    Text(Vec<JsonValue>),
    /// Ask the model for an answer to these messages with these tools
    /// offered, and hand back its tool calls.
    Tools(Vec<JsonValue>, Vec<JsonValue>),
    /// Every check passed: replay the eval suite, then `finish` with the
    /// eval results.
    RunEvals,
    /// A check failed: `finish` without evals.
    Finish,
}

/// What the provider answered to a request.
#[derive(Debug)]
pub enum ProbeReply {
    /// The content of an answer with tools disabled, or the request's error.
    Text(Result<String, String>),
    /// The tool calls of an answer with tools offered, or the request's error.
    ToolCalls(Result<Vec<JsonValue>, String>),
}

/// A compatibility run in progress: the checks so far and the stage.
#[derive(Debug)]
pub struct CompatProbe {
    pub checks: Vec<CompatCheck>,
    pub stage: ProbeStage,
}

/// The id of the check that a stage runs.
pub open spec fn stage_id(stage: ProbeStage) -> Seq<char> {
    match stage {
        ProbeStage::TextCompletion => "text_completion"@,
        ProbeStage::PrimaryPriority => "context_primary_priority"@,
        ProbeStage::SecondaryFallback => "context_secondary_fallback"@,
        ProbeStage::ToolCalling => "tool_calling"@,
        ProbeStage::Done => Seq::empty(),
    }
}

/// The label of the check that a stage runs.
pub open spec fn stage_label(stage: ProbeStage) -> Seq<char> {
    match stage {
        ProbeStage::TextCompletion => "Plain text completion"@,
        ProbeStage::PrimaryPriority => "Primary context priority"@,
        ProbeStage::SecondaryFallback => "Secondary context fallback"@,
        ProbeStage::ToolCalling => "Tool calling"@,
        ProbeStage::Done => Seq::empty(),
    }
}

/// The stage after a passed check.
pub open spec fn stage_after(stage: ProbeStage) -> ProbeStage {
    match stage {
        ProbeStage::TextCompletion => ProbeStage::PrimaryPriority,
        ProbeStage::PrimaryPriority => ProbeStage::SecondaryFallback,
        ProbeStage::SecondaryFallback => ProbeStage::ToolCalling,
        _ => ProbeStage::Done,
    }
}

/// The reply is of the kind that the stage's request asks for.
pub open spec fn reply_fits(stage: ProbeStage, reply: ProbeReply) -> bool {
    match stage {
        ProbeStage::ToolCalling => reply is ToolCalls,
        ProbeStage::Done => false,
        _ => reply is Text,
    }
}

/// The primary-priority answer is right (see `primary_priority_response_ok`).
pub open spec fn primary_ok(c: Seq<char>) -> bool {
    contains(lower(c), "primary.example.com"@) && contains(lower(c), "/primary"@) && !contains(
        lower(c),
        "secondary.example.com"@,
    )
}

/// The fallback answer is right (see `secondary_fallback_response_ok`).
pub open spec fn fallback_ok(c: Seq<char>) -> bool {
    contains(lower(c), "fallback.example.com"@) && contains(lower(c), "/secondary"@)
}

/// Whether a reply passes the stage's check, and the check's detail. A
/// provider error fails the check with the error as detail (prefixed at the
/// tool-calling check).
pub open spec fn verdict(stage: ProbeStage, reply: ProbeReply) -> (bool, Seq<char>) {
    match reply {
        ProbeReply::Text(Err(e)) => (false, e@),
        ProbeReply::ToolCalls(Err(e)) => (
            false,
            "Tool-calling request failed (model may not support `tools`): "@ + e@,
        ),
        ProbeReply::Text(Ok(c)) => match stage {
            ProbeStage::TextCompletion => if trim(c@).len() > 0 {
                (
                    true,
                    "Model returned text ("@ + decimal(vstd::utf8::encode_utf8(trim(c@)).len())
                        + " chars)."@,
                )
            } else {
                (false, "Model accepted the request but returned empty content."@)
            },
            ProbeStage::PrimaryPriority => if primary_ok(c@) {
                (true, "Model answered from primary context despite conflicting secondary UI state."@)
            } else {
                (
                    false,
                    "Model did not clearly prioritize primary context. Response: "@ + compact_spec(
                        c@,
                    ),
                )
            },
            _ => if fallback_ok(c@) {
                (true, "Model used secondary context when primary context was insufficient."@)
            } else {
                (
                    false,
                    "Model did not clearly use secondary context as fallback. Response: "@
                        + compact_spec(c@),
                )
            },
        },
        ProbeReply::ToolCalls(Ok(calls)) => if first_named(models(calls@), probe_tool_name()) is Some {
            (true, "Model emitted a tool call."@)
        } else {
            (
                false,
                "Model did not emit a tool call when explicitly instructed; it cannot drive read/action tools."@,
            )
        },
    }
}

/// The request that comes after a check: after a failed check the run
/// finishes; after a passed one the next check's probe is sent, and after the
/// last the evals run.
pub open spec fn request_after(stage: ProbeStage, passed: bool, r: ProbeRequest) -> bool {
    if !passed {
        r is Finish
    } else {
        match stage_after(stage) {
            ProbeStage::PrimaryPriority => r matches ProbeRequest::Text(m) && models(m@) == seq![
                chat("system"@, priority_system()),
                chat("user"@, primary_user()),
            ],
            ProbeStage::SecondaryFallback => r matches ProbeRequest::Text(m) && models(m@) == seq![
                chat("system"@, priority_system()),
                chat("user"@, fallback_user()),
            ],
            ProbeStage::ToolCalling => r matches ProbeRequest::Tools(m, t) && models(m@) == seq![
                chat("system"@, tool_system()),
                chat("user"@, tool_user()),
            ] && models(t@) == seq![probe_tool_model()],
            _ => r is RunEvals,
        }
    }
}

/// The number of checks a run has passed by the time it waits at `stage`.
pub open spec fn checks_before(stage: ProbeStage) -> nat {
    match stage {
        ProbeStage::TextCompletion => 1,
        ProbeStage::PrimaryPriority => 2,
        ProbeStage::SecondaryFallback => 3,
        ProbeStage::ToolCalling => 4,
        ProbeStage::Done => 5,
    }
}

impl CompatProbe {
    /// A run's invariant: every check is required; while a check is pending
    /// every earlier check passed, one check per earlier check.
    pub open spec fn wf(self) -> bool {
        &&& forall|i: int| 0 <= i < self.checks@.len() ==> #[trigger] self.checks@[i].required
        &&& self.stage != ProbeStage::Done ==> {
            &&& self.checks@.len() == checks_before(self.stage)
            &&& forall|i: int| 0 <= i < self.checks@.len() ==> #[trigger] self.checks@[i].ok
        }
        &&& self.stage == ProbeStage::Done ==> 1 <= self.checks@.len() <= 5
    }

    /// Starts a run with the outcome of building the provider client: the
    /// configuration check passes and the plain-text probe goes out, or it
    /// fails with the builder's error and the run finishes.
    pub fn start(config: Result<(), String>) -> (r: (CompatProbe, ProbeRequest))
        ensures
            r.0.wf(),
            r.0.checks@.len() == 1,
            r.0.checks@[0].id@ == "provider_config"@,
            r.0.checks@[0].label@ == "Provider configuration"@,
            r.0.checks@[0].required,
            r.0.checks@[0].latency_ms is None,
            match config {
                Ok(_) => {
                    &&& r.0.checks@[0].ok
                    &&& r.0.checks@[0].detail@ == "Base URL, model, and credentials accepted."@
                    &&& r.0.stage == ProbeStage::TextCompletion
                    &&& r.1 matches ProbeRequest::Text(m) && models(m@) == seq![
                        chat("system"@, plain_system()),
                        chat("user"@, plain_user()),
                    ]
                },
                Err(e) => {
                    &&& !r.0.checks@[0].ok
                    &&& r.0.checks@[0].detail == e
                    &&& r.0.stage == ProbeStage::Done
                    &&& r.1 is Finish
                },
            },
    {
        let check = CompatCheck::new("provider_config", "Provider configuration", true);
        let mut checks: Vec<CompatCheck> = Vec::new();
        match config {
            Ok(_) => {
                checks.push(check.pass_config());
                (
                    CompatProbe { checks, stage: ProbeStage::TextCompletion },
                    ProbeRequest::Text(plain_messages()),
                )
            },
            Err(e) => {
                checks.push(check.fail(e, None));
                (CompatProbe { checks, stage: ProbeStage::Done }, ProbeRequest::Finish)
            },
        }
    }

    /// Takes the reply to the pending check's request, `elapsed_ms` after it
    /// was sent: records the check's check (see `verdict`) and returns what
    /// comes next (see `request_after`). Evals run only when every check
    /// passed; a run that stops early has a failed required check.
    pub fn step(&mut self, reply: ProbeReply, elapsed_ms: u128) -> (r: ProbeRequest)
        requires
            old(self).wf(),
            reply_fits(old(self).stage, reply),
        ensures
            final(self).wf(),
            final(self).checks@.len() == old(self).checks@.len() + 1,
            final(self).checks@.subrange(0, old(self).checks@.len() as int) == old(self).checks@,
            final(self).checks@.last().id@ == stage_id(old(self).stage),
            final(self).checks@.last().label@ == stage_label(old(self).stage),
            final(self).checks@.last().required,
            final(self).checks@.last().ok == verdict(old(self).stage, reply).0,
            final(self).checks@.last().detail@ == verdict(old(self).stage, reply).1,
            final(self).checks@.last().latency_ms == Some(elapsed_ms),
            final(self).stage == if verdict(old(self).stage, reply).0 {
                stage_after(old(self).stage)
            } else {
                ProbeStage::Done
            },
            request_after(old(self).stage, verdict(old(self).stage, reply).0, r),
            r is RunEvals ==> all_required_ok(final(self).checks@),
            r is Finish ==> !all_required_ok(final(self).checks@),
    {
        let stage = self.stage;
        let check = match stage {
            ProbeStage::TextCompletion => CompatCheck::new("text_completion", "Plain text completion", true),
            ProbeStage::PrimaryPriority => CompatCheck::new(
                "context_primary_priority",
                "Primary context priority",
                true,
            ),
            ProbeStage::SecondaryFallback => CompatCheck::new(
                "context_secondary_fallback",
                "Secondary context fallback",
                true,
            ),
            _ => CompatCheck::new("tool_calling", "Tool calling", true),
        };
        let ghost v = verdict(stage, reply);
        let (passed, detail): (bool, String) = match reply {
            ProbeReply::Text(Err(e)) => (false, e),
            ProbeReply::ToolCalls(Err(e)) => (
                false,
                joined("Tool-calling request failed (model may not support `tools`): ", e.as_str()),
            ),
            ProbeReply::Text(Ok(c)) => match stage {
                ProbeStage::TextCompletion => {
                    let tv = trim_vec(&chars_of(c.as_str()));
                    if tv.len() > 0 {
                        let t = string_of(&tv);
                        let n = t.as_str().as_bytes().len();
                        let mut d = chars_of("Model returned text (");
                        d.extend_from_slice(decimal_exec(n as u64).as_slice());
                        d.extend_from_slice(chars_of(" chars).").as_slice());
                        let detail = string_of(&d);
                        assert(detail@ =~= v.1);
                        (true, detail)
                    } else {
                        (false, "Model accepted the request but returned empty content.".to_owned())
                    }
                },
                ProbeStage::PrimaryPriority => if primary_priority_response_ok(c.as_str()) {
                    (
                        true,
                        "Model answered from primary context despite conflicting secondary UI state.".to_owned(),
                    )
                } else {
                    let compact = compact_probe_response(c.as_str());
                    (
                        false,
                        joined(
                            "Model did not clearly prioritize primary context. Response: ",
                            compact.as_str(),
                        ),
                    )
                },
                _ => if secondary_fallback_response_ok(c.as_str()) {
                    (true, "Model used secondary context when primary context was insufficient.".to_owned())
                } else {
                    let compact = compact_probe_response(c.as_str());
                    (
                        false,
                        joined(
                            "Model did not clearly use secondary context as fallback. Response: ",
                            compact.as_str(),
                        ),
                    )
                },
            },
            ProbeReply::ToolCalls(Ok(calls)) => if first_named_tool_call(calls.as_slice(), "oproxy_probe_echo").is_some() {
                (true, "Model emitted a tool call.".to_owned())
            } else {
                (
                    false,
                    "Model did not emit a tool call when explicitly instructed; it cannot drive read/action tools.".to_owned(),
                )
            },
        };
        assert(passed == v.0);
        assert(detail@ == v.1);
        let done = if passed {
            check.pass(detail, elapsed_ms)
        } else {
            check.fail(detail, Some(elapsed_ms))
        };
        let ghost before = self.checks@;
        self.checks.push(done);
        assert(self.checks@.subrange(0, before.len() as int) =~= before);
        if !passed {
            self.stage = ProbeStage::Done;
            let ghost last = self.checks@.len() - 1;
            assert(self.checks@[last].required && !self.checks@[last].ok);
            return ProbeRequest::Finish;
        }
        match stage {
            ProbeStage::TextCompletion => {
                self.stage = ProbeStage::PrimaryPriority;
                ProbeRequest::Text(context_primary_priority_messages())
            },
            ProbeStage::PrimaryPriority => {
                self.stage = ProbeStage::SecondaryFallback;
                ProbeRequest::Text(context_secondary_fallback_messages())
            },
            ProbeStage::SecondaryFallback => {
                self.stage = ProbeStage::ToolCalling;
                let mut tools: Vec<JsonValue> = Vec::new();
                tools.push(probe_tool_spec());
                proof {
                    lemma_models(tools@);
                    assert(models(tools@) =~= seq![probe_tool_model()]);
                }
                ProbeRequest::Tools(tool_request_messages(), tools)
            },
            _ => {
                self.stage = ProbeStage::Done;
                ProbeRequest::RunEvals
            },
        }
    }
}

fn joined(a: &str, b: &str) -> (r: String)
    ensures
        r@ == a@ + b@,
{
    let mut v = chars_of(a);
    v.extend_from_slice(chars_of(b).as_slice());
    string_of(&v)
}


/// The result of an eval case whose provider request failed: no tool
/// called, a zero score, and the provider's error as detail.
pub fn eval_request_failed(case: &EvalCaseSpec, error: &str, latency_ms: u128) -> (r: EvalResult)
    ensures
        r.id@ == case.id@,
        r.prompt@ == case.prompt@,
        r.expected_tool@ == case.expected_tool@,
        r.called_tool is None,
        !r.ok,
        r.score_percent == 0,
        r.fields_matched == 0,
        r.fields_total == 0,
        r.detail@ == "Provider request failed: "@ + error@,
        r.latency_ms == Some(latency_ms),
{
    EvalResult {
        id: string_of(&chars_of(case.id.as_str())),
        prompt: string_of(&chars_of(case.prompt.as_str())),
        expected_tool: string_of(&chars_of(case.expected_tool.as_str())),
        called_tool: None,
        ok: false,
        score_percent: 0,
        fields_matched: 0,
        fields_total: 0,
        detail: joined("Provider request failed: ", error),
        latency_ms: Some(latency_ms),
    }
}

} // verus!

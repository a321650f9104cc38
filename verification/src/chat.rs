//! The assistant's chat turn, as a state machine.
//!
//! The model is asked with the tools offered. An answer without tool calls
//! ends the turn. Otherwise the driver runs each call, the results go back
//! into the conversation, and the model is asked again, for at most
//! `MAX_TOOL_LOOPS` rounds; a round that proposes an action ends the turn
//! so the user can confirm it. When the rounds are spent the model is asked
//! once more with tools disabled, to answer from what it gathered.
use vstd::prelude::*;
use crate::actions::risk_category;
use crate::compat::call_name;
use crate::json::{Json, JsonValue, json_text, text_value, entry, object1, object3};
use crate::pending::AssistantAction;
use crate::text::{chars_of, string_of, trim, trim_vec};
use crate::tools::{tool_summary, tool_summary_of};

verus! {

/// Rounds of tool calls in one chat turn.
pub const MAX_TOOL_LOOPS: usize = 4;

/// What the chat reports of one tool call.
#[derive(Debug)]
pub struct AssistantToolEvent {
    pub name: String,
    pub category: String,
    pub status: String,
    pub summary: Option<String>,
}

/// How running a tool call went.
#[derive(Debug)]
pub enum ToolOutcome {
    /// A read tool's result.
    Read(JsonValue),
    /// A workspace tool's message, and its result as a document.
    Workspace(String, JsonValue),
    /// An action was proposed and waits for confirmation under its id.
    Proposed(AssistantAction),
    /// The arguments were unreadable or the tool failed.
    Failed(String),
}

/// A tool call's event, the tool message that answers it, and the action
/// it proposed, if any.
#[derive(Debug)]
pub struct ProcessedToolCall {
    pub event: AssistantToolEvent,
    pub message: JsonValue,
    pub proposed_action: Option<AssistantAction>,
}

/// The id of a tool call, `tool_call` when it has none.
pub open spec fn call_id_of(call: Json) -> Seq<char> {
    match call.get("id"@) {
        Some(v) => match v.text() {
            Some(t) => t,
            None => "tool_call"@,
        },
        None => "tool_call"@,
    }
}

/// The function a tool call names, empty when it names none.
pub open spec fn call_name_or_empty(call: Json) -> Seq<char> {
    match call_name(call) {
        Some(n) => n,
        None => Seq::empty(),
    }
}

/// The document a tool call's result goes back to the model as.
pub open spec fn outcome_content(outcome: ToolOutcome) -> Json {
    match outcome {
        ToolOutcome::Read(v) => v.model(),
        ToolOutcome::Workspace(_, v) => v.model(),
        ToolOutcome::Proposed(a) => Json::Object(
            seq![
                ("status"@, Json::Str("needs_confirmation"@)),
                ("action_id"@, Json::Str(a.action_id@)),
                ("summary"@, Json::Str(a.summary@)),
            ],
        ),
        ToolOutcome::Failed(e) => Json::Object(seq![("error"@, Json::Str(e@))]),
    }
}

/// The category, status and summary of a tool call's event.
pub open spec fn outcome_event(outcome: ToolOutcome) -> (Seq<char>, Seq<char>, Seq<char>) {
    match outcome {
        ToolOutcome::Read(v) => ("read"@, "ok"@, tool_summary_of(v.model())),
        ToolOutcome::Workspace(m, _) => ("ui"@, "ok"@, m@),
        ToolOutcome::Proposed(a) => (
            match a.risk {
                crate::actions::AssistantActionRisk::Mutate => "mutate"@,
                crate::actions::AssistantActionRisk::Network => "network"@,
                crate::actions::AssistantActionRisk::Destructive => "destructive"@,
            },
            "needs_confirmation"@,
            a.summary@,
        ),
        ToolOutcome::Failed(e) => ("unknown"@, "error"@, e@),
    }
}

fn call_id(call: &JsonValue) -> (r: String)
    ensures
        r@ == call_id_of(call.model()),
{
    match call.get("id") {
        Some(v) => match v.as_str() {
            Some(t) => t.clone(),
            None => "tool_call".to_owned(),
        },
        None => "tool_call".to_owned(),
    }
}

fn call_function_name(call: &JsonValue) -> (r: String)
    ensures
        r@ == call_name_or_empty(call.model()),
{
    match call.get("function") {
        Some(f) => match f.get("name") {
            Some(n) => match n.as_str() {
                Some(t) => t.clone(),
                None => String::new(),
            },
            None => String::new(),
        },
        None => String::new(),
    }
}

/// Turns how a tool call went into its event and the tool message that
/// answers the call: `{"role": "tool", "tool_call_id": id, "content": text}`
/// with the compact JSON text of the result.
pub fn process_tool_call(call: &JsonValue, outcome: ToolOutcome) -> (r: ProcessedToolCall)
    ensures
        r.event.name@ == call_name_or_empty(call.model()),
        r.event.category@ == outcome_event(outcome).0,
        r.event.status@ == outcome_event(outcome).1,
        r.event.summary matches Some(s) && s@ == outcome_event(outcome).2,
        r.message.model() == Json::Object(
            seq![
                ("role"@, Json::Str("tool"@)),
                ("tool_call_id"@, Json::Str(call_id_of(call.model()))),
                ("content"@, Json::Str(json_text(outcome_content(outcome)))),
            ],
        ),
        match outcome {
            ToolOutcome::Proposed(a) => r.proposed_action == Some(a),
            _ => r.proposed_action is None,
        },
{
    let id = call_id(call);
    let name = call_function_name(call);
    let ghost content_model = outcome_content(outcome);
    let ghost event_model = outcome_event(outcome);
    let (category, status, summary, content, proposed): (&str, &str, String, JsonValue, Option<
        AssistantAction,
    >) = match outcome {
        ToolOutcome::Read(result) => {
            let summary = tool_summary(&result);
            ("read", "ok", summary, result, None)
        },
        ToolOutcome::Workspace(message, result) => ("ui", "ok", message, result, None),
        ToolOutcome::Proposed(action) => {
            let content = object3(
                entry("status", text_value("needs_confirmation")),
                entry("action_id", text_value(action.action_id.as_str())),
                entry("summary", text_value(action.summary.as_str())),
            );
            let summary = action.summary.clone();
            (risk_category(action.risk), "needs_confirmation", summary, content, Some(action))
        },
        ToolOutcome::Failed(error) => {
            let content = object1(entry("error", text_value(error.as_str())));
            ("unknown", "error", error, content, None)
        },
    };
    assert(content.model() == content_model);
    let text = content.to_text();
    let message = object3(
        entry("role", text_value("tool")),
        entry("tool_call_id", text_value(id.as_str())),
        entry("content", text_value(text.as_str())),
    );
    ProcessedToolCall {
        event: AssistantToolEvent {
            name,
            category: category.to_owned(),
            status: status.to_owned(),
            summary: Some(summary),
        },
        message,
        proposed_action: proposed,
    }
}


// ───────────────────────── the chat turn ─────────────────────────

/// The assistant's answer to a chat turn: its message, what each tool call
/// did, and the actions it proposed.
#[derive(Debug)]
pub struct AssistantChatResponse {
    pub message: String,
    pub tool_events: Vec<AssistantToolEvent>,
    pub proposed_actions: Vec<AssistantAction>,
}

/// A chat turn in progress: the conversation so far, the tool events and
/// proposed actions, the rounds of tool calls run, and the text of the
/// model's last answer.
#[derive(Debug)]
pub struct ChatTurn {
    pub messages: Vec<JsonValue>,
    pub tool_events: Vec<AssistantToolEvent>,
    pub proposed_actions: Vec<AssistantAction>,
    pub rounds: usize,
    pub content: String,
}

/// What the driver of a chat turn does next.
#[derive(Debug)]
pub enum ChatStep {
    /// Ask the model about the turn's messages with the tools offered.
    AskWithTools(ChatTurn),
    /// Run these tool calls in order and hand back how each went.
    RunTools(ChatTurn, Vec<JsonValue>),
    /// Ask the model about the turn's messages with tools disabled.
    AskTextOnly(ChatTurn),
    /// The turn is over.
    Answer(AssistantChatResponse),
}

/// The message of a turn that proposed actions while the model wrote no
/// text.
pub open spec fn prepared_message() -> Seq<char> {
    "I prepared the action below. Review it and click Apply when you want me to run it."@
}

/// The message of a turn whose tool rounds were spent without a final
/// answer.
pub open spec fn budget_message() -> Seq<char> {
    "I gathered the available context but could not compose a final answer within the tool budget. Try narrowing the request."@
}

/// The events of processed tool calls, in order.
pub open spec fn events_of(p: Seq<ProcessedToolCall>) -> Seq<AssistantToolEvent> {
    p.map_values(|c: ProcessedToolCall| c.event)
}

/// The tool messages of processed tool calls, in order.
pub open spec fn messages_of(p: Seq<ProcessedToolCall>) -> Seq<JsonValue> {
    p.map_values(|c: ProcessedToolCall| c.message)
}

/// The actions that processed tool calls proposed, in order.
pub open spec fn actions_of(p: Seq<ProcessedToolCall>) -> Seq<AssistantAction>
    decreases p.len(),
{
    if p.len() == 0 {
        Seq::empty()
    } else {
        match p.last().proposed_action {
            Some(a) => actions_of(p.drop_last()).push(a),
            None => actions_of(p.drop_last()),
        }
    }
}

impl ChatTurn {
    /// A turn that has not run tools or proposed anything.
    pub open spec fn wf(self) -> bool {
        self.rounds < MAX_TOOL_LOOPS && self.proposed_actions@.len() == 0
    }

    /// Starts a turn on the initial messages: the model is asked with the
    /// tools offered.
    pub fn start(messages: Vec<JsonValue>) -> (r: ChatStep)
        ensures
            r matches ChatStep::AskWithTools(t) && t.wf() && t.rounds == 0 && t.messages == messages
                && t.tool_events@.len() == 0,
    {
        ChatStep::AskWithTools(
            ChatTurn {
                messages,
                tool_events: Vec::new(),
                proposed_actions: Vec::new(),
                rounds: 0,
                content: String::new(),
            },
        )
    }

    /// Takes the model's answer with tools offered: its text, its tool calls
    /// and the raw assistant message. Without tool calls the text is the
    /// turn's answer; otherwise the raw message joins the conversation and
    /// the calls are run.
    pub fn on_answer(self, content: String, tool_calls: Vec<JsonValue>, raw_message: JsonValue) -> (r:
        ChatStep)
        requires
            self.wf(),
        ensures
            tool_calls@.len() == 0 ==> (r matches ChatStep::Answer(a) && a.message == content
                && a.tool_events@ == self.tool_events@ && a.proposed_actions@.len() == 0),
            tool_calls@.len() > 0 ==> (r matches ChatStep::RunTools(t, calls) && t.wf() && calls
                == tool_calls && t.rounds == self.rounds && t.content == content && t.messages@
                == self.messages@.push(raw_message) && t.tool_events@ == self.tool_events@),
    {
        if tool_calls.len() == 0 {
            return ChatStep::Answer(
                AssistantChatResponse {
                    message: content,
                    tool_events: self.tool_events,
                    proposed_actions: self.proposed_actions,
                },
            );
        }
        let mut turn = self;
        turn.messages.push(raw_message);
        turn.content = content;
        ChatStep::RunTools(turn, tool_calls)
    }

    /// Takes how each tool call of the round went, in order: their events
    /// and tool messages join the turn. A round that proposed actions ends
    /// the turn with the model's text (or a note to review the action when
    /// it wrote none); otherwise the model is asked again, with tools while
    /// rounds remain and without them after the last.
    pub fn on_tools_done(self, processed: Vec<ProcessedToolCall>) -> (r: ChatStep)
        requires
            self.wf(),
        ensures
            actions_of(processed@).len() > 0 ==> (r matches ChatStep::Answer(a) && a.message@ == (
                if trim(self.content@).len() == 0 {
                    prepared_message()
                } else {
                    self.content@
                }) && a.tool_events@ == self.tool_events@ + events_of(processed@)
                && a.proposed_actions@ == actions_of(processed@)),
            actions_of(processed@).len() == 0 && self.rounds + 1 < MAX_TOOL_LOOPS ==> (r matches ChatStep::AskWithTools(t)
                && t.wf() && t.rounds == self.rounds + 1 && t.messages@ == self.messages@ + messages_of(
                processed@,
            ) && t.tool_events@ == self.tool_events@ + events_of(processed@)),
            actions_of(processed@).len() == 0 && self.rounds + 1 == MAX_TOOL_LOOPS ==> (r matches ChatStep::AskTextOnly(t)
                && t.rounds == MAX_TOOL_LOOPS && t.messages@ == self.messages@ + messages_of(processed@)
                && t.tool_events@ == self.tool_events@ + events_of(processed@)
                && t.proposed_actions@.len() == 0),
    {
        let mut turn = self;
        let ghost start_messages = turn.messages@;
        let ghost start_events = turn.tool_events@;
        let mut rest = processed;
        let ghost all = rest@;
        let n = rest.len();
        assert(all.len() == n);
        let mut taken: usize = 0;
        while rest.len() > 0
            invariant
                taken + rest@.len() == all.len(),
                all.len() <= usize::MAX,
                rest@ == all.subrange(taken as int, all.len() as int),
                turn.messages@ == start_messages + messages_of(all.subrange(0, taken as int)),
                turn.tool_events@ == start_events + events_of(all.subrange(0, taken as int)),
                turn.proposed_actions@ == actions_of(all.subrange(0, taken as int)),
                turn.rounds == self.rounds,
                turn.content == self.content,
            decreases rest.len(),
        {
            let c = rest.remove(0);
            let ghost pre = all.subrange(0, taken as int);
            let ghost next = all.subrange(0, taken + 1);
            assert(c == all[taken as int]);
            assert(next.drop_last() =~= pre);
            assert(next.last() == c);
            assert(messages_of(next) =~= messages_of(pre).push(c.message));
            assert(events_of(next) =~= events_of(pre).push(c.event));
            turn.messages.push(c.message);
            turn.tool_events.push(c.event);
            match c.proposed_action {
                Some(a) => {
                    turn.proposed_actions.push(a);
                },
                None => {},
            }
            taken = taken + 1;
            assert(rest@ =~= all.subrange(taken as int, all.len() as int));
        }
        assert(all.subrange(0, all.len() as int) =~= all);
        turn.rounds = turn.rounds + 1;
        if turn.proposed_actions.len() > 0 {
            let message = if trim_vec(&chars_of(turn.content.as_str())).len() == 0 {
                "I prepared the action below. Review it and click Apply when you want me to run it.".to_owned()
            } else {
                turn.content
            };
            return ChatStep::Answer(
                AssistantChatResponse {
                    message,
                    tool_events: turn.tool_events,
                    proposed_actions: turn.proposed_actions,
                },
            );
        }
        if turn.rounds < MAX_TOOL_LOOPS {
            ChatStep::AskWithTools(turn)
        } else {
            ChatStep::AskTextOnly(turn)
        }
    }

    /// Takes the model's answer with tools disabled, or the request's
    /// error: a non-blank answer is the turn's message, anything else the
    /// note that the tool budget was spent.
    pub fn on_final(self, reply: Result<String, String>) -> (r: AssistantChatResponse)
        ensures
            r.message@ == match reply {
                Ok(c) => if trim(c@).len() > 0 {
                    c@
                } else {
                    budget_message()
                },
                Err(_) => budget_message(),
            },
            r.tool_events == self.tool_events,
            r.proposed_actions == self.proposed_actions,
    {
        let message = match reply {
            Ok(c) => if trim_vec(&chars_of(c.as_str())).len() > 0 {
                c
            } else {
                "I gathered the available context but could not compose a final answer within the tool budget. Try narrowing the request.".to_owned()
            },
            Err(_) => "I gathered the available context but could not compose a final answer within the tool budget. Try narrowing the request.".to_owned(),
        };
        AssistantChatResponse {
            message,
            tool_events: self.tool_events,
            proposed_actions: self.proposed_actions,
        }
    }
}


/// A turn that ends with a proposed action always says something: the
/// model's text when it wrote some, the note to review the action
/// otherwise.
pub proof fn law_proposal_answer_is_never_blank(content: Seq<char>)
    ensures
        trim(
            if trim(content).len() == 0 {
                prepared_message()
            } else {
                content
            },
        ).len() > 0,
{
    if trim(content).len() == 0 {
        reveal_strlit(
            "I prepared the action below. Review it and click Apply when you want me to run it.",
        );
        let m = prepared_message();
        assert(!crate::text::is_ws(m[0]));
        assert(crate::text::trim_start(m) == m);
        assert(!crate::text::is_ws(m[m.len() - 1]));
    }
}

/// A turn whose tool rounds are spent always says something: the model's
/// non-blank final text, or the note that the budget was spent.
pub proof fn law_final_answer_is_never_blank(reply: Option<Seq<char>>)
    ensures
        trim(
            match reply {
                Some(c) => if trim(c).len() > 0 {
                    c
                } else {
                    budget_message()
                },
                None => budget_message(),
            },
        ).len() > 0,
{
    reveal_strlit(
        "I gathered the available context but could not compose a final answer within the tool budget. Try narrowing the request.",
    );
    let m = budget_message();
    assert(!crate::text::is_ws(m[0]));
    assert(crate::text::trim_start(m) == m);
    assert(!crate::text::is_ws(m[m.len() - 1]));
}

} // verus!

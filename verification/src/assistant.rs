//! The assistant's context policy (what counts as the primary subject, what
//! is only secondary UI state), the filter it derives from the workspace's
//! sessions view, and the confirmation-token comparison.
use vstd::prelude::*;
use crate::listing::{SessionListFilter, SessionSort, SessionSortDirection};
use crate::text::{
    strs_view, chars_of, string_of, clone_strs, clone_opt, lower, lower_vec, eq_chars, eq_str, trim,
    trim_vec,
};
use crate::json::{Json, JsonValue};

verus! {

// ───────────────────────── workspace sessions view ─────────────────────────

/// Sort direction of the workspace's sessions view.
#[derive(Debug, Clone, Copy, PartialEq, Eq, Structural)]
pub enum SortDirection {
    Asc,
    Desc,
}

/// Sort column and direction of the workspace's sessions view.
#[derive(Debug, Clone)]
pub struct WorkspaceSort {
    pub key: String,
    pub dir: SortDirection,
}

/// The parts of the workspace's sessions view that select and order the
/// listed sessions, and the session the UI has selected.
#[derive(Debug, Clone)]
pub struct SessionsViewState {
    pub query: String,
    pub regex: bool,
    pub methods: Vec<String>,
    pub status_buckets: Vec<String>,
    pub host_focus: Vec<String>,
    pub host_filter: Option<String>,
    pub sort: WorkspaceSort,
    pub selected_session_id: Option<String>,
}

/// The listing direction of a workspace sort direction.
pub open spec fn direction_of(d: SortDirection) -> SessionSortDirection {
    match d {
        SortDirection::Asc => SessionSortDirection::Asc,
        SortDirection::Desc => SessionSortDirection::Desc,
    }
}

/// The listing filter the assistant sees: the view's selections, with the
/// method and status lists always present (an empty list selects nothing).
pub fn session_filter_from_workspace_context(view: &SessionsViewState) -> (r: SessionListFilter)
    ensures
        r.query == view.query,
        r.regex == view.regex,
        r.methods matches Some(m) && m@ == view.methods@,
        r.status_buckets matches Some(b) && b@ == view.status_buckets@,
        r.host_focus@ == view.host_focus@,
        r.host_filter == view.host_filter,
        r.sort.key == view.sort.key,
        r.sort.dir == direction_of(view.sort.dir),
{
    SessionListFilter {
        query: view.query.clone(),
        regex: view.regex,
        methods: Some(clone_strs(&view.methods)),
        status_buckets: Some(clone_strs(&view.status_buckets)),
        host_focus: clone_strs(&view.host_focus),
        host_filter: clone_opt(&view.host_filter),
        sort: SessionSort {
            key: view.sort.key.clone(),
            dir: match view.sort.dir {
                SortDirection::Asc => SessionSortDirection::Asc,
                SortDirection::Desc => SessionSortDirection::Desc,
            },
        },
    }
}

/// Some method in the list equals `m`, ignoring ASCII case.
pub open spec fn has_method(methods: Seq<String>, m: Seq<char>) -> bool {
    exists|i: int| 0 <= i < methods.len() && lower(#[trigger] methods[i]@) == lower(m)
}

fn contains_method(methods: &Vec<String>, m: &str) -> (r: bool)
    ensures
        r == has_method(methods@, m@),
{
    let want = lower_vec(&chars_of(m));
    let mut i: usize = 0;
    while i < methods.len()
        invariant
            i <= methods@.len(),
            want@ == lower(m@),
            forall|j: int| 0 <= j < i ==> lower(#[trigger] methods@[j]@) != lower(m@),
        decreases methods.len() - i,
    {
        if eq_chars(&lower_vec(&chars_of(methods[i].as_str())), &want) {
            return true;
        }
        i = i + 1;
    }
    false
}

/// The listing filter of the sessions table: the view's selections, where
/// selecting `GET` also selects WebSocket upgrades (`WS`) unless the view
/// already names them.
pub fn session_filter_from_workspace(view: &SessionsViewState) -> (r: SessionListFilter)
    ensures
        r.query == view.query,
        r.regex == view.regex,
        r.methods matches Some(ms) && strs_view(ms@) == if has_method(view.methods@, "GET"@)
            && !has_method(view.methods@, "WS"@) {
            strs_view(view.methods@).push("WS"@)
        } else {
            strs_view(view.methods@)
        },
        r.status_buckets matches Some(b) && b@ == view.status_buckets@,
        r.host_focus@ == view.host_focus@,
        r.host_filter == view.host_filter,
        r.sort.key == view.sort.key,
        r.sort.dir == direction_of(view.sort.dir),
{
    let mut filter = session_filter_from_workspace_context(view);
    if contains_method(&view.methods, "GET") && !contains_method(&view.methods, "WS") {
        let mut methods = clone_strs(&view.methods);
        methods.push(string_of(&chars_of("WS")));
        filter.methods = Some(methods);
        assert(strs_view(filter.methods->0@) =~= strs_view(view.methods@).push("WS"@));
    }
    filter
}

// ───────────────────────── context policy ─────────────────────────

/// The request the user deliberately attached, as the primary subject.
#[derive(Debug, Clone)]
pub struct AssistantPrimarySubject {
    pub kind: String,
    pub session_id: String,
    pub instruction: String,
}

/// Which context is primary, which is secondary, and the rule between them.
#[derive(Debug, Clone)]
pub struct AssistantContextPriority {
    pub primary: Option<String>,
    pub secondary: Vec<String>,
    pub rule: String,
}

pub open spec fn primary_instruction() -> Seq<char> {
    "This request was intentionally attached from Ask Assistant. Treat selected_session as the primary subject for the user's next message. Use secondary context only to fill gaps, answer broader follow-ups, or when the primary is insufficient."@
}

pub open spec fn priority_rule() -> Seq<char> {
    "Use primary context first. Treat all workspace, visible Sessions, selected UI state, and client hints as secondary. Use secondary only when primary is absent or not sufficient to answer."@
}

/// The secondary context sources, in order.
pub open spec fn secondary_sources() -> Seq<Seq<char>> {
    seq![
        "workspace.sessions_view"@,
        "visible_sessions"@,
        "workspace.feature_views"@,
        "client_hints.ui_state"@,
    ]
}

/// The primary subject for a session attached by the user.
pub fn primary_subject_for_attached_session(id: &str) -> (r: AssistantPrimarySubject)
    ensures
        r.kind@ == "attached_session"@,
        r.session_id@ == id@,
        r.instruction@ == primary_instruction(),
{
    AssistantPrimarySubject {
        kind: string_of(&chars_of("attached_session")),
        session_id: string_of(&chars_of(id)),
        instruction: string_of(&chars_of(
            "This request was intentionally attached from Ask Assistant. Treat selected_session as the primary subject for the user's next message. Use secondary context only to fill gaps, answer broader follow-ups, or when the primary is insufficient.",
        )),
    }
}

fn push_str(out: &mut Vec<char>, s: &str)
    ensures
        final(out)@ == old(out)@ + s@,
{
    let c = chars_of(s);
    let mut i: usize = 0;
    let ghost start = out@;
    while i < c.len()
        invariant
            i <= c@.len(),
            c@ == s@,
            out@ == start + c@.subrange(0, i as int),
        decreases c.len() - i,
    {
        out.push(c[i]);
        i = i + 1;
        assert(out@ =~= start + c@.subrange(0, i as int));
    }
    assert(c@.subrange(0, c@.len() as int) =~= c@);
}

/// The context priority: the attached session, if any, is primary; the
/// workspace, the visible sessions and client UI hints are secondary.
pub fn context_priority(attached_session_id: Option<&str>) -> (r: AssistantContextPriority)
    ensures
        r.primary matches Some(p) ==> attached_session_id matches Some(id) && p@
            == "primary_subject selected_session for attached session "@ + id@,
        r.primary is None ==> attached_session_id is None,
        strs_view(r.secondary@) == secondary_sources(),
        r.rule@ == priority_rule(),
{
    let primary = match attached_session_id {
        Some(id) => {
            let mut p: Vec<char> = Vec::new();
            push_str(&mut p, "primary_subject selected_session for attached session ");
            push_str(&mut p, id);
            Some(string_of(&p))
        },
        None => None,
    };
    let mut secondary: Vec<String> = Vec::new();
    secondary.push(string_of(&chars_of("workspace.sessions_view")));
    secondary.push(string_of(&chars_of("visible_sessions")));
    secondary.push(string_of(&chars_of("workspace.feature_views")));
    secondary.push(string_of(&chars_of("client_hints.ui_state")));
    assert(strs_view(secondary@) =~= secondary_sources());
    AssistantContextPriority {
        primary,
        secondary,
        rule: string_of(&chars_of(
            "Use primary context first. Treat all workspace, visible Sessions, selected UI state, and client hints as secondary. Use secondary only when primary is absent or not sufficient to answer.",
        )),
    }
}

// ───────────────────────── confirmation tokens ─────────────────────────

proof fn lemma_or_xor_zero(d: u8, a: u8, b: u8)
    ensures
        ((d | (a ^ b)) == 0) == (d == 0 && a == b),
{
    assert(((d | (a ^ b)) == 0) == (d == 0 && a == b)) by (bit_vector);
}

/// Compares two confirmation tokens byte by byte without stopping at the
/// first difference; equal exactly when the strings are equal.
pub fn constant_time_eq(left: &str, right: &str) -> (r: bool)
    ensures
        r == (left@ == right@),
{
    let l = left.as_bytes();
    let rb = right.as_bytes();
    proof {
        vstd::utf8::encode_utf8_decode_utf8(left@);
        vstd::utf8::encode_utf8_decode_utf8(right@);
    }
    if l.len() != rb.len() {
        assert(l@ != rb@);
        return false;
    }
    let mut diff: u8 = 0;
    let mut i: usize = 0;
    while i < l.len()
        invariant
            i <= l@.len(),
            l@.len() == rb@.len(),
            (diff == 0) == (forall|j: int| 0 <= j < i ==> l@[j] == rb@[j]),
        decreases l.len() - i,
    {
        proof {
            lemma_or_xor_zero(diff, l@[i as int], rb@[i as int]);
        }
        diff = diff | (l[i] ^ rb[i]);
        i = i + 1;
    }
    if diff == 0 {
        assert(l@ =~= rb@);
    }
    diff == 0
}

// ───────────────────────── client attachments ─────────────────────────

/// The client context names an attachment that is not `null`.
pub open spec fn has_attachment(client_context: Option<Json>) -> bool {
    match client_context {
        Some(c) => match c.get("attachment"@) {
            Some(a) => !(a is Null),
            None => false,
        },
        None => false,
    }
}

/// Whether the chat request's client context carries an explicit
/// attachment (a `null` attachment does not count).
pub fn has_explicit_attachment(client_context: Option<&JsonValue>) -> (r: bool)
    ensures
        r == has_attachment(
            match client_context {
                Some(c) => Some(c.model()),
                None => None,
            },
        ),
{
    match client_context {
        Some(c) => match c.get("attachment") {
            Some(a) => !a.is_null(),
            None => false,
        },
        None => false,
    }
}

/// The attached session's id: the attachment must be of kind `session` and
/// its id, trimmed, non-empty and at most 256 bytes long.
pub open spec fn attached_session_of(client_context: Option<Json>) -> Option<Seq<char>> {
    match client_context {
        None => None,
        Some(c) => match c.get("attachment"@) {
            None => None,
            Some(a) => {
                let kind = match a.get("kind"@) {
                    Some(k) => k.text(),
                    None => None,
                };
                if kind != Some("session"@) {
                    None
                } else {
                    match a.get("id"@) {
                        Some(v) => match v.text() {
                            Some(raw) => {
                                let id = trim(raw);
                                if id.len() == 0 || vstd::utf8::encode_utf8(id).len() > 256 {
                                    None
                                } else {
                                    Some(id)
                                }
                            },
                            None => None,
                        },
                        None => None,
                    }
                }
            },
        },
    }
}

/// The id of the session the user attached to the chat request, if any.
pub fn attached_session_id(client_context: Option<&JsonValue>) -> (r: Option<String>)
    ensures
        match r {
            Some(id) => attached_session_of(
                match client_context {
                    Some(c) => Some(c.model()),
                    None => None,
                },
            ) == Some(id@),
            None => attached_session_of(
                match client_context {
                    Some(c) => Some(c.model()),
                    None => None,
                },
            ) is None,
        },
{
    let c = match client_context {
        Some(c) => c,
        None => return None,
    };
    let attachment = match c.get("attachment") {
        Some(a) => a,
        None => return None,
    };
    let is_session = match attachment.get("kind") {
        Some(k) => match k.as_str() {
            Some(t) => {
                let kind = "session".to_owned();
                *t == kind
            },
            None => false,
        },
        None => false,
    };
    if !is_session {
        return None;
    }
    let raw = match attachment.get("id") {
        Some(v) => match v.as_str() {
            Some(t) => t,
            None => return None,
        },
        None => return None,
    };
    let id = string_of(&trim_vec(&chars_of(raw.as_str())));
    let bytes = id.as_str().as_bytes().len();
    if id.as_str().is_empty() || bytes > 256 {
        return None;
    }
    Some(id)
}

// ───────────────────────── tool-call arguments ─────────────────────────

/// The `function.arguments` member of a tool call.
pub open spec fn call_arguments(call: Json) -> Option<Json> {
    match call.get("function"@) {
        Some(f) => f.get("arguments"@),
        None => None,
    }
}

/// The text to read as JSON: the arguments, where they are a string that is
/// not blank, trimmed.
pub open spec fn argument_text_of(call: Json) -> Option<Seq<char>> {
    match call_arguments(call) {
        Some(Json::Str(raw)) => if trim(raw).len() == 0 {
            None
        } else {
            Some(trim(raw))
        },
        _ => None,
    }
}

/// The arguments of a tool call as a JSON object. Absent, `null` or blank
/// arguments read as `{}`; an object is taken as it is; a string is read as
/// JSON, `parsed` being what the JSON reader made of its trimmed text (see
/// `tool_argument_text`), and must hold an object; anything else is
/// refused.
pub open spec fn tool_arguments_of(call: Json, parsed: Result<Json, Seq<char>>) -> Result<
    Json,
    Seq<char>,
> {
    match call_arguments(call) {
        None => Ok(Json::Object(Seq::empty())),
        Some(Json::Null) => Ok(Json::Object(Seq::empty())),
        Some(Json::Object(e)) => Ok(Json::Object(e)),
        Some(Json::Str(raw)) => if trim(raw).len() == 0 {
            Ok(Json::Object(Seq::empty()))
        } else {
            match parsed {
                Ok(Json::Object(e)) => Ok(Json::Object(e)),
                Ok(v) => Err(
                    "assistant tool arguments must be a JSON object, got "@ + crate::json::json_text(v),
                ),
                Err(e) => Err("assistant tool arguments were invalid JSON: "@ + e),
            }
        },
        Some(other) => Err(
            "assistant tool arguments must be a JSON object or string, got "@ + crate::json::json_text(
                other,
            ),
        ),
    }
}

fn call_arguments_exec(call: &JsonValue) -> (r: Option<&JsonValue>)
    ensures
        match r {
            Some(a) => call_arguments(call.model()) == Some(a.model()),
            None => call_arguments(call.model()) is None,
        },
{
    match call.get("function") {
        Some(f) => f.get("arguments"),
        None => None,
    }
}

/// The text of a tool call's arguments that is to be read as JSON, if they
/// are a string that is not blank (trimmed).
pub fn tool_argument_text(call: &JsonValue) -> (r: Option<String>)
    ensures
        match r {
            Some(t) => argument_text_of(call.model()) == Some(t@),
            None => argument_text_of(call.model()) is None,
        },
{
    match call_arguments_exec(call) {
        Some(JsonValue::Str(raw)) => {
            let t = trim_vec(&chars_of(raw.as_str()));
            if t.len() == 0 {
                None
            } else {
                Some(string_of(&t))
            }
        },
        _ => None,
    }
}

fn prefixed(prefix: &str, rest: &str) -> (r: String)
    ensures
        r@ == prefix@ + rest@,
{
    let mut v = chars_of(prefix);
    let w = chars_of(rest);
    v.extend_from_slice(w.as_slice());
    string_of(&v)
}

/// The arguments of a tool call as a document (see `tool_arguments_of`).
/// `parsed` is the JSON reader's outcome on `tool_argument_text(call)`; it is
/// only looked at when that text exists.
pub fn parse_tool_arguments(call: &JsonValue, parsed: &Result<JsonValue, String>) -> (r: Result<
    JsonValue,
    String,
>)
    ensures
        r matches Ok(v) ==> v.model() is Object,
        match r {
            Ok(v) => tool_arguments_of(
                call.model(),
                match parsed {
                    Ok(p) => Ok(p.model()),
                    Err(e) => Err(e@),
                },
            ) == Ok::<Json, Seq<char>>(v.model()),
            Err(e) => tool_arguments_of(
                call.model(),
                match parsed {
                    Ok(p) => Ok(p.model()),
                    Err(e) => Err(e@),
                },
            ) == Err::<Json, Seq<char>>(e@),
        },
{
    let empty = JsonValue::Object(Vec::new());
    proof {
        crate::json::lemma_entry_models(Seq::<(String, JsonValue)>::empty());
        assert(empty.model() == Json::Object(Seq::empty()));
    }
    match call_arguments_exec(call) {
        None => Ok(empty),
        Some(args) => match args {
            JsonValue::Null => Ok(empty),
            JsonValue::Object(_) => Ok(args.duplicate()),
            JsonValue::Str(raw) => {
                let t = trim_vec(&chars_of(raw.as_str()));
                if t.len() == 0 {
                    return Ok(empty);
                }
                match parsed {
                    Ok(v) => match v {
                        JsonValue::Object(_) => Ok(v.duplicate()),
                        _ => {
                            let text = v.to_text();
                            Err(prefixed("assistant tool arguments must be a JSON object, got ", text.as_str()))
                        },
                    },
                    Err(e) => Err(prefixed("assistant tool arguments were invalid JSON: ", e.as_str())),
                }
            },
            _ => {
                let text = args.to_text();
                Err(prefixed("assistant tool arguments must be a JSON object or string, got ", text.as_str()))
            },
        },
    }
}

} // verus!

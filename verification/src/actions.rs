//! Assistant actions: routing of directly executed admin endpoints, risk of
//! an action, and the host and origin normalisation used when the assistant
//! proposes a host mapping.
use vstd::prelude::*;
use crate::auth::{parse_url, url_components};
use crate::text::{
    chars_of, string_of, eq_str, eq_chars, trim, trim_vec, is_ws, is_ws_exec, starts_with,
    has_prefix_str, has_prefix, contains, contains_str, find_char, rfind_char, last_index,
    first_index, parse_unsigned, parse_unsigned_exec, slice_vec, decimal, decimal_exec,
    lemma_last_index_facts, lemma_first_index_facts,
};

use crate::json::{Json, JsonValue};

verus! {

/// How dangerous an assistant action is.
#[derive(Debug, Clone, Copy, PartialEq, Eq, Structural)]
pub enum AssistantActionRisk {
    Mutate,
    Network,
    Destructive,
}

/// The risk category label of an action.
pub fn risk_category(risk: AssistantActionRisk) -> (r: &'static str)
    ensures
        r@ == (match risk {
            AssistantActionRisk::Mutate => "mutate"@,
            AssistantActionRisk::Network => "network"@,
            AssistantActionRisk::Destructive => "destructive"@,
        }),
{
    match risk {
        AssistantActionRisk::Mutate => "mutate",
        AssistantActionRisk::Network => "network",
        AssistantActionRisk::Destructive => "destructive",
    }
}

/// Admin endpoints that an action executes directly.
#[derive(Debug, Clone, Copy, PartialEq, Eq, Structural)]
pub enum DirectActionRoute {
    Throttling,
    CaptureFilter,
    Dns,
    UpstreamProxy,
    ClearSessions,
    Playback,
    Forward,
    ForwardWebSocket,
}

/// The direct route of a method and endpoint, if it is one.
pub open spec fn direct_route_spec(method: Seq<char>, endpoint: Seq<char>) -> Option<DirectActionRoute> {
    if method == "POST"@ && endpoint == "/admin/throttling"@ {
        Some(DirectActionRoute::Throttling)
    } else if method == "POST"@ && endpoint == "/admin/capture-filter"@ {
        Some(DirectActionRoute::CaptureFilter)
    } else if method == "POST"@ && endpoint == "/admin/dns"@ {
        Some(DirectActionRoute::Dns)
    } else if method == "POST"@ && endpoint == "/admin/upstream-proxy"@ {
        Some(DirectActionRoute::UpstreamProxy)
    } else if method == "DELETE"@ && endpoint == "/admin/sessions"@ {
        Some(DirectActionRoute::ClearSessions)
    } else if method == "POST"@ && endpoint == "/admin/playback"@ {
        Some(DirectActionRoute::Playback)
    } else if method == "POST"@ && endpoint == "/admin/forward"@ {
        Some(DirectActionRoute::Forward)
    } else if method == "POST"@ && endpoint == "/admin/forward/websocket"@ {
        Some(DirectActionRoute::ForwardWebSocket)
    } else {
        None
    }
}

impl DirectActionRoute {
    /// The direct route of a method and endpoint, if it is one.
    pub fn classify(method: &str, endpoint: &str) -> (r: Option<Self>)
        ensures
            r == direct_route_spec(method@, endpoint@),
    {
        let m = chars_of(method);
        let e = chars_of(endpoint);
        let post = eq_str(&m, "POST");
        if post && eq_str(&e, "/admin/throttling") {
            Some(DirectActionRoute::Throttling)
        } else if post && eq_str(&e, "/admin/capture-filter") {
            Some(DirectActionRoute::CaptureFilter)
        } else if post && eq_str(&e, "/admin/dns") {
            Some(DirectActionRoute::Dns)
        } else if post && eq_str(&e, "/admin/upstream-proxy") {
            Some(DirectActionRoute::UpstreamProxy)
        } else if eq_str(&m, "DELETE") && eq_str(&e, "/admin/sessions") {
            Some(DirectActionRoute::ClearSessions)
        } else if post && eq_str(&e, "/admin/playback") {
            Some(DirectActionRoute::Playback)
        } else if post && eq_str(&e, "/admin/forward") {
            Some(DirectActionRoute::Forward)
        } else if post && eq_str(&e, "/admin/forward/websocket") {
            Some(DirectActionRoute::ForwardWebSocket)
        } else {
            None
        }
    }
}

/// The id after `prefix/` in an endpoint, if the endpoint is `prefix/<id>`
/// with a non-empty id.
pub open spec fn path_id_spec(endpoint: Seq<char>, prefix: Seq<char>) -> Option<Seq<char>> {
    if starts_with(endpoint, prefix + "/"@) && endpoint.len() > prefix.len() + 1 {
        Some(endpoint.subrange(prefix.len() + 1int, endpoint.len() as int))
    } else {
        None
    }
}

/// The id in an endpoint of the form `prefix/<id>`.
pub fn path_id(endpoint: &str, prefix: &str) -> (r: Option<String>)
    ensures
        r matches Some(id) ==> path_id_spec(endpoint@, prefix@) == Some(id@),
        r is None ==> path_id_spec(endpoint@, prefix@) is None,
{
    let e = chars_of(endpoint);
    let p = chars_of(prefix);
    if !has_prefix(&e, &p) {
        assert(!starts_with(endpoint@, prefix@ + "/"@)) by {
            if starts_with(endpoint@, prefix@ + "/"@) {
                assert(endpoint@.subrange(0, prefix@.len() as int) =~= (prefix@ + "/"@).subrange(0, prefix@.len() as int));
                assert((prefix@ + "/"@).subrange(0, prefix@.len() as int) =~= prefix@);
            }
        }
        return None;
    }
    if e.len() <= p.len() || e[p.len()] != '/' {
        proof {
            reveal_strlit("/");
            if starts_with(endpoint@, prefix@ + "/"@) {
                assert(endpoint@[prefix@.len() as int] == (prefix@ + "/"@)[prefix@.len() as int]);
            }
        }
        return None;
    }
    if e.len() == p.len() + 1 {
        return None;
    }
    proof {
        reveal_strlit("/");
        assert(endpoint@.subrange(0, prefix@.len() + 1int) =~= prefix@ + "/"@) by {
            assert(endpoint@.subrange(0, prefix@.len() as int) == prefix@);
        }
    }
    let id = slice_vec(&e, p.len() + 1, e.len());
    Some(string_of(&id))
}

// ───────────────────────── host tokens ─────────────────────────

/// Punctuation stripped from both ends of a host the model wrote.
pub open spec fn is_wrapping_punct(c: char) -> bool {
    c == '"' || c == '\'' || c == '`' || c == '<' || c == '>' || c == '(' || c == ')' || c == '['
        || c == ']' || c == ',' || c == ';' || c == '.' || c == '?'
}

/// Leading wrapping punctuation removed.
pub open spec fn strip_punct_start(s: Seq<char>) -> Seq<char>
    decreases s.len(),
{
    if s.len() > 0 && is_wrapping_punct(s[0]) {
        strip_punct_start(s.subrange(1, s.len() as int))
    } else {
        s
    }
}

/// Trailing wrapping punctuation removed.
pub open spec fn strip_punct_end(s: Seq<char>) -> Seq<char>
    decreases s.len(),
{
    if s.len() > 0 && is_wrapping_punct(s[s.len() - 1]) {
        strip_punct_end(s.subrange(0, s.len() - 1))
    } else {
        s
    }
}

/// A host token: trimmed, then stripped of wrapping punctuation at both
/// ends.
pub open spec fn clean_host_spec(s: Seq<char>) -> Seq<char> {
    strip_punct_end(strip_punct_start(trim(s)))
}

fn is_wrapping_punct_exec(c: char) -> (r: bool)
    ensures
        r == is_wrapping_punct(c),
{
    c == '"' || c == '\'' || c == '`' || c == '<' || c == '>' || c == '(' || c == ')' || c == '['
        || c == ']' || c == ',' || c == ';' || c == '.' || c == '?'
}

/// Cleans a host the model wrote: surrounding whitespace and quoting or
/// sentence punctuation removed.
pub fn clean_host_token(input: &str) -> (r: String)
    ensures
        r@ == clean_host_spec(input@),
{
    let t = trim_vec(&chars_of(input));
    let mut a: usize = 0;
    assert(t@.subrange(0, t@.len() as int) =~= t@);
    while a < t.len() && is_wrapping_punct_exec(t[a])
        invariant
            a <= t@.len(),
            strip_punct_start(t@) == strip_punct_start(t@.subrange(a as int, t@.len() as int)),
        decreases t.len() - a,
    {
        let ghost u = t@.subrange(a as int, t@.len() as int);
        assert(u.subrange(1, u.len() as int) =~= t@.subrange(a + 1, t@.len() as int));
        a = a + 1;
    }
    let ghost u = t@.subrange(a as int, t@.len() as int);
    let mut b: usize = t.len();
    assert(u.subrange(0, u.len() as int) =~= u);
    while b > a && is_wrapping_punct_exec(t[b - 1])
        invariant
            a <= b <= t@.len(),
            u == t@.subrange(a as int, t@.len() as int),
            strip_punct_end(u) == strip_punct_end(t@.subrange(a as int, b as int)),
        decreases b,
    {
        let ghost w = t@.subrange(a as int, b as int);
        assert(w.subrange(0, w.len() - 1) =~= t@.subrange(a as int, b - 1));
        b = b - 1;
    }
    string_of(&slice_vec(&t, a, b))
}

/// `host:port` split at the last colon when the host has no other colon and
/// the port parses as a `u16`; otherwise the whole source with no port.
pub open spec fn split_host_port_spec(s: Seq<char>) -> (Seq<char>, Option<u16>) {
    match last_index(s, ':') {
        Some(i) => {
            let host = s.subrange(0, i);
            let port = s.subrange(i + 1, s.len() as int);
            if first_index(host, ':') is None && parse_unsigned(port, 65535) is Some {
                (host, Some(parse_unsigned(port, 65535)->0 as u16))
            } else {
                (s, None)
            }
        },
        None => (s, None),
    }
}

/// Splits `host:port`.
pub fn split_host_port(source: &str) -> (r: (String, Option<u16>))
    ensures
        (r.0@, r.1) == split_host_port_spec(source@),
{
    let s = chars_of(source);
    proof {
        lemma_last_index_facts(s@, ':');
    }
    match rfind_char(&s, ':') {
        Some(i) => {
            let host = slice_vec(&s, 0, i);
            let port = slice_vec(&s, i + 1, s.len());
            if find_char(&host, ':').is_none() {
                match parse_unsigned_exec(&port, 65535) {
                    Some(p) => {
                        return (string_of(&host), Some(p as u16));
                    },
                    None => {},
                }
            }
            (string_of(&s), None)
        },
        None => (string_of(&s), None),
    }
}

// ───────────────────────── mapping endpoints ─────────────────────────

/// Starts with `http://` or `https://`.
pub open spec fn is_http_prefixed(s: Seq<char>) -> bool {
    starts_with(s, "http://"@) || starts_with(s, "https://"@)
}

/// `host`, or `host:port` when there is a port.
pub open spec fn host_port_text(host: Seq<char>, port: Option<u16>) -> Seq<char> {
    match port {
        Some(p) => host + ":"@ + decimal(p as nat),
        None => host,
    }
}

/// The `host[:port]` of a source URL.
pub open spec fn source_from_url(c: Seq<char>) -> Result<Seq<char>, Seq<char>> {
    match url_components(c) {
        Err(e) => Err("invalid source URL: "@ + e),
        Ok((_, None, _)) => Err("source URL must include a host"@),
        Ok((_, Some(h), p)) => Ok(host_port_text(h, p)),
    }
}

/// The source host of a mapping: a bare host is kept; a URL, or a host with
/// a path (read as an `http://` URL), gives its `host[:port]`.
pub open spec fn normalize_source_spec(input: Seq<char>) -> Result<Seq<char>, Seq<char>> {
    let c = clean_host_spec(input);
    if c.len() == 0 {
        Err("source host is required"@)
    } else if is_http_prefixed(c) {
        source_from_url(c)
    } else if contains(c, "/"@) {
        source_from_url(clean_host_spec("http://"@ + c))
    } else {
        Ok(c)
    }
}

/// The destination origin of a mapping: `scheme://host[:port]` of the
/// destination, read as an `https://` URL when it has no http(s) scheme.
pub open spec fn destination_spec(input: Seq<char>) -> Result<Seq<char>, Seq<char>> {
    let c = clean_host_spec(input);
    if c.len() == 0 {
        Err("destination is required"@)
    } else {
        let candidate = if is_http_prefixed(c) {
            c
        } else {
            "https://"@ + c
        };
        match url_components(candidate) {
            Err(e) => Err("invalid destination URL: "@ + e),
            Ok((scheme, host, port)) => if scheme != "http"@ && scheme != "https"@ {
                Err("destination must use http or https"@)
            } else {
                match host {
                    None => Err("destination URL must include a host"@),
                    Some(h) => Ok(scheme + "://"@ + host_port_text(h, port)),
                }
            },
        }
    }
}

fn concat_str(a: &str, b: &[char]) -> (r: Vec<char>)
    ensures
        r@ == a@ + b@,
{
    let mut out = chars_of(a);
    let ghost start = out@;
    let mut i: usize = 0;
    while i < b.len()
        invariant
            i <= b@.len(),
            out@ == start + b@.subrange(0, i as int),
            start == a@,
        decreases b.len() - i,
    {
        out.push(b[i]);
        i = i + 1;
        assert(out@ =~= start + b@.subrange(0, i as int));
    }
    assert(b@.subrange(0, b@.len() as int) =~= b@);
    out
}

fn host_port_exec(host: &str, port: Option<u16>) -> (r: Vec<char>)
    ensures
        r@ == host_port_text(host@, port),
{
    match port {
        Some(p) => {
            let mut v = chars_of(host);
            v.push(':');
            let d = decimal_exec(p as u64);
            let ghost head = v@;
            let mut i: usize = 0;
            while i < d.len()
                invariant
                    i <= d@.len(),
                    v@ == head + d@.subrange(0, i as int),
                decreases d.len() - i,
            {
                v.push(d[i]);
                i = i + 1;
                assert(v@ =~= head + d@.subrange(0, i as int));
            }
            assert(d@.subrange(0, d@.len() as int) =~= d@);
            proof {
                reveal_strlit(":");
            }
            assert(v@ =~= host@ + ":"@ + decimal(p as nat));
            v
        },
        None => chars_of(host),
    }
}

fn source_from_url_exec(c: &[char]) -> (r: Result<String, String>)
    ensures
        match r {
            Ok(v) => source_from_url(c@) == Ok::<Seq<char>, Seq<char>>(v@),
            Err(e) => source_from_url(c@) == Err::<Seq<char>, Seq<char>>(e@),
        },
{
    let text = string_of(c);
    match parse_url(text.as_str()) {
        Err(e) => {
            let msg = concat_str("invalid source URL: ", &chars_of(e.as_str()));
            Err(string_of(&msg))
        },
        Ok(parts) => match &parts.host {
            None => Err(string_of(&chars_of("source URL must include a host"))),
            Some(h) => Ok(string_of(&host_port_exec(h.as_str(), parts.port))),
        },
    }
}

fn is_http_prefixed_exec(c: &[char]) -> (r: bool)
    ensures
        r == is_http_prefixed(c@),
{
    has_prefix_str(c, "http://") || has_prefix_str(c, "https://")
}

/// Normalises the source host of a mapping.
pub fn normalize_source_host(input: &str) -> (r: Result<String, String>)
    ensures
        match r {
            Ok(v) => normalize_source_spec(input@) == Ok::<Seq<char>, Seq<char>>(v@),
            Err(e) => normalize_source_spec(input@) == Err::<Seq<char>, Seq<char>>(e@),
        },
{
    let cleaned = chars_of(clean_host_token(input).as_str());
    if cleaned.len() == 0 {
        return Err(string_of(&chars_of("source host is required")));
    }
    if is_http_prefixed_exec(&cleaned) {
        return source_from_url_exec(&cleaned);
    }
    if contains_str(&cleaned, "/") {
        let with_scheme = concat_str("http://", &cleaned);
        let again = chars_of(clean_host_token(string_of(&with_scheme).as_str()).as_str());
        return source_from_url_exec(&again);
    }
    Ok(string_of(&cleaned))
}

/// Normalises the destination origin of a mapping.
pub fn normalize_destination_origin(input: &str) -> (r: Result<String, String>)
    ensures
        match r {
            Ok(v) => destination_spec(input@) == Ok::<Seq<char>, Seq<char>>(v@),
            Err(e) => destination_spec(input@) == Err::<Seq<char>, Seq<char>>(e@),
        },
{
    let cleaned = chars_of(clean_host_token(input).as_str());
    if cleaned.len() == 0 {
        return Err(string_of(&chars_of("destination is required")));
    }
    let candidate: Vec<char> = if is_http_prefixed_exec(&cleaned) {
        cleaned
    } else {
        concat_str("https://", &cleaned)
    };
    let text = string_of(&candidate);
    match parse_url(text.as_str()) {
        Err(e) => {
            let msg = concat_str("invalid destination URL: ", &chars_of(e.as_str()));
            Err(string_of(&msg))
        },
        Ok(parts) => {
            let scheme = chars_of(parts.scheme.as_str());
            if !(eq_str(&scheme, "http") || eq_str(&scheme, "https")) {
                return Err(string_of(&chars_of("destination must use http or https")));
            }
            match &parts.host {
                None => Err(string_of(&chars_of("destination URL must include a host"))),
                Some(h) => {
                    let mut out = concat_str(parts.scheme.as_str(), &chars_of("://"));
                    let hp = host_port_exec(h.as_str(), parts.port);
                    let mut i: usize = 0;
                    let ghost head = out@;
                    while i < hp.len()
                        invariant
                            i <= hp@.len(),
                            out@ == head + hp@.subrange(0, i as int),
                        decreases hp.len() - i,
                    {
                        out.push(hp[i]);
                        i = i + 1;
                        assert(out@ =~= head + hp@.subrange(0, i as int));
                    }
                    assert(hp@.subrange(0, hp@.len() as int) =~= hp@);
                    Ok(string_of(&out))
                },
            }
        },
    }
}

// ───────────────────────── id-backed rule collections ─────────────────────────

/// A rule of an id-backed collection: its id and the rest of it.
#[derive(Debug)]
pub struct CollectionItem {
    pub id: String,
    pub rule: JsonValue,
}

/// The view of a collection: `(id, rule)` pairs in order.
pub open spec fn items_view(items: Seq<CollectionItem>) -> Seq<(Seq<char>, Json)> {
    items.map_values(|x: CollectionItem| (x.id@, x.rule.model()))
}

/// The rules with an id other than `id`.
pub open spec fn other_than(id: Seq<char>) -> spec_fn((Seq<char>, Json)) -> bool {
    |x: (Seq<char>, Json)| x.0 != id
}

/// The first position holding a rule with id `id`.
pub open spec fn first_with_id(items: Seq<(Seq<char>, Json)>, id: Seq<char>) -> Option<int> {
    if exists|i: int| 0 <= i < items.len() && items[i].0 == id {
        Some(
            choose|i: int|
                0 <= i < items.len() && items[i].0 == id && forall|j: int|
                    0 <= j < i ==> items[j].0 != id,
        )
    } else {
        None
    }
}

/// What an assistant action does to an id-backed collection at `base`:
/// `POST base` appends the payload's rule under a fresh id; `PUT base/<id>`
/// replaces the first rule with that id (the payload's rule, under that id);
/// `DELETE base/<id>` removes every rule with that id. The payload is the
/// action's payload read as a rule, or the reader's error. Errors: the
/// unreadable payload (before anything else for `POST` and `PUT`), an
/// endpoint that names no id, an id no rule has, another method.
pub open spec fn collection_after(
    method: Seq<char>,
    endpoint: Seq<char>,
    base: Seq<char>,
    resource: Seq<char>,
    items: Seq<(Seq<char>, Json)>,
    payload: Result<Json, Seq<char>>,
    new_id: Seq<char>,
) -> Result<Seq<(Seq<char>, Json)>, Seq<char>> {
    if endpoint == base && method == "POST"@ {
        match payload {
            Err(e) => Err("invalid assistant action payload: "@ + e),
            Ok(rule) => Ok(items.push((new_id, rule))),
        }
    } else {
        match path_id_spec(endpoint, base) {
            None => Err(resource + " item endpoint is invalid"@),
            Some(id) => if method == "PUT"@ {
                match payload {
                    Err(e) => Err("invalid assistant action payload: "@ + e),
                    Ok(rule) => match first_with_id(items, id) {
                        None => Err(resource + " item not found"@),
                        Some(i) => Ok(items.update(i, (id, rule))),
                    },
                }
            } else if method == "DELETE"@ {
                let kept = items.filter(other_than(id));
                if kept.len() == items.len() {
                    Err(resource + " item not found"@)
                } else {
                    Ok(kept)
                }
            } else {
                Err("unsupported "@ + resource + " method"@)
            },
        }
    }
}

fn joined(a: &str, b: &str) -> (r: String)
    ensures
        r@ == a@ + b@,
{
    let mut v = chars_of(a);
    let w = chars_of(b);
    v.extend_from_slice(w.as_slice());
    string_of(&v)
}

proof fn lemma_items_view_push(items: Seq<CollectionItem>, x: CollectionItem)
    ensures
        items_view(items.push(x)) == items_view(items).push((x.id@, x.rule.model())),
{
    assert(items_view(items.push(x)) =~= items_view(items).push((x.id@, x.rule.model())));
}

/// Applies an assistant action to an id-backed collection (see
/// `collection_after`). On success returns the rule created by a `POST`
/// (`None` for `PUT` and `DELETE`); on an error the collection is unchanged.
pub fn mutate_collection(
    method: &str,
    endpoint: &str,
    base_path: &str,
    resource: &str,
    items: &mut Vec<CollectionItem>,
    payload: Result<JsonValue, String>,
    new_id: String,
) -> (r: Result<Option<CollectionItem>, String>)
    ensures
        ({
            let after = collection_after(
                method@,
                endpoint@,
                base_path@,
                resource@,
                items_view(old(items)@),
                match payload {
                    Ok(v) => Ok(v.model()),
                    Err(e) => Err(e@),
                },
                new_id@,
            );
            match r {
                Ok(created) => after == Ok::<_, Seq<char>>(items_view(final(items)@)) && match created {
                    Some(c) => (c.id@, c.rule.model()) == items_view(final(items)@).last()
                        && endpoint@ == base_path@ && method@ == "POST"@,
                    None => !(endpoint@ == base_path@ && method@ == "POST"@),
                },
                Err(e) => after == Err::<Seq<(Seq<char>, Json)>, Seq<char>>(e@) && final(items)@
                    == old(items)@,
            }
        }),
{
    let ghost old_view = items_view(items@);
    let ghost payload_model: Result<Json, Seq<char>> = match &payload {
        Ok(v) => Ok(v.model()),
        Err(e) => Err(e@),
    };
    let e = chars_of(endpoint);
    let b = chars_of(base_path);
    let m = chars_of(method);
    if eq_chars(&e, &b) && eq_str(&m, "POST") {
        let rule = match payload {
            Err(err) => {
                return Err(joined("invalid assistant action payload: ", err.as_str()));
            },
            Ok(v) => v,
        };
        let created = CollectionItem { id: new_id.clone(), rule: rule.duplicate() };
        let ghost before = items@;
        items.push(CollectionItem { id: new_id, rule });
        proof {
            lemma_items_view_push(before, items@.last());
        }
        return Ok(Some(created));
    }
    let id = match path_id(endpoint, base_path) {
        None => {
            return Err(joined(resource, " item endpoint is invalid"));
        },
        Some(id) => id,
    };
    if eq_str(&m, "PUT") {
        let rule = match payload {
            Err(err) => {
                return Err(joined("invalid assistant action payload: ", err.as_str()));
            },
            Ok(v) => v,
        };
        let mut i: usize = 0;
        while i < items.len()
            invariant
                i <= items.len(),
                items@ == old(items)@,
                old_view == items_view(old(items)@),
                forall|j: int| 0 <= j < i ==> #[trigger] old_view[j].0 != id@,
                path_id_spec(endpoint@, base_path@) == Some(id@),
                method@ == "PUT"@,
                !(endpoint@ == base_path@ && method@ == "POST"@),
                payload_model == Ok::<Json, Seq<char>>(rule.model()),
                payload_model == match payload {
                    Ok(v) => Ok(v.model()),
                    Err(e) => Err(e@),
                },
            decreases items.len() - i,
        {
            if items[i].id == id {
                proof {
                    assert(old_view[i as int].0 == id@);
                    let k = first_with_id(old_view, id@);
                    assert(exists|x: int| 0 <= x < old_view.len() && old_view[x].0 == id@);
                    let c = k->0;
                    if c < i {
                        assert(old_view[c].0 != id@);
                    }
                    assert(c == i);
                }
                let ghost before = items@;
                items.set(i, CollectionItem { id, rule });
                proof {
                    assert(items_view(items@) =~= old_view.update(i as int, (items@[i as int].id@, items@[i as int].rule.model())));
                }
                return Ok(None);
            }
            i = i + 1;
        }
        proof {
            if exists|x: int| 0 <= x < old_view.len() && old_view[x].0 == id@ {
                let x = choose|x: int| 0 <= x < old_view.len() && old_view[x].0 == id@;
                assert(old_view[x].0 != id@);
            }
        }
        return Err(joined(resource, " item not found"));
    }
    if eq_str(&m, "DELETE") {
        let ghost pred = other_than(id@);
        let mut kept: Vec<CollectionItem> = Vec::new();
        let mut removed: Vec<CollectionItem> = Vec::new();
        let mut rest: Vec<CollectionItem> = Vec::new();
        std::mem::swap(items, &mut rest);
        let ghost all = rest@;
        let total = rest.len();
        assert(all.len() == total);
        let mut n: usize = 0;
        while rest.len() > 0
            invariant
                all == old(items)@,
                old_view == items_view(all),
                n + rest@.len() == all.len(),
                rest@ == all.subrange(n as int, all.len() as int),
                items_view(kept@) == old_view.subrange(0, n as int).filter(pred),
                pred == other_than(id@),
                all.len() <= usize::MAX,
                kept@.len() + removed@.len() == n,
                removed@.len() == 0 ==> kept@ == all.subrange(0, n as int),
            decreases rest.len(),
        {
            let x = rest.remove(0);
            proof {
                assert(x == all[n as int]);
                assert(old_view.subrange(0, n + 1).drop_last() =~= old_view.subrange(0, n as int));
                reveal(Seq::filter);
            }
            let ghost k_before = kept@;
            if x.id == id {
                removed.push(x);
                proof {
                    assert(items_view(kept@) =~= old_view.subrange(0, n + 1).filter(pred));
                }
            } else {
                let ghost k0 = kept@;
                kept.push(x);
                proof {
                    lemma_items_view_push(k0, kept@.last());
                    assert(items_view(kept@) =~= old_view.subrange(0, n + 1).filter(pred));
                    if removed@.len() == 0 {
                        assert(kept@ =~= all.subrange(0, n + 1));
                    }
                }
            }
            n = n + 1;
            proof {
                assert(rest@ =~= all.subrange(n as int, all.len() as int));
            }
        }
        proof {
            assert(old_view.subrange(0, n as int) =~= old_view);
        }
        if removed.len() == 0 {
            proof {
                assert(all.subrange(0, n as int) =~= all);
            }
            *items = kept;
            return Err(joined(resource, " item not found"));
        }
        *items = kept;
        return Ok(None);
    }
    let a = joined("unsupported ", resource);
    Err(joined(a.as_str(), " method"))
}

/// Deleting a rule by id leaves no rule with that id and keeps every rule
/// with another id; a delete that finds no rule with the id is refused.
pub proof fn law_delete_leaves_no_rule_with_that_id(
    endpoint: Seq<char>,
    base: Seq<char>,
    resource: Seq<char>,
    items: Seq<(Seq<char>, Json)>,
    payload: Result<Json, Seq<char>>,
    new_id: Seq<char>,
    id: Seq<char>,
)
    requires
        path_id_spec(endpoint, base) == Some(id),
    ensures
        match collection_after("DELETE"@, endpoint, base, resource, items, payload, new_id) {
            Ok(r) => (forall|k: int| 0 <= k < r.len() ==> (#[trigger] r[k]).0 != id) && (forall|
                i: int,
            | 0 <= i < items.len() && (#[trigger] items[i]).0 != id ==> r.contains(items[i])),
            Err(_) => forall|i: int| 0 <= i < items.len() ==> (#[trigger] items[i]).0 != id,
        },
{
    broadcast use vstd::seq_lib::group_filter_ensures;

    let kept = items.filter(other_than(id));
    assert forall|k: int| 0 <= k < kept.len() implies (#[trigger] kept[k]).0 != id by {
        items.lemma_filter_pred(other_than(id), k);
    }
    assert forall|i: int| 0 <= i < items.len() && (#[trigger] items[i]).0 != id implies kept.contains(
        items[i],
    ) by {
        items.lemma_filter_contains(other_than(id), i);
    }
    if kept.len() == items.len() {
        assert forall|i: int| 0 <= i < items.len() implies (#[trigger] items[i]).0 != id by {
            if items[i].0 == id {
                lemma_filter_drops(items, id, i);
            }
        }
    }
    reveal_strlit("DELETE");
    reveal_strlit("POST");
    reveal_strlit("PUT");
    assert("DELETE"@ != "POST"@ && "DELETE"@ != "PUT"@) by {
        assert("DELETE"@[0] != "POST"@[0]);
        assert("DELETE"@[0] != "PUT"@[0]);
    }
    assert(collection_after("DELETE"@, endpoint, base, resource, items, payload, new_id) == if kept.len()
        == items.len() {
        Err::<Seq<(Seq<char>, Json)>, Seq<char>>(resource + " item not found"@)
    } else {
        Ok(kept)
    });
}

/// Filtering out an id that some rule has shortens the collection.
proof fn lemma_filter_drops(items: Seq<(Seq<char>, Json)>, id: Seq<char>, i: int)
    requires
        0 <= i < items.len(),
        items[i].0 == id,
    ensures
        items.filter(other_than(id)).len() < items.len(),
    decreases items.len(),
{
    reveal(Seq::filter);
    let d = items.drop_last();
    d.lemma_filter_len(other_than(id));
    if i < items.len() - 1 {
        assert(d[i] == items[i]);
        lemma_filter_drops(d, id, i);
    }
}


// ───────────────────────── route risk ─────────────────────────

/// The endpoint names an item of one of the id-keyed rule collections
/// (`<collection>/<id>`).
pub open spec fn is_collection_item(endpoint: Seq<char>) -> bool {
    path_id_spec(endpoint, "/admin/rule-sets"@) is Some || path_id_spec(endpoint, "/admin/map-remote-rules"@) is Some
        || path_id_spec(endpoint, "/admin/map-local-rules"@) is Some || path_id_spec(
        endpoint,
        "/admin/access-rules"@,
    ) is Some || path_id_spec(endpoint, "/admin/breakpoints"@) is Some || path_id_spec(
        endpoint,
        "/admin/mock/rules"@,
    ) is Some || path_id_spec(endpoint, "/admin/scripts"@) is Some || path_id_spec(
        endpoint,
        "/admin/webhooks"@,
    ) is Some
}

/// The endpoint is one of the id-keyed rule collections.
pub open spec fn is_collection_base(endpoint: Seq<char>) -> bool {
    endpoint == "/admin/rule-sets"@ || endpoint == "/admin/map-remote-rules"@ || endpoint
        == "/admin/map-local-rules"@ || endpoint == "/admin/access-rules"@ || endpoint
        == "/admin/breakpoints"@ || endpoint == "/admin/mock/rules"@ || endpoint == "/admin/scripts"@
        || endpoint == "/admin/webhooks"@
}

/// The risk of an admin route that an action can take, if it is one: a
/// route that sends traffic (forward, WebSocket forward, playback) is
/// network work, one that deletes (clearing the sessions, deleting a
/// collection item or a DNS override) is destructive, and one that creates
/// or updates configuration is a mutation.
pub open spec fn route_risk_spec(method: Seq<char>, endpoint: Seq<char>) -> Option<AssistantActionRisk> {
    match direct_route_spec(method, endpoint) {
        Some(DirectActionRoute::Forward) => Some(AssistantActionRisk::Network),
        Some(DirectActionRoute::ForwardWebSocket) => Some(AssistantActionRisk::Network),
        Some(DirectActionRoute::Playback) => Some(AssistantActionRisk::Network),
        Some(DirectActionRoute::ClearSessions) => Some(AssistantActionRisk::Destructive),
        Some(_) => Some(AssistantActionRisk::Mutate),
        None => if method == "POST"@ && is_collection_base(endpoint) {
            Some(AssistantActionRisk::Mutate)
        } else if method == "PUT"@ && is_collection_item(endpoint) {
            Some(AssistantActionRisk::Mutate)
        } else if method == "DELETE"@ && (is_collection_item(endpoint) || path_id_spec(
            endpoint,
            "/admin/dns"@,
        ) is Some) {
            Some(AssistantActionRisk::Destructive)
        } else {
            None
        },
    }
}

fn collection_item(endpoint: &str) -> (r: bool)
    ensures
        r == is_collection_item(endpoint@),
{
    path_id(endpoint, "/admin/rule-sets").is_some() || path_id(endpoint, "/admin/map-remote-rules").is_some()
        || path_id(endpoint, "/admin/map-local-rules").is_some() || path_id(
        endpoint,
        "/admin/access-rules",
    ).is_some() || path_id(endpoint, "/admin/breakpoints").is_some() || path_id(
        endpoint,
        "/admin/mock/rules",
    ).is_some() || path_id(endpoint, "/admin/scripts").is_some() || path_id(
        endpoint,
        "/admin/webhooks",
    ).is_some()
}

fn collection_base(endpoint: &str) -> (r: bool)
    ensures
        r == is_collection_base(endpoint@),
{
    let e = chars_of(endpoint);
    eq_str(&e, "/admin/rule-sets") || eq_str(&e, "/admin/map-remote-rules") || eq_str(
        &e,
        "/admin/map-local-rules",
    ) || eq_str(&e, "/admin/access-rules") || eq_str(&e, "/admin/breakpoints") || eq_str(
        &e,
        "/admin/mock/rules",
    ) || eq_str(&e, "/admin/scripts") || eq_str(&e, "/admin/webhooks")
}

/// The risk of an admin route that an action can take (see
/// `route_risk_spec`).
pub fn action_route_risk(method: &str, endpoint: &str) -> (r: Option<AssistantActionRisk>)
    ensures
        r == route_risk_spec(method@, endpoint@),
{
    match DirectActionRoute::classify(method, endpoint) {
        Some(DirectActionRoute::Forward) => Some(AssistantActionRisk::Network),
        Some(DirectActionRoute::ForwardWebSocket) => Some(AssistantActionRisk::Network),
        Some(DirectActionRoute::Playback) => Some(AssistantActionRisk::Network),
        Some(DirectActionRoute::ClearSessions) => Some(AssistantActionRisk::Destructive),
        Some(_) => Some(AssistantActionRisk::Mutate),
        None => {
            let m = chars_of(method);
            if eq_str(&m, "POST") && collection_base(endpoint) {
                Some(AssistantActionRisk::Mutate)
            } else if eq_str(&m, "PUT") && collection_item(endpoint) {
                Some(AssistantActionRisk::Mutate)
            } else if eq_str(&m, "DELETE") && (collection_item(endpoint) || path_id(
                endpoint,
                "/admin/dns",
            ).is_some()) {
                Some(AssistantActionRisk::Destructive)
            } else {
                None
            }
        },
    }
}

/// The risk of an action by its method and endpoint: the route's risk,
/// and a mutation for a route that has none.
pub fn classify_action_risk(method: &str, endpoint: &str) -> (r: AssistantActionRisk)
    ensures
        r == (match route_risk_spec(method@, endpoint@) {
            Some(k) => k,
            None => AssistantActionRisk::Mutate,
        }),
{
    match action_route_risk(method, endpoint) {
        Some(k) => k,
        None => AssistantActionRisk::Mutate,
    }
}


// ───────────────────────── collection actions ─────────────────────────

/// The collection an action works on.
#[derive(Debug, Clone, Copy, PartialEq, Eq, Structural)]
pub enum CollectionRoute {
    Dns,
    RuleSets,
    MapRemote,
    MapLocal,
    Access,
    Breakpoints,
    Mock,
    Scripts,
    Webhooks,
}

/// The endpoint is the collection at `base` or one of its items.
pub open spec fn in_collection(endpoint: Seq<char>, base: Seq<char>) -> bool {
    endpoint == base || path_id_spec(endpoint, base) is Some
}

/// The collection an endpoint belongs to, if any.
pub open spec fn collection_of(endpoint: Seq<char>) -> Option<CollectionRoute> {
    if endpoint == "/admin/dns"@ || starts_with(endpoint, "/admin/dns/"@) {
        Some(CollectionRoute::Dns)
    } else if in_collection(endpoint, "/admin/rule-sets"@) {
        Some(CollectionRoute::RuleSets)
    } else if in_collection(endpoint, "/admin/map-remote-rules"@) {
        Some(CollectionRoute::MapRemote)
    } else if in_collection(endpoint, "/admin/map-local-rules"@) {
        Some(CollectionRoute::MapLocal)
    } else if in_collection(endpoint, "/admin/access-rules"@) {
        Some(CollectionRoute::Access)
    } else if in_collection(endpoint, "/admin/breakpoints"@) {
        Some(CollectionRoute::Breakpoints)
    } else if in_collection(endpoint, "/admin/mock/rules"@) {
        Some(CollectionRoute::Mock)
    } else if in_collection(endpoint, "/admin/scripts"@) {
        Some(CollectionRoute::Scripts)
    } else if in_collection(endpoint, "/admin/webhooks"@) {
        Some(CollectionRoute::Webhooks)
    } else {
        None
    }
}

/// The collection an action works on: a route an action can take (see
/// `route_risk_spec`) whose endpoint belongs to a collection; anything
/// else is not executable.
pub open spec fn collection_route_spec(method: Seq<char>, endpoint: Seq<char>) -> Result<CollectionRoute, Seq<char>> {
    if route_risk_spec(method, endpoint) is None {
        Err("assistant action endpoint is not executable"@)
    } else {
        match collection_of(endpoint) {
            Some(c) => Ok(c),
            None => Err("assistant action endpoint is not executable"@),
        }
    }
}

fn in_collection_exec(endpoint: &str, base: &str) -> (r: bool)
    ensures
        r == in_collection(endpoint@, base@),
{
    eq_chars(&chars_of(endpoint), &chars_of(base)) || path_id(endpoint, base).is_some()
}

/// Classifies an action by the collection it works on (see
/// `collection_route_spec`).
pub fn collection_route(method: &str, endpoint: &str) -> (r: Result<CollectionRoute, String>)
    ensures
        match r {
            Ok(c) => collection_route_spec(method@, endpoint@) == Ok::<CollectionRoute, Seq<char>>(c),
            Err(e) => collection_route_spec(method@, endpoint@) == Err::<CollectionRoute, Seq<char>>(e@),
        },
{
    if action_route_risk(method, endpoint).is_none() {
        return Err("assistant action endpoint is not executable".to_owned());
    }
    let e = chars_of(endpoint);
    if eq_str(&e, "/admin/dns") || has_prefix_str(&e, "/admin/dns/") {
        Ok(CollectionRoute::Dns)
    } else if in_collection_exec(endpoint, "/admin/rule-sets") {
        Ok(CollectionRoute::RuleSets)
    } else if in_collection_exec(endpoint, "/admin/map-remote-rules") {
        Ok(CollectionRoute::MapRemote)
    } else if in_collection_exec(endpoint, "/admin/map-local-rules") {
        Ok(CollectionRoute::MapLocal)
    } else if in_collection_exec(endpoint, "/admin/access-rules") {
        Ok(CollectionRoute::Access)
    } else if in_collection_exec(endpoint, "/admin/breakpoints") {
        Ok(CollectionRoute::Breakpoints)
    } else if in_collection_exec(endpoint, "/admin/mock/rules") {
        Ok(CollectionRoute::Mock)
    } else if in_collection_exec(endpoint, "/admin/scripts") {
        Ok(CollectionRoute::Scripts)
    } else if in_collection_exec(endpoint, "/admin/webhooks") {
        Ok(CollectionRoute::Webhooks)
    } else {
        Err("assistant action endpoint is not executable".to_owned())
    }
}

/// What deleting a DNS override does to the overrides (host and entry, in
/// order): only `DELETE /admin/dns/<host>` is an item action, and the
/// host must have an override, which goes.
pub open spec fn dns_after(method: Seq<char>, endpoint: Seq<char>, items: Seq<(Seq<char>, Json)>) -> Result<
    Seq<(Seq<char>, Json)>,
    Seq<char>,
> {
    if !starts_with(endpoint, "/admin/dns/"@) {
        Err("DNS collection replacement is handled as a direct action"@)
    } else if method != "DELETE"@ {
        Err("DNS item endpoint supports DELETE only"@)
    } else {
        match first_with_id(items, endpoint.subrange(11, endpoint.len() as int)) {
            None => Err("DNS override not found"@),
            Some(i) => Ok(items.remove(i)),
        }
    }
}

/// Deletes the DNS override an action names (see `dns_after`); on an error
/// the overrides are unchanged.
pub fn delete_dns_override(method: &str, endpoint: &str, items: &mut Vec<CollectionItem>) -> (r: Result<(), String>)
    ensures
        match r {
            Ok(()) => dns_after(method@, endpoint@, items_view(old(items)@)) == Ok::<_, Seq<char>>(
                items_view(final(items)@),
            ),
            Err(e) => dns_after(method@, endpoint@, items_view(old(items)@)) == Err::<
                Seq<(Seq<char>, Json)>,
                Seq<char>,
            >(e@) && final(items)@ == old(items)@,
        },
{
    let e = chars_of(endpoint);
    if !has_prefix_str(&e, "/admin/dns/") {
        return Err("DNS collection replacement is handled as a direct action".to_owned());
    }
    if !eq_str(&chars_of(method), "DELETE") {
        return Err("DNS item endpoint supports DELETE only".to_owned());
    }
    proof {
        reveal_strlit("/admin/dns/");
    }
    let host = slice_vec(&e, 11, e.len());
    let ghost start = items@;
    let mut i: usize = 0;
    while i < items.len()
        invariant
            i <= items@.len(),
            items@ == start,
            start == old(items)@,
            host@ == endpoint@.subrange(11, endpoint@.len() as int),
            starts_with(endpoint@, "/admin/dns/"@),
            method@ == "DELETE"@,
            forall|j: int| 0 <= j < i ==> #[trigger] items@[j].id@ != host@,
        decreases items.len() - i,
    {
        if eq_chars(&chars_of(items[i].id.as_str()), &host) {
            let ghost before = items_view(items@);
            proof {
                assert(before[i as int].0 == host@);
                let k = first_with_id(before, host@)->0;
                assert(before[k].0 == host@);
                if k < i {
                    assert(items@[k].id@ == host@);
                }
                assert(first_with_id(before, host@) == Some(i as int));
            }
            items.remove(i);
            assert(items_view(items@) =~= before.remove(i as int));
            return Ok(());
        }
        i = i + 1;
    }
    proof {
        let v = items_view(items@);
        assert forall|j: int| 0 <= j < v.len() implies v[j].0 != host@ by {
            assert(v[j].0 == items@[j].id@);
        }
    }
    Err("DNS override not found".to_owned())
}

/// How a collection action went: applied here (with the rule a `POST`
/// created), or left to the collection's own executor, whose rule types
/// this library does not hold.
#[derive(Debug)]
pub enum CollectionOutcome {
    Applied(Option<CollectionItem>),
    Dedicated,
}

/// The base path and resource name of the collections applied here.
pub open spec fn route_collection(route: CollectionRoute) -> (Seq<char>, Seq<char>) {
    match route {
        CollectionRoute::RuleSets => ("/admin/rule-sets"@, "rule_sets"@),
        CollectionRoute::MapRemote => ("/admin/map-remote-rules"@, "map_remote"@),
        CollectionRoute::MapLocal => ("/admin/map-local-rules"@, "map_local"@),
        CollectionRoute::Access => ("/admin/access-rules"@, "access"@),
        _ => (Seq::empty(), Seq::empty()),
    }
}

/// Applies an action to the collection it works on: a DNS override is
/// deleted (see `dns_after`); the rule sets, map-remote, map-local and
/// access rules change as `collection_after` says; breakpoints, mock rules,
/// scripts and webhooks go to their own executors. On an error the
/// collection is unchanged.
pub fn apply_collection_action(
    route: CollectionRoute,
    method: &str,
    endpoint: &str,
    items: &mut Vec<CollectionItem>,
    payload: Result<JsonValue, String>,
    new_id: String,
) -> (r: Result<CollectionOutcome, String>)
    ensures
        match route {
            CollectionRoute::Dns => match r {
                Ok(o) => o matches CollectionOutcome::Applied(None) && dns_after(
                    method@,
                    endpoint@,
                    items_view(old(items)@),
                ) == Ok::<_, Seq<char>>(items_view(final(items)@)),
                Err(e) => dns_after(method@, endpoint@, items_view(old(items)@)) == Err::<
                    Seq<(Seq<char>, Json)>,
                    Seq<char>,
                >(e@) && final(items)@ == old(items)@,
            },
            CollectionRoute::RuleSets | CollectionRoute::MapRemote | CollectionRoute::MapLocal
            | CollectionRoute::Access => {
                let after = collection_after(
                    method@,
                    endpoint@,
                    route_collection(route).0,
                    route_collection(route).1,
                    items_view(old(items)@),
                    match payload {
                        Ok(v) => Ok(v.model()),
                        Err(e) => Err(e@),
                    },
                    new_id@,
                );
                match r {
                    Ok(o) => o is Applied && after == Ok::<_, Seq<char>>(items_view(final(items)@)),
                    Err(e) => after == Err::<Seq<(Seq<char>, Json)>, Seq<char>>(e@) && final(items)@
                        == old(items)@,
                }
            },
            _ => r matches Ok(CollectionOutcome::Dedicated) && final(items)@ == old(items)@,
        },
{
    let (base, resource) = match route {
        CollectionRoute::Dns => {
            return match delete_dns_override(method, endpoint, items) {
                Ok(()) => Ok(CollectionOutcome::Applied(None)),
                Err(e) => Err(e),
            };
        },
        CollectionRoute::RuleSets => ("/admin/rule-sets", "rule_sets"),
        CollectionRoute::MapRemote => ("/admin/map-remote-rules", "map_remote"),
        CollectionRoute::MapLocal => ("/admin/map-local-rules", "map_local"),
        CollectionRoute::Access => ("/admin/access-rules", "access"),
        _ => {
            return Ok(CollectionOutcome::Dedicated);
        },
    };
    match mutate_collection(method, endpoint, base, resource, items, payload, new_id) {
        Ok(created) => Ok(CollectionOutcome::Applied(created)),
        Err(e) => Err(e),
    }
}

} // verus!

//! Pure request/response wire helpers: HTTP protocol inference and header
//! sanitisation. These hold no engine state.
use vstd::prelude::*;
use crate::text::{
    before_first, chars_of, contains, contains_str, eq_chars, eq_str, find_char, has_prefix_str,
    lower, lower_str, lower_vec, parse_unsigned, parse_unsigned_exec, slice_vec, starts_with,
    string_of, trim, trim_vec,
};
use crate::forward::{ApplicationProtocol, BodyMode, HttpVersion};
use crate::auth::{parse_url, url_components};
use crate::playback::{header_name_valid, header_value_valid, is_header_name, is_header_value};
use crate::text::{decimal, decimal_exec, first_occurrence, find_chars, ends_with};

verus! {

/// Requests whose body is larger than this are streamed instead of buffered.
pub const STREAM_THRESHOLD_BYTES: u64 = 524288u64;

/// A header map as an ordered list of `(name, value)` pairs.
#[derive(Debug, Clone)]
pub struct HeaderMap {
    pub entries: Vec<(String, String)>,
}

/// The view of one header entry.
pub open spec fn entry_view(e: (String, String)) -> (Seq<char>, Seq<char>) {
    (e.0@, e.1@)
}

impl HeaderMap {
    /// The entries as character sequences.
    pub open spec fn view_entries(&self) -> Seq<(Seq<char>, Seq<char>)> {
        self.entries@.map_values(|e: (String, String)| entry_view(e))
    }

    pub fn new() -> (r: Self)
        ensures
            r.view_entries() == Seq::<(Seq<char>, Seq<char>)>::empty(),
    {
        let r = HeaderMap { entries: Vec::new() };
        assert(r.view_entries() =~= Seq::<(Seq<char>, Seq<char>)>::empty());
        r
    }

    /// Appends one header.
    pub fn insert(&mut self, name: String, value: String)
        ensures
            final(self).view_entries() == old(self).view_entries().push((name@, value@)),
    {
        self.entries.push((name, value));
        assert(self.view_entries() =~= old(self).view_entries().push((name@, value@)));
    }
}

/// Value of the first header whose name equals `name` ignoring ASCII case.
pub open spec fn header_value_spec(entries: Seq<(Seq<char>, Seq<char>)>, name: Seq<char>) -> Option<
    Seq<char>,
>
    decreases entries.len(),
{
    if entries.len() == 0 {
        None
    } else if lower(entries[0].0) == lower(name) {
        Some(entries[0].1)
    } else {
        header_value_spec(entries.subrange(1, entries.len() as int), name)
    }
}

/// Some header is named exactly `name`.
pub open spec fn has_header_exact(entries: Seq<(Seq<char>, Seq<char>)>, name: Seq<char>) -> bool {
    exists|i: int| 0 <= i < entries.len() && entries[i].0 == name
}

/// Case-insensitive header lookup.
pub fn header_value(headers: &HeaderMap, name: &str) -> (r: Option<String>)
    ensures
        opt_view(r) == header_value_spec(headers.view_entries(), name@),
{
    let target = lower_str(name);
    let mut i: usize = 0;
    assert(headers.view_entries().subrange(0, headers.entries.len() as int) =~= headers.view_entries());
    while i < headers.entries.len()
        invariant
            i <= headers.entries.len(),
            target@ == lower(name@),
            header_value_spec(headers.view_entries(), name@) == header_value_spec(
                headers.view_entries().subrange(i as int, headers.entries.len() as int),
                name@,
            ),
        decreases headers.entries.len() - i,
    {
        let ghost rest = headers.view_entries().subrange(i as int, headers.entries.len() as int);
        assert(rest[0] == entry_view(headers.entries@[i as int]));
        assert(rest.subrange(1, rest.len() as int) =~= headers.view_entries().subrange(
            i + 1,
            headers.entries.len() as int,
        ));
        let key = chars_of(headers.entries[i].0.as_str());
        let lk = lower_vec(&key);
        if eq_chars(&lk, &target) {
            let v = headers.entries[i].1.clone();
            return Some(v);
        }
        i = i + 1;
    }
    None
}

/// Whether a header named exactly `name` is present.
pub fn contains_key(headers: &HeaderMap, name: &str) -> (r: bool)
    ensures
        r == has_header_exact(headers.view_entries(), name@),
{
    let target = chars_of(name);
    let mut i: usize = 0;
    while i < headers.entries.len()
        invariant
            i <= headers.entries.len(),
            target@ == name@,
            forall|j: int| 0 <= j < i ==> headers.view_entries()[j].0 != name@,
        decreases headers.entries.len() - i,
    {
        let key = chars_of(headers.entries[i].0.as_str());
        if eq_chars(&key, &target) {
            assert(headers.view_entries()[i as int].0 == name@);
            return true;
        }
        i = i + 1;
    }
    false
}

/// The view of an optional string.
pub open spec fn opt_view(o: Option<String>) -> Option<Seq<char>> {
    match o {
        Some(s) => Some(s@),
        None => None,
    }
}

// ───────────────────────── content types ─────────────────────────

/// A media type (parameters stripped) that carries binary data.
pub open spec fn binary_media_type(t: Seq<char>) -> bool {
    starts_with(t, "image/"@) || starts_with(t, "audio/"@) || starts_with(t, "video/"@)
        || starts_with(t, "font/"@) || t == "application/octet-stream"@ || t
        == "application/pdf"@ || t == "application/wasm"@ || t == "application/zip"@ || t
        == "application/gzip"@ || t == "application/x-tar"@ || t == "application/x-gzip"@ || t
        == "application/msgpack"@ || t == "application/x-msgpack"@ || t == "application/cbor"@
        || t == "application/protobuf"@ || t == "application/x-protobuf"@ || t
        == "application/vnd.google.protobuf"@
}

/// The content type is binary once its parameters (after `;`) are dropped and
/// the rest is trimmed.
pub open spec fn is_binary_content_type_spec(ct: Seq<char>) -> bool {
    binary_media_type(trim(before_first(ct, ';')))
}

/// Parameters after a `;` and whitespace around the media type do not
/// change whether a content type is binary: for a media type `ct` without
/// `;`, `ct; anything`, `ct` and `ct` trimmed all get the same answer.
pub proof fn law_binary_ignores_parameters_and_whitespace(ct: Seq<char>, params: Seq<char>)
    requires
        forall|j: int| 0 <= j < ct.len() ==> ct[j] != ';',
    ensures
        is_binary_content_type_spec(ct + ";"@ + params) == is_binary_content_type_spec(ct),
        is_binary_content_type_spec(ct) == is_binary_content_type_spec(trim(ct)),
{
    reveal_strlit(";");
    assert(";"@ =~= seq![';']);
    crate::text::lemma_before_first_split(ct, params, ';');
    crate::text::lemma_trim_idempotent(ct);
    let t = trim(ct);
    crate::text::lemma_trim_start_head(ct);
    crate::text::lemma_trim_end_prefix(crate::text::trim_start(ct));
    lemma_trim_start_suffix(ct);
    assert forall|j: int| 0 <= j < t.len() implies t[j] != ';' by {
        let y = crate::text::trim_start(ct);
        assert(t[j] == y[j]);
        let k = ct.len() - y.len();
        assert(y[j] == ct[k + j]);
    }
    crate::text::lemma_before_first_split(t, Seq::empty(), ';');
}

proof fn lemma_trim_start_suffix(s: Seq<char>)
    ensures
        crate::text::trim_start(s).len() <= s.len(),
        crate::text::trim_start(s) == s.subrange(s.len() - crate::text::trim_start(s).len(), s.len() as int),
    decreases s.len(),
{
    if s.len() > 0 && crate::text::is_ws(s[0]) {
        let t = s.subrange(1, s.len() as int);
        lemma_trim_start_suffix(t);
        assert(t.subrange(t.len() - crate::text::trim_start(t).len(), t.len() as int) =~= s.subrange(
            s.len() - crate::text::trim_start(t).len(),
            s.len() as int,
        ));
    } else {
        assert(s.subrange(0, s.len() as int) =~= s);
    }
}

/// Whether a `Content-Type` value names binary data.
pub fn is_binary_content_type(ct: &str) -> (r: bool)
    ensures
        r == is_binary_content_type_spec(ct@),
{
    let all = chars_of(ct);
    let head = match find_char(&all, ';') {
        Some(i) => slice_vec(&all, 0, i),
        None => all.clone(),
    };
    assert(head@ == before_first(all@, ';'));
    let t = trim_vec(&head);
    has_prefix_str(&t, "image/") || has_prefix_str(&t, "audio/") || has_prefix_str(&t, "video/")
        || has_prefix_str(&t, "font/") || eq_str(&t, "application/octet-stream") || eq_str(
        &t,
        "application/pdf",
    ) || eq_str(&t, "application/wasm") || eq_str(&t, "application/zip") || eq_str(
        &t,
        "application/gzip",
    ) || eq_str(&t, "application/x-tar") || eq_str(&t, "application/x-gzip") || eq_str(
        &t,
        "application/msgpack",
    ) || eq_str(&t, "application/x-msgpack") || eq_str(&t, "application/cbor") || eq_str(
        &t,
        "application/protobuf",
    ) || eq_str(&t, "application/x-protobuf") || eq_str(&t, "application/vnd.google.protobuf")
}

/// Human-readable label for an HTTP version.
pub fn protocol_label(v: HttpVersion) -> (r: &'static str)
    ensures
        r@ == (match v {
            HttpVersion::Http09 => "HTTP/0.9"@,
            HttpVersion::Http10 => "HTTP/1.0"@,
            HttpVersion::Http11 => "HTTP/1.1"@,
            HttpVersion::Http2 => "HTTP/2"@,
            HttpVersion::Http3 => "HTTP/3"@,
        }),
{
    match v {
        HttpVersion::Http09 => "HTTP/0.9",
        HttpVersion::Http10 => "HTTP/1.0",
        HttpVersion::Http11 => "HTTP/1.1",
        HttpVersion::Http2 => "HTTP/2",
        HttpVersion::Http3 => "HTTP/3",
    }
}

/// Application protocol implied by a lower-cased content type.
pub open spec fn application_for_content_type(ct: Seq<char>) -> ApplicationProtocol {
    if starts_with(ct, "application/grpc"@) {
        ApplicationProtocol::Grpc
    } else if starts_with(ct, "text/event-stream"@) {
        ApplicationProtocol::Sse
    } else if contains(ct, "graphql"@) {
        ApplicationProtocol::Graphql
    } else if contains(ct, "json"@) {
        ApplicationProtocol::Json
    } else if is_binary_content_type_spec(ct) {
        ApplicationProtocol::Binary
    } else {
        ApplicationProtocol::Http
    }
}

/// The content type of a header map, lower-cased; empty when absent.
pub open spec fn lowered_content_type(entries: Seq<(Seq<char>, Seq<char>)>) -> Seq<char> {
    match header_value_spec(entries, "content-type"@) {
        Some(v) => lower(v),
        None => Seq::empty(),
    }
}

/// Infers the application protocol from the `content-type` header.
pub fn infer_application_protocol(headers: &HeaderMap) -> (r: ApplicationProtocol)
    ensures
        r == application_for_content_type(lowered_content_type(headers.view_entries())),
{
    let ct: Vec<char> = match header_value(headers, "content-type") {
        Some(v) => lower_str(v.as_str()),
        None => {
            let e: Vec<char> = Vec::new();
            assert(e@ == lower(Seq::<char>::empty()));
            e
        },
    };
    if has_prefix_str(&ct, "application/grpc") {
        ApplicationProtocol::Grpc
    } else if has_prefix_str(&ct, "text/event-stream") {
        ApplicationProtocol::Sse
    } else if contains_str(&ct, "graphql") {
        ApplicationProtocol::Graphql
    } else if contains_str(&ct, "json") {
        ApplicationProtocol::Json
    } else if is_binary_content_type(string_of(&ct).as_str()) {
        ApplicationProtocol::Binary
    } else {
        ApplicationProtocol::Http
    }
}

/// The body mode implied by a request method and headers.
pub open spec fn body_mode_spec(method: Seq<char>, entries: Seq<(Seq<char>, Seq<char>)>) -> BodyMode {
    let upgrade_ws = match header_value_spec(entries, "upgrade"@) {
        Some(v) => lower(v) == "websocket"@,
        None => false,
    };
    let chunked = match header_value_spec(entries, "transfer-encoding"@) {
        Some(v) => contains(lower(v), "chunked"@),
        None => false,
    };
    let large = match header_value_spec(entries, "content-length"@) {
        Some(v) => match parse_unsigned(v, u64::MAX as nat) {
            Some(n) => n > STREAM_THRESHOLD_BYTES,
            None => false,
        },
        None => false,
    };
    if upgrade_ws {
        BodyMode::Frames
    } else if application_for_content_type(lowered_content_type(entries))
        == ApplicationProtocol::Grpc {
        BodyMode::StreamMessages
    } else if (method == "GET"@ || method == "HEAD"@ || method == "OPTIONS"@) && !has_header_exact(
        entries,
        "content-length"@,
    ) && !has_header_exact(entries, "transfer-encoding"@) {
        BodyMode::Empty
    } else if chunked || large {
        BodyMode::StreamBytes
    } else {
        BodyMode::Full
    }
}

/// Infers how the request body must be carried.
pub fn infer_body_mode(method: &str, headers: &HeaderMap) -> (r: BodyMode)
    ensures
        r == body_mode_spec(method@, headers.view_entries()),
{
    let upgrade_ws = match header_value(headers, "upgrade") {
        Some(v) => {
            let lv = lower_str(v.as_str());
            eq_str(&lv, "websocket")
        },
        None => false,
    };
    if upgrade_ws {
        return BodyMode::Frames;
    }
    if infer_application_protocol(headers) == ApplicationProtocol::Grpc {
        return BodyMode::StreamMessages;
    }
    let m = chars_of(method);
    if (eq_str(&m, "GET") || eq_str(&m, "HEAD") || eq_str(&m, "OPTIONS")) && !contains_key(
        headers,
        "content-length",
    ) && !contains_key(headers, "transfer-encoding") {
        return BodyMode::Empty;
    }
    let chunked = match header_value(headers, "transfer-encoding") {
        Some(v) => {
            let lv = lower_str(v.as_str());
            contains_str(&lv, "chunked")
        },
        None => false,
    };
    let large = match header_value(headers, "content-length") {
        Some(v) => {
            let cv = chars_of(v.as_str());
            match parse_unsigned_exec(&cv, u64::MAX) {
                Some(n) => n > STREAM_THRESHOLD_BYTES,
                None => false,
            }
        },
        None => false,
    };
    if chunked || large {
        BodyMode::StreamBytes
    } else {
        BodyMode::Full
    }
}

// ───────────────────────── header sanitising ─────────────────────────

/// Hop-by-hop names removed (by exact name) from forwarded requests.
pub open spec fn is_request_hop_name(name: Seq<char>) -> bool {
    name == "connection"@ || name == "keep-alive"@ || name == "proxy-connection"@ || name
        == "transfer-encoding"@ || name == "trailer"@ || name == "trailers"@ || name
        == "upgrade"@
}

/// Whether a request header survives forwarding: client-supplied `x-oproxy-*`
/// headers and hop-by-hop headers are dropped; `te` is kept only as
/// `te: trailers`, which gRPC needs.
pub open spec fn keeps_request_header(e: (Seq<char>, Seq<char>)) -> bool {
    !starts_with(lower(trim(e.0)), "x-oproxy-"@) && !is_request_hop_name(e.0) && (e.0 != "te"@
        || lower(trim(e.1)) == "trailers"@)
}

/// The entries, in order, that satisfy `keeps_request_header`.
pub open spec fn sanitized_request_headers(entries: Seq<(Seq<char>, Seq<char>)>) -> Seq<
    (Seq<char>, Seq<char>),
>
    decreases entries.len(),
{
    if entries.len() == 0 {
        Seq::empty()
    } else {
        let prev = sanitized_request_headers(entries.subrange(0, entries.len() - 1));
        if keeps_request_header(entries[entries.len() - 1]) {
            prev.push(entries[entries.len() - 1])
        } else {
            prev
        }
    }
}

fn keeps_request_header_exec(name: &str, value: &str) -> (r: bool)
    ensures
        r == keeps_request_header((name@, value@)),
{
    let n = chars_of(name);
    let tn = trim_vec(&n);
    let ln = lower_vec(&tn);
    if has_prefix_str(&ln, "x-oproxy-") {
        return false;
    }
    if eq_str(&n, "connection") || eq_str(&n, "keep-alive") || eq_str(&n, "proxy-connection")
        || eq_str(&n, "transfer-encoding") || eq_str(&n, "trailer") || eq_str(&n, "trailers")
        || eq_str(&n, "upgrade") {
        return false;
    }
    if eq_str(&n, "te") {
        let v = chars_of(value);
        let tv = trim_vec(&v);
        let lv = lower_vec(&tv);
        return eq_str(&lv, "trailers");
    }
    true
}

/// Drops client-supplied `x-oproxy-*` headers (side-channel spoofing) and
/// hop-by-hop headers, which are illegal in HTTP/2 and never forwarded.
/// `te: trailers` is required by gRPC and kept.
pub fn sanitize_forwarded_request_headers(headers: &mut HeaderMap)
    ensures
        final(headers).view_entries() == sanitized_request_headers(old(headers).view_entries()),
{
    let ghost orig = headers.view_entries();
    let mut kept: Vec<(String, String)> = Vec::new();
    let mut i: usize = 0;
    while i < headers.entries.len()
        invariant
            i <= headers.entries.len(),
            headers.view_entries() == orig,
            kept@.map_values(|e: (String, String)| entry_view(e)) == sanitized_request_headers(
                orig.subrange(0, i as int),
            ),
        decreases headers.entries.len() - i,
    {
        let ghost before = kept@;
        let keep = keeps_request_header_exec(
            headers.entries[i].0.as_str(),
            headers.entries[i].1.as_str(),
        );
        assert(orig.subrange(0, i + 1 as int).subrange(0, i as int) =~= orig.subrange(
            0,
            i as int,
        ));
        assert(orig[i as int] == entry_view(headers.entries@[i as int]));
        if keep {
            let e = (headers.entries[i].0.clone(), headers.entries[i].1.clone());
            kept.push(e);
            assert(kept@.map_values(|e: (String, String)| entry_view(e)) =~= before.map_values(
                |e: (String, String)| entry_view(e),
            ).push(entry_view(e)));
        }
        i = i + 1;
    }
    assert(orig.subrange(0, orig.len() as int) =~= orig);
    headers.entries = kept;
}

/// Hop-by-hop names stripped (ignoring case) from upstream responses.
pub open spec fn is_response_hop_name(lname: Seq<char>) -> bool {
    lname == "connection"@ || lname == "keep-alive"@ || lname == "proxy-connection"@ || lname
        == "transfer-encoding"@ || lname == "te"@ || lname == "trailer"@ || lname
        == "trailers"@ || lname == "upgrade"@
}

/// The entries, in order, whose names are not response hop-by-hop headers.
pub open spec fn stripped_response_headers(entries: Seq<(Seq<char>, Seq<char>)>) -> Seq<
    (Seq<char>, Seq<char>),
>
    decreases entries.len(),
{
    if entries.len() == 0 {
        Seq::empty()
    } else {
        let prev = stripped_response_headers(entries.subrange(0, entries.len() - 1));
        if !is_response_hop_name(lower(entries[entries.len() - 1].0)) {
            prev.push(entries[entries.len() - 1])
        } else {
            prev
        }
    }
}

/// Strips hop-by-hop headers from an upstream response before it is replayed
/// to the downstream client.
pub fn strip_hop_by_hop_response_headers(headers: &mut HeaderMap)
    ensures
        final(headers).view_entries() == stripped_response_headers(old(headers).view_entries()),
{
    let ghost orig = headers.view_entries();
    let mut kept: Vec<(String, String)> = Vec::new();
    let mut i: usize = 0;
    while i < headers.entries.len()
        invariant
            i <= headers.entries.len(),
            headers.view_entries() == orig,
            kept@.map_values(|e: (String, String)| entry_view(e)) == stripped_response_headers(
                orig.subrange(0, i as int),
            ),
        decreases headers.entries.len() - i,
    {
        let ghost before = kept@;
        let n = lower_str(headers.entries[i].0.as_str());
        let hop = eq_str(&n, "connection") || eq_str(&n, "keep-alive") || eq_str(
            &n,
            "proxy-connection",
        ) || eq_str(&n, "transfer-encoding") || eq_str(&n, "te") || eq_str(&n, "trailer")
            || eq_str(&n, "trailers") || eq_str(&n, "upgrade");
        assert(orig.subrange(0, i + 1 as int).subrange(0, i as int) =~= orig.subrange(
            0,
            i as int,
        ));
        assert(orig[i as int] == entry_view(headers.entries@[i as int]));
        if !hop {
            let e = (headers.entries[i].0.clone(), headers.entries[i].1.clone());
            kept.push(e);
            assert(kept@.map_values(|e: (String, String)| entry_view(e)) =~= before.map_values(
                |e: (String, String)| entry_view(e),
            ).push(entry_view(e)));
        }
        i = i + 1;
    }
    assert(orig.subrange(0, orig.len() as int) =~= orig);
    headers.entries = kept;
}

// ───────────────────────── upstream request target ─────────────────────────

/// The scheme an exchange is recorded with: a MITM destination's scheme
/// (before its first `://`), else the request URI's scheme, else `http`.
pub open spec fn request_scheme_spec(uri_scheme: Option<Seq<char>>, mitm_destination: Option<Seq<char>>) -> Seq<char> {
    match mitm_destination {
        Some(d) if first_occurrence(d, "://"@) is Some => d.subrange(0, first_occurrence(d, "://"@)->0),
        _ => match uri_scheme {
            Some(s) => s,
            None => "http"@,
        },
    }
}

/// The scheme an exchange is recorded with.
pub fn request_scheme(uri_scheme: Option<&str>, mitm_destination: Option<&str>) -> (r: String)
    ensures
        r@ == request_scheme_spec(
            match uri_scheme {
                Some(s) => Some(s@),
                None => None,
            },
            match mitm_destination {
                Some(d) => Some(d@),
                None => None,
            },
        ),
{
    if let Some(d) = mitm_destination {
        let dv = chars_of(d);
        let sep = chars_of("://");
        if let Some(k) = find_chars(&dv, &sep) {
            return string_of(&slice_vec(&dv, 0, k));
        }
    }
    match uri_scheme {
        Some(s) => s.to_owned(),
        None => string_of(&chars_of("http")),
    }
}

/// The path sent upstream: the request's path and query, or the fallback
/// when it has none and the fallback is a path, or `/`.
pub open spec fn upstream_path_spec(path_and_query: Option<Seq<char>>, fallback: Seq<char>) -> Seq<char> {
    match path_and_query {
        Some(p) => p,
        None => if fallback.len() > 0 && fallback[0] == '/' {
            fallback
        } else {
            "/"@
        },
    }
}

/// The path sent upstream.
pub fn upstream_path(path_and_query: Option<&str>, fallback: &str) -> (r: String)
    ensures
        r@ == upstream_path_spec(
            match path_and_query {
                Some(p) => Some(p@),
                None => None,
            },
            fallback@,
        ),
{
    match path_and_query {
        Some(p) => p.to_owned(),
        None => {
            let f = chars_of(fallback);
            if f.len() > 0 && f[0] == '/' {
                fallback.to_owned()
            } else {
                string_of(&chars_of("/"))
            }
        },
    }
}

/// `s` without trailing `/` characters.
pub open spec fn without_trailing_slashes(s: Seq<char>) -> Seq<char>
    decreases s.len(),
{
    if s.len() > 0 && s.last() == '/' {
        without_trailing_slashes(s.drop_last())
    } else {
        s
    }
}

/// The base URL of a destination: without trailing slashes, with
/// `http://` in front unless it names `http://` or `https://` itself.
pub open spec fn destination_base(destination: Seq<char>) -> Seq<char> {
    let d = without_trailing_slashes(destination);
    if starts_with(d, "http://"@) || starts_with(d, "https://"@) {
        d
    } else {
        "http://"@ + d
    }
}

/// The URL a request is sent to, and the `host` header to send with it: to
/// the routed destination when there is one (with the host and port the URL
/// parser finds in it, when it finds a host), else to the request's own host.
pub open spec fn target_url_spec(destination: Option<Seq<char>>, request_host: Seq<char>, path: Seq<char>) -> (
    Seq<char>,
    Option<Seq<char>>,
) {
    match destination {
        None => ("http://"@ + request_host + path, None),
        Some(d) => {
            let base = destination_base(d);
            let host = match url_components(base) {
                Ok((_, Some(h), port)) => Some(
                    match port {
                        Some(p) => h + ":"@ + decimal(p as nat),
                        None => h,
                    },
                ),
                _ => None,
            };
            (base + path, host)
        },
    }
}

fn cat3(a: &[char], b: &[char], c: &[char]) -> (r: Vec<char>)
    ensures
        r@ == a@ + b@ + c@,
{
    let mut v = slice_vec(a, 0, a.len());
    v.extend_from_slice(b);
    v.extend_from_slice(c);
    proof {
        assert(a@.subrange(0, a@.len() as int) =~= a@);
    }
    v
}

/// The upstream URL of a request and the `host` header it should carry
/// (see `target_url_spec`).
pub fn target_url(destination: Option<&str>, request_host: &str, path: &str) -> (r: (String, Option<String>))
    ensures
        ({
            let s = target_url_spec(
                match destination {
                    Some(d) => Some(d@),
                    None => None,
                },
                request_host@,
                path@,
            );
            &&& r.0@ == s.0
            &&& match r.1 {
                Some(h) => s.1 == Some(h@),
                None => s.1 is None,
            }
        }),
{
    let p = chars_of(path);
    let d = match destination {
        None => {
            return (string_of(&cat3(&chars_of("http://"), &chars_of(request_host), &p)), None);
        },
        Some(d) => d,
    };
    let dv = chars_of(d);
    let mut end: usize = dv.len();
    proof {
        assert(dv@.subrange(0, end as int) =~= dv@);
    }
    while end > 0 && dv[end - 1] == '/'
        invariant
            end <= dv@.len(),
            without_trailing_slashes(dv@) == without_trailing_slashes(dv@.subrange(0, end as int)),
        decreases end,
    {
        proof {
            assert(dv@.subrange(0, end as int).drop_last() =~= dv@.subrange(0, end - 1));
        }
        end = end - 1;
    }
    let trimmed = slice_vec(&dv, 0, end);
    let base: Vec<char> = if has_prefix_str(&trimmed, "http://") || has_prefix_str(&trimmed, "https://") {
        trimmed
    } else {
        cat3(&chars_of("http://"), &trimmed, &Vec::new())
    };
    proof {
        assert(base@ == destination_base(d@)) by {
            assert(("http://"@ + trimmed@ + Seq::<char>::empty()) =~= ("http://"@ + trimmed@));
        }
    }
    let base_text = string_of(&base);
    let host: Option<String> = match parse_url(base_text.as_str()) {
        Ok(parts) => match parts.host {
            Some(h) => match parts.port {
                Some(port) => Some(string_of(&cat3(&chars_of(h.as_str()), &chars_of(":"), &decimal_exec(port as u64)))),
                None => Some(h),
            },
            None => None,
        },
        Err(_) => None,
    };
    (string_of(&cat3(&base, &p, &Vec::new())), host)
}

/// A header travels upstream: it is not `host` or `content-length` and
/// forms a valid header.
pub open spec fn goes_upstream(h: (Seq<char>, Seq<char>)) -> bool {
    h.0 != "host"@ && h.0 != "content-length"@ && is_header_name(vstd::utf8::encode_utf8(h.0))
        && is_header_value(vstd::utf8::encode_utf8(h.1))
}

/// The headers sent upstream, in order: all but `host` and
/// `content-length`, and those that form valid headers.
pub fn upstream_headers(headers: &HeaderMap) -> (r: Vec<(String, String)>)
    ensures
        r@.map_values(|e: (String, String)| entry_view(e)) == headers.view_entries().filter(
            |h: (Seq<char>, Seq<char>)| goes_upstream(h),
        ),
{
    let ghost src = headers.view_entries();
    let mut out: Vec<(String, String)> = Vec::new();
    let mut i: usize = 0;
    while i < headers.entries.len()
        invariant
            i <= headers.entries.len(),
            src == headers.view_entries(),
            src.len() == headers.entries.len(),
            out@.map_values(|e: (String, String)| entry_view(e)) == src.subrange(0, i as int).filter(
                |h: (Seq<char>, Seq<char>)| goes_upstream(h),
            ),
        decreases headers.entries.len() - i,
    {
        let name = &headers.entries[i].0;
        let value = &headers.entries[i].1;
        proof {
            let t = src.subrange(0, i + 1);
            assert(t.drop_last() =~= src.subrange(0, i as int));
            assert(src[i as int] == entry_view(headers.entries@[i as int]));
            reveal(Seq::filter);
        }
        let host = "host".to_owned();
        let length = "content-length".to_owned();
        if *name != host && *name != length && header_name_valid(name.as_str()) && header_value_valid(value.as_str()) {
            out.push((name.clone(), value.clone()));
            proof {
                assert(out@.map_values(|e: (String, String)| entry_view(e)) =~= src.subrange(0, i + 1).filter(
                    |h: (Seq<char>, Seq<char>)| goes_upstream(h),
                ));
            }
        } else {
            proof {
                assert(out@.map_values(|e: (String, String)| entry_view(e)) =~= src.subrange(0, i + 1).filter(
                    |h: (Seq<char>, Seq<char>)| goes_upstream(h),
                ));
            }
        }
        i = i + 1;
    }
    proof {
        assert(src.subrange(0, i as int) =~= src);
    }
    out
}


/// Stripping a response's hop-by-hop headers keeps every header whose name
/// is none of the eight connection-level names (`connection`,
/// `keep-alive`, `proxy-connection`, `transfer-encoding`, `te`, `trailer`,
/// `trailers`, `upgrade`, ignoring ASCII case), so end-to-end headers such
/// as `Location` reach the client; and it keeps none of those eight.
pub proof fn law_strip_keeps_end_to_end_headers(entries: Seq<(Seq<char>, Seq<char>)>, i: int)
    requires
        0 <= i < entries.len(),
    ensures
        ({
            let n = lower(entries[i].0);
            (n != "connection"@ && n != "keep-alive"@ && n != "proxy-connection"@ && n
                != "transfer-encoding"@ && n != "te"@ && n != "trailer"@ && n != "trailers"@ && n
                != "upgrade"@) ==> stripped_response_headers(entries).contains(entries[i])
        }),
        forall|k: int|
            0 <= k < stripped_response_headers(entries).len() ==> {
                let n = lower(#[trigger] stripped_response_headers(entries)[k].0);
                n != "connection"@ && n != "keep-alive"@ && n != "proxy-connection"@ && n
                    != "transfer-encoding"@ && n != "te"@ && n != "trailer"@ && n != "trailers"@
                    && n != "upgrade"@
            },
    decreases entries.len(),
{
    let prev = entries.subrange(0, entries.len() - 1);
    let sp = stripped_response_headers(prev);
    let s = stripped_response_headers(entries);
    if i < entries.len() - 1 {
        assert(prev[i] == entries[i]);
        law_strip_keeps_end_to_end_headers(prev, i);
        if sp.contains(entries[i]) {
            let k = choose|k: int| 0 <= k < sp.len() && sp[k] == entries[i];
            assert(s[k] == sp[k]);
        }
    } else {
        if !is_response_hop_name(lower(entries[i].0)) {
            assert(s.last() == entries[i]);
        }
        if prev.len() > 0 {
            law_strip_keeps_end_to_end_headers(prev, 0);
        }
    }
    if prev.len() == 0 {
        assert(sp =~= Seq::<(Seq<char>, Seq<char>)>::empty());
    }
    assert forall|k: int| 0 <= k < s.len() implies {
        let n = lower(#[trigger] s[k].0);
        n != "connection"@ && n != "keep-alive"@ && n != "proxy-connection"@ && n
            != "transfer-encoding"@ && n != "te"@ && n != "trailer"@ && n != "trailers"@ && n
            != "upgrade"@
    } by {
        if k < sp.len() {
            assert(s[k] == sp[k]);
        } else {
            assert(!is_response_hop_name(lower(entries[entries.len() - 1].0)));
        }
    }
}

} // verus!

//! Replaying a recorded exchange: which recorded headers are sent again and
//! how the replayed request is recorded.
use vstd::prelude::*;
use crate::exchange::{RequestContext, ResponseContext};
use crate::auth::{parse_url, url_components};
use crate::compose::{is_method, method_valid};
use crate::text::{chars_of, string_of, lower, lower_vec, eq_str};

verus! {

/// Connection-level headers that are not replayed.
pub open spec fn is_hop_by_hop(lowered: Seq<char>) -> bool {
    lowered == "host"@ || lowered == "connection"@ || lowered == "transfer-encoding"@ || lowered
        == "keep-alive"@ || lowered == "proxy-authenticate"@ || lowered == "proxy-authorization"@
        || lowered == "te"@ || lowered == "trailer"@ || lowered == "upgrade"@
}

/// Whether a header is connection-level (compared ignoring ASCII case).
pub fn is_hop_by_hop_header(name: &str) -> (r: bool)
    ensures
        r == is_hop_by_hop(lower(name@)),
{
    let n = lower_vec(&chars_of(name));
    eq_str(&n, "host") || eq_str(&n, "connection") || eq_str(&n, "transfer-encoding") || eq_str(
        &n,
        "keep-alive",
    ) || eq_str(&n, "proxy-authenticate") || eq_str(&n, "proxy-authorization") || eq_str(&n, "te")
        || eq_str(&n, "trailer") || eq_str(&n, "upgrade")
}

/// A header-name byte: an RFC 9110 token character.
pub open spec fn is_token_byte(b: u8) -> bool {
    // letters, digits and ! # $ % & ' * + - . ^ _ ` | ~
    (97 <= b <= 122) || (65 <= b <= 90) || (48 <= b <= 57) || b == 33 || b == 35 || b == 36 || b
        == 37 || b == 38 || b == 39 || b == 42 || b == 43 || b == 45 || b == 46 || b == 94 || b == 95
        || b == 96 || b == 124 || b == 126
}

/// A valid header name: 1 to 65535 token bytes.
pub open spec fn is_header_name(bytes: Seq<u8>) -> bool {
    1 <= bytes.len() <= 65535 && forall|i: int| 0 <= i < bytes.len() ==> is_token_byte(#[trigger] bytes[i])
}

/// A valid header value: no control bytes other than tab, no DEL.
pub open spec fn is_header_value(bytes: Seq<u8>) -> bool {
    forall|i: int| 0 <= i < bytes.len() ==> ((#[trigger] bytes[i] >= 32 && bytes[i] != 127) || bytes[i] == 9)
}

/// `reqwest::header::HeaderName::from_bytes` succeeds on the UTF-8 bytes
/// of `name`. Trusted: as the `http` crate's source shows, it accepts
/// exactly 1 to 65535 token characters.
#[verifier::external_body]
pub(crate) fn header_name_valid(name: &str) -> (r: bool)
    ensures
        r == is_header_name(vstd::utf8::encode_utf8(name@)),
{
    reqwest::header::HeaderName::from_bytes(name.as_bytes()).is_ok()
}

/// `reqwest::header::HeaderValue::from_bytes` succeeds on the UTF-8 bytes of
/// `value`. Trusted: as the `http` crate's source shows, it accepts exactly
/// the byte strings without control bytes other than tab and without DEL.
#[verifier::external_body]
pub(crate) fn header_value_valid(value: &str) -> (r: bool)
    ensures
        r == is_header_value(vstd::utf8::encode_utf8(value@)),
{
    reqwest::header::HeaderValue::from_bytes(value.as_bytes()).is_ok()
}

/// A recorded header is sent again: it is not connection-level and forms a
/// valid header.
pub open spec fn replayable(h: (String, String)) -> bool {
    !is_hop_by_hop(lower(h.0@)) && is_header_name(vstd::utf8::encode_utf8(h.0@)) && is_header_value(
        vstd::utf8::encode_utf8(h.1@),
    )
}

/// The replayable headers, in order.
pub open spec fn replay_headers_spec(hs: Seq<(String, String)>) -> Seq<(String, String)>
    decreases hs.len(),
{
    if hs.len() == 0 {
        Seq::empty()
    } else {
        let prev = replay_headers_spec(hs.drop_last());
        if replayable(hs.last()) {
            prev.push(hs.last())
        } else {
            prev
        }
    }
}

/// The headers sent when replaying a recorded request.
pub fn replay_headers(headers: &Vec<(String, String)>) -> (r: Vec<(String, String)>)
    ensures
        r@ == replay_headers_spec(headers@),
{
    let mut out: Vec<(String, String)> = Vec::new();
    let mut i: usize = 0;
    while i < headers.len()
        invariant
            i <= headers@.len(),
            out@ == replay_headers_spec(headers@.subrange(0, i as int)),
        decreases headers.len() - i,
    {
        let ghost pre = headers@.subrange(0, i as int);
        assert(headers@.subrange(0, i + 1).drop_last() =~= pre);
        let (name, value) = (&headers[i].0, &headers[i].1);
        if !is_hop_by_hop_header(name.as_str()) && header_name_valid(name.as_str()) && header_value_valid(
            value.as_str(),
        ) {
            out.push((name.clone(), value.clone()));
        }
        i = i + 1;
    }
    assert(headers@.subrange(0, headers@.len() as int) =~= headers@);
    out
}

/// The method recorded for a replayed request.
pub open spec fn replayed_method_spec(m: Seq<char>) -> Seq<char> {
    "[REPLAY] "@ + m
}

/// The request recorded for a replay: the original with its method marked.
pub fn replay_request(request: RequestContext) -> (r: RequestContext)
    ensures
        r.method@ == replayed_method_spec(request.method@),
        r.uri == request.uri,
        r.headers == request.headers,
        r.body == request.body,
        r.host == request.host,
{
    let mut req = request;
    let mut m = chars_of("[REPLAY] ");
    let orig = chars_of(req.method.as_str());
    let ghost head = m@;
    let mut i: usize = 0;
    while i < orig.len()
        invariant
            i <= orig@.len(),
            head == "[REPLAY] "@,
            m@ == head + orig@.subrange(0, i as int),
        decreases orig.len() - i,
    {
        m.push(orig[i]);
        i = i + 1;
        assert(m@ =~= head + orig@.subrange(0, i as int));
    }
    assert(orig@.subrange(0, orig@.len() as int) =~= orig@);
    req.method = string_of(&m);
    req
}

/// Tags recorded on a replayed exchange.
pub fn replay_tags() -> (r: Vec<String>)
    ensures
        r@.len() == 1,
        r@[0]@ == "replay"@,
{
    let mut v: Vec<String> = Vec::new();
    v.push(string_of(&chars_of("replay")));
    v
}

/// A recorded request can be replayed when its method is a valid method
/// and its URI parses as a URL (the admin egress policy is checked
/// besides, by the caller).
pub open spec fn replayable_request(request: RequestContext) -> bool {
    is_method(vstd::utf8::encode_utf8(request.method@)) && url_components(request.uri@) is Ok
}

/// Whether a recorded request can be replayed (see `replayable_request`).
pub fn prepare_replay(request: &RequestContext) -> (r: bool)
    ensures
        r == replayable_request(*request),
{
    if !method_valid(request.method.as_str()) {
        return false;
    }
    match parse_url(request.uri.as_str()) {
        Ok(_) => true,
        Err(_) => false,
    }
}

/// Whether a replayed request carries a body: only when the recorded body
/// is not empty.
pub fn replay_sends_body(request: &RequestContext) -> (r: bool)
    ensures
        r == (request.body@.len() > 0),
{
    !request.body.as_str().is_empty()
}


/// What a replay records: nothing when the request got no response;
/// otherwise the request with its method marked, the response (its status
/// and body, under the request's URI), and the `replay` tag.
pub fn replay_record(request: RequestContext, reply: Option<(u16, String)>) -> (r: Option<
    (RequestContext, ResponseContext, Vec<String>),
>)
    ensures
        r is Some <==> reply is Some,
        r matches Some(rec) ==> {
            &&& rec.0.method@ == replayed_method_spec(request.method@)
            &&& rec.0.uri == request.uri
            &&& rec.0.headers == request.headers
            &&& rec.0.body == request.body
            &&& rec.1.request_uri == request.uri
            &&& reply matches Some((st, b)) && rec.1.status == st && rec.1.body == b
            &&& rec.1.headers@.len() == 0
            &&& rec.2@.len() == 1
            &&& rec.2@[0]@ == "replay"@
        },
{
    match reply {
        None => None,
        Some((status, body)) => {
            let uri = request.uri.clone();
            let req = replay_request(request);
            let response = ResponseContext {
                request_uri: uri,
                status,
                headers: Vec::new(),
                body,
                ttfb_ms: 0,
                body_ms: 0,
            };
            let tags = replay_tags();
            Some((req, response, tags))
        },
    }
}


/// Replay keeps every recorded header that forms a valid header and is not
/// one of the nine connection-level names (`host`, `connection`,
/// `transfer-encoding`, `keep-alive`, `proxy-authenticate`,
/// `proxy-authorization`, `te`, `trailer`, `upgrade`, ignoring ASCII case):
/// end-to-end headers such as `Content-Type` go out again. Those nine are
/// never sent.
pub proof fn law_replay_keeps_end_to_end_headers(hs: Seq<(String, String)>, i: int)
    requires
        0 <= i < hs.len(),
    ensures
        ({
            let n = lower(hs[i].0@);
            (n != "host"@ && n != "connection"@ && n != "transfer-encoding"@ && n != "keep-alive"@
                && n != "proxy-authenticate"@ && n != "proxy-authorization"@ && n != "te"@ && n
                != "trailer"@ && n != "upgrade"@ && is_header_name(vstd::utf8::encode_utf8(hs[i].0@))
                && is_header_value(vstd::utf8::encode_utf8(hs[i].1@))) ==> replay_headers_spec(
                hs,
            ).contains(hs[i])
        }),
        forall|k: int|
            0 <= k < replay_headers_spec(hs).len() ==> {
                let n = lower(#[trigger] replay_headers_spec(hs)[k].0@);
                n != "host"@ && n != "connection"@ && n != "transfer-encoding"@ && n != "keep-alive"@
                    && n != "proxy-authenticate"@ && n != "proxy-authorization"@ && n != "te"@ && n
                    != "trailer"@ && n != "upgrade"@
            },
    decreases hs.len(),
{
    let prev = hs.drop_last();
    if i < hs.len() - 1 {
        assert(prev[i] == hs[i]);
        law_replay_keeps_end_to_end_headers(prev, i);
        if replay_headers_spec(prev).contains(hs[i]) {
            let k = choose|k: int| 0 <= k < replay_headers_spec(prev).len() && replay_headers_spec(prev)[k] == hs[i];
            assert(replay_headers_spec(hs)[k] == replay_headers_spec(prev)[k]);
        }
    } else {
        if replayable(hs.last()) {
            assert(replay_headers_spec(hs).last() == hs[i]);
        }
        if prev.len() > 0 {
            law_replay_keeps_end_to_end_headers(prev, 0);
        }
    }
    if hs.len() > 0 && prev.len() == 0 {
        assert(replay_headers_spec(prev) =~= Seq::<(String, String)>::empty());
    }
    assert forall|k: int| 0 <= k < replay_headers_spec(hs).len() implies {
        let n = lower(#[trigger] replay_headers_spec(hs)[k].0@);
        n != "host"@ && n != "connection"@ && n != "transfer-encoding"@ && n != "keep-alive"@
            && n != "proxy-authenticate"@ && n != "proxy-authorization"@ && n != "te"@ && n
            != "trailer"@ && n != "upgrade"@
    } by {
        if k < replay_headers_spec(prev).len() {
            assert(replay_headers_spec(hs)[k] == replay_headers_spec(prev)[k]);
        } else {
            assert(replayable(hs.last()));
        }
    }
}

} // verus!

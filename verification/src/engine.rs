//! Decisions of the proxy engine that do not touch the network: the URI an
//! exchange is recorded under, and detection of requests addressed to the
//! proxy itself.
use vstd::prelude::*;
use crate::auth::{parse_url, url_components};
use crate::text::{
    chars_of, string_of, lower, lower_vec, trim, trim_vec, eq_str, eq_chars, before_first,
    find_char, slice_vec, strs_view, trim_end, is_ws, parse_unsigned, parse_unsigned_exec,
    contains, contains_chars, starts_with, decimal, decimal_exec,
};
use crate::wire::{HeaderMap, header_value, header_value_spec};

verus! {

/// The parts of a request target that the recorded URI is built from: the
/// target as written, its path and query (if it has a path), and whether
/// it is in absolute form (has both a scheme and an authority).
#[derive(Debug, Clone)]
pub struct RequestTarget {
    pub text: String,
    pub path_and_query: Option<String>,
    pub absolute: bool,
}

/// `s` with trailing `/` characters removed.
pub open spec fn trim_end_slashes(s: Seq<char>) -> Seq<char>
    decreases s.len(),
{
    if s.len() > 0 && s.last() == '/' {
        trim_end_slashes(s.drop_last())
    } else {
        s
    }
}

/// The URI an exchange is recorded under: a MITM exchange under its
/// destination origin, an absolute-form request as written, any other
/// request under `http://` and its `Host`.
pub open spec fn display_uri_spec(target: RequestTarget, mitm_destination: Option<Seq<char>>, host: Seq<char>) -> Seq<char> {
    let pq = match target.path_and_query {
        Some(p) => p@,
        None => "/"@,
    };
    match mitm_destination {
        Some(d) => trim_end_slashes(d) + pq,
        None => if target.absolute {
            target.text@
        } else {
            "http://"@ + host + pq
        },
    }
}

fn append(out: &mut Vec<char>, s: &[char])
    ensures
        final(out)@ == old(out)@ + s@,
{
    let mut i: usize = 0;
    let ghost start = out@;
    while i < s.len()
        invariant
            i <= s@.len(),
            out@ == start + s@.subrange(0, i as int),
        decreases s.len() - i,
    {
        out.push(s[i]);
        i = i + 1;
        assert(out@ =~= start + s@.subrange(0, i as int));
    }
    assert(s@.subrange(0, s@.len() as int) =~= s@);
}

/// The URI an exchange is recorded under.
pub fn display_request_uri(target: &RequestTarget, mitm_destination: Option<&str>, host: &str) -> (r: String)
    ensures
        r@ == display_uri_spec(
            *target,
            match mitm_destination {
                Some(d) => Some(d@),
                None => None,
            },
            host@,
        ),
{
    let pq: Vec<char> = match &target.path_and_query {
        Some(p) => chars_of(p.as_str()),
        None => chars_of("/"),
    };
    match mitm_destination {
        Some(d) => {
            let dv = chars_of(d);
            let mut end: usize = dv.len();
            assert(dv@.subrange(0, end as int) =~= dv@);
            while end > 0 && dv[end - 1] == '/'
                invariant
                    end <= dv@.len(),
                    trim_end_slashes(dv@) == trim_end_slashes(dv@.subrange(0, end as int)),
                decreases end,
            {
                assert(dv@.subrange(0, end as int).drop_last() =~= dv@.subrange(0, end - 1));
                end = end - 1;
            }
            let mut out = slice_vec(&dv, 0, end);
            append(&mut out, &pq);
            string_of(&out)
        },
        None => {
            if target.absolute {
                return target.text.clone();
            }
            let mut out = chars_of("http://");
            append(&mut out, &chars_of(host));
            append(&mut out, &pq);
            string_of(&out)
        },
    }
}

/// A loopback or wildcard host name.
pub open spec fn is_loopback_or_wildcard(h: Seq<char>) -> bool {
    h == "localhost"@ || h == "127.0.0.1"@ || h == "::1"@ || h == "0.0.0.0"@ || h == "[::]"@
}

/// The bind host as compared with request hosts: the part before the
/// first `:`, trimmed and lower-cased.
pub open spec fn bind_host_key(bind_host: Seq<char>) -> Seq<char> {
    lower(trim(before_first(bind_host, ':')))
}

/// Whether a target URL points back at this proxy: same port (the
/// scheme's default when none is given) and a loopback or wildcard host,
/// the bind host, or, when bound to a wildcard address, one of this
/// machine's LAN addresses.
pub open spec fn is_self_proxy_spec(
    target: Seq<char>,
    bind_port: u16,
    bind_host: Seq<char>,
    lan_hosts: Seq<Seq<char>>,
) -> bool {
    match url_components(target) {
        Err(_) => false,
        Ok((scheme, host, port)) => match host {
            None => false,
            Some(h) => {
                let hl = lower(h);
                let p: int = match port {
                    Some(x) => x as int,
                    None => if scheme == "https"@ {
                        443
                    } else {
                        80
                    },
                };
                let b = bind_host_key(bind_host);
                &&& p == bind_port as int
                &&& (is_loopback_or_wildcard(hl) || hl == b || ((b == "0.0.0.0"@ || b == "::"@ || b
                    == "[::]"@) && lan_hosts.contains(hl)))
            },
        },
    }
}

fn contains_str_vec(v: &Vec<String>, s: &[char]) -> (r: bool)
    ensures
        r == strs_view(v@).contains(s@),
{
    let mut i: usize = 0;
    while i < v.len()
        invariant
            i <= v@.len(),
            forall|j: int| 0 <= j < i ==> strs_view(v@)[j] != s@,
        decreases v.len() - i,
    {
        if eq_chars(&chars_of(v[i].as_str()), s) {
            assert(strs_view(v@)[i as int] == s@);
            return true;
        }
        i = i + 1;
    }
    false
}

/// Detects a request the proxy would forward to itself.
pub fn is_self_proxy(target_url: &str, bind_port: u16, bind_host: &str, lan_hosts: &Vec<String>) -> (r: bool)
    ensures
        r == is_self_proxy_spec(target_url@, bind_port, bind_host@, strs_view(lan_hosts@)),
{
    let parts = match parse_url(target_url) {
        Ok(p) => p,
        Err(_) => {
            return false;
        },
    };
    let host = match &parts.host {
        Some(h) => h,
        None => {
            return false;
        },
    };
    let hl = lower_vec(&chars_of(host.as_str()));
    let port: u16 = match parts.port {
        Some(x) => x,
        None => if eq_str(&chars_of(parts.scheme.as_str()), "https") {
            443
        } else {
            80
        },
    };
    if port != bind_port {
        return false;
    }
    if eq_str(&hl, "localhost") || eq_str(&hl, "127.0.0.1") || eq_str(&hl, "::1") || eq_str(
        &hl,
        "0.0.0.0",
    ) || eq_str(&hl, "[::]") {
        return true;
    }
    let bh = chars_of(bind_host);
    let head: Vec<char> = match find_char(&bh, ':') {
        Some(i) => slice_vec(&bh, 0, i),
        None => bh,
    };
    let b = lower_vec(&trim_vec(&head));
    if eq_chars(&hl, &b) {
        return true;
    }
    (eq_str(&b, "0.0.0.0") || eq_str(&b, "::") || eq_str(&b, "[::]")) && contains_str_vec(lan_hosts, &hl)
}

// ───────────────────────── short-circuited responses ─────────────────────────

/// The size recorded for a response served without going upstream: its
/// body's length, or, for an empty body, its `content-length` when that
/// reads as a size.
pub open spec fn short_circuit_size_spec(body_len: nat, headers: Seq<(Seq<char>, Seq<char>)>) -> nat {
    if body_len > 0 {
        body_len
    } else {
        match header_value_spec(headers, "content-length"@) {
            Some(v) => match parse_unsigned(v, usize::MAX as nat) {
                Some(n) => n,
                None => 0,
            },
            None => 0,
        }
    }
}

/// The size recorded for a response served without going upstream.
pub fn short_circuit_response_size(body_len: usize, headers: &HeaderMap) -> (r: usize)
    ensures
        r == short_circuit_size_spec(body_len as nat, headers.view_entries()),
{
    if body_len > 0 {
        return body_len;
    }
    match header_value(headers, "content-length") {
        Some(v) => {
            let c = chars_of(v.as_str());
            match parse_unsigned_exec(&c, usize::MAX as u64) {
                Some(n) => n as usize,
                None => 0,
            }
        },
        None => 0,
    }
}

/// The tags of a session after a response adds some: the old ones, then
/// each new one not already present, in order.
pub open spec fn merged_tags(existing: Seq<Seq<char>>, added: Seq<Seq<char>>) -> Seq<Seq<char>>
    decreases added.len(),
{
    if added.len() == 0 {
        existing
    } else {
        let prev = merged_tags(existing, added.drop_last());
        if prev.contains(added.last()) {
            prev
        } else {
            prev.push(added.last())
        }
    }
}

/// Merges a response's tags into a session's.
pub fn merge_tags(existing: &Vec<String>, added: &Vec<String>) -> (r: Vec<String>)
    ensures
        strs_view(r@) == merged_tags(strs_view(existing@), strs_view(added@)),
{
    let mut merged = crate::text::clone_strs(existing);
    let mut i: usize = 0;
    while i < added.len()
        invariant
            i <= added.len(),
            strs_view(merged@) == merged_tags(strs_view(existing@), strs_view(added@).subrange(0, i as int)),
        decreases added.len() - i,
    {
        proof {
            assert(strs_view(added@).subrange(0, i + 1).drop_last() =~= strs_view(added@).subrange(0, i as int));
        }
        let tag = &added[i];
        let mut present = false;
        let mut j: usize = 0;
        while j < merged.len()
            invariant
                j <= merged.len(),
                present == exists|k: int| 0 <= k < j && strs_view(merged@)[k] == tag@,
            decreases merged.len() - j,
        {
            assert(strs_view(merged@)[j as int] == merged@[j as int]@);
            if merged[j] == *tag {
                present = true;
            }
            j = j + 1;
        }
        proof {
            let mv = strs_view(merged@);
            if present {
                let k = choose|k: int| 0 <= k < j && mv[k] == tag@;
                assert(mv.contains(tag@));
            } else {
                assert(!mv.contains(tag@));
            }
        }
        if !present {
            let ghost before = merged@;
            merged.push(tag.clone());
            proof {
                assert(strs_view(merged@) =~= strs_view(before).push(tag@));
            }
        }
        i = i + 1;
    }
    proof {
        assert(strs_view(added@).subrange(0, i as int) =~= strs_view(added@));
    }
    merged
}

/// Merging adds no tag twice: when the session's tags are distinct, so are
/// the merged ones; and every old tag is kept.
pub proof fn law_merged_tags_distinct(existing: Seq<Seq<char>>, added: Seq<Seq<char>>)
    requires
        existing.no_duplicates(),
    ensures
        merged_tags(existing, added).no_duplicates(),
        existing.is_prefix_of(merged_tags(existing, added)),
    decreases added.len(),
{
    if added.len() > 0 {
        law_merged_tags_distinct(existing, added.drop_last());
        let prev = merged_tags(existing, added.drop_last());
        if !prev.contains(added.last()) {
            let next = prev.push(added.last());
            assert forall|a: int, b: int| 0 <= a < next.len() && 0 <= b < next.len() && a != b implies next[a] != next[b] by {
                if a < prev.len() && b < prev.len() {
                } else if a == prev.len() {
                    assert(next[b] == prev[b]);
                } else {
                    assert(next[a] == prev[a]);
                }
            }
        }
    } else {
        assert(existing.is_prefix_of(existing)) by {
            assert(existing.subrange(0, existing.len() as int) =~= existing);
        }
    }
}


// ───────────────────────── forwarding decisions ─────────────────────────

/// A body is attached to the upstream request when there is one or the
/// request names a `content-length` (so that a bodiless GET is not sent
/// with `Content-Length: 0`).
pub fn attaches_request_body(body_len: usize, headers: &HeaderMap) -> (r: bool)
    ensures
        r == (body_len > 0 || crate::wire::has_header_exact(headers.view_entries(), "content-length"@)),
{
    body_len > 0 || crate::wire::contains_key(headers, "content-length")
}

/// The buffered path streams an upstream response instead of reading it
/// whole: server-sent events, a body announced larger than the streaming
/// threshold, or a chunked transfer encoding.
pub open spec fn streams_response_spec(
    content_type: Seq<char>,
    content_length: Option<u64>,
    transfer_encoding: Option<Seq<char>>,
) -> bool {
    let chunked = match transfer_encoding {
        Some(v) => contains(lower(v), "chunked"@),
        None => false,
    };
    let length = match content_length {
        Some(n) => n,
        None => 0,
    };
    contains(content_type, "text/event-stream"@) || length > crate::wire::STREAM_THRESHOLD_BYTES
        || chunked
}

/// Whether the buffered path streams an upstream response (see
/// `streams_response_spec`); the content type is compared as it came.
pub fn streams_response(
    content_type: &str,
    content_length: Option<u64>,
    transfer_encoding: Option<&str>,
) -> (r: bool)
    ensures
        r == streams_response_spec(
            content_type@,
            content_length,
            match transfer_encoding {
                Some(t) => Some(t@),
                None => None,
            },
        ),
{
    let chunked = match transfer_encoding {
        Some(v) => contains_chars(&lower_vec(&chars_of(v)), &chars_of("chunked")),
        None => false,
    };
    let length: u64 = match content_length {
        Some(n) => n,
        None => 0,
    };
    contains_chars(&chars_of(content_type), &chars_of("text/event-stream")) || length
        > crate::wire::STREAM_THRESHOLD_BYTES || chunked
}

/// A gRPC response that succeeded gets a `grpc-status: 0` trailer, which
/// the upstream's trailers (dropped by the HTTP client) would have carried.
pub fn needs_grpc_trailers(content_type: &str, status: u16) -> (r: bool)
    ensures
        r == (starts_with(content_type@, "application/grpc"@) && status == 200),
{
    crate::text::has_prefix_str(&chars_of(content_type), "application/grpc") && status == 200
}

/// The streaming path reads an encoded response whole to decode it: it
/// names a non-blank `content-encoding`, is not server-sent events, and is
/// not announced larger than the body limit.
pub open spec fn normalizes_encoding_spec(
    headers: Seq<(Seq<char>, Seq<char>)>,
    content_length: Option<u64>,
    max_body_bytes: usize,
) -> bool {
    let encoded = match header_value_spec(headers, "content-encoding"@) {
        Some(v) => trim(v).len() > 0,
        None => false,
    };
    let content_type = match header_value_spec(headers, "content-type"@) {
        Some(v) => lower(v),
        None => Seq::empty(),
    };
    encoded && !contains(content_type, "text/event-stream"@) && match content_length {
        Some(n) => n <= max_body_bytes,
        None => true,
    }
}

/// Whether the streaming path decodes an encoded response before relaying
/// it (see `normalizes_encoding_spec`).
pub fn normalizes_encoding(headers: &HeaderMap, content_length: Option<u64>, max_body_bytes: usize) -> (r:
    bool)
    ensures
        r == normalizes_encoding_spec(headers.view_entries(), content_length, max_body_bytes),
{
    let encoded = match header_value(headers, "content-encoding") {
        Some(v) => trim_vec(&chars_of(v.as_str())).len() > 0,
        None => false,
    };
    let content_type: Vec<char> = match header_value(headers, "content-type") {
        Some(v) => lower_vec(&chars_of(v.as_str())),
        None => {
            let e: Vec<char> = Vec::new();
            e
        },
    };
    let within = match content_length {
        Some(n) => n <= max_body_bytes as u64,
        None => true,
    };
    encoded && !contains_chars(&content_type, &chars_of("text/event-stream")) && within
}

/// While an encoded response is read whole, a chunk is taken only if the
/// bytes read so far and the chunk together stay within the body limit.
pub fn chunk_fits(read_so_far: usize, chunk_len: usize, max_body_bytes: usize) -> (r: bool)
    ensures
        r == (read_so_far + chunk_len <= max_body_bytes),
{
    chunk_len <= max_body_bytes && read_so_far <= max_body_bytes - chunk_len
}

fn message_around(head: &str, n: usize, tail: &str) -> (r: String)
    ensures
        r@ == head@ + decimal(n as nat) + tail@,
{
    let mut v = chars_of(head);
    v.extend_from_slice(decimal_exec(n as u64).as_slice());
    v.extend_from_slice(chars_of(tail).as_slice());
    string_of(&v)
}

/// The answer to a request whose body is over the limit.
pub fn body_limit_message(max_body_bytes: usize) -> (r: String)
    ensures
        r@ == "Request body exceeds the "@ + decimal(max_body_bytes as nat)
            + " byte limit. Raise max_body_bytes in settings to increase it."@,
{
    message_around(
        "Request body exceeds the ",
        max_body_bytes,
        " byte limit. Raise max_body_bytes in settings to increase it.",
    )
}

/// The answer when an encoded response outgrows the limit while it is
/// read whole for decoding.
pub fn encoded_limit_message(max_body_bytes: usize) -> (r: String)
    ensures
        r@ == "encoded response exceeded max_body_bytes ("@ + decimal(max_body_bytes as nat)
            + ") while normalizing content-encoding"@,
{
    message_around(
        "encoded response exceeded max_body_bytes (",
        max_body_bytes,
        ") while normalizing content-encoding",
    )
}

} // verus!

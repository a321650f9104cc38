//! Admin authentication and host checks for the management plane.
//!
//! Requests reach the management UI/API only on a management host, carry the
//! admin token when one is configured, and pass a same-origin check when they
//! change state. The decisions are made here from plain request facts.
use vstd::prelude::*;
use crate::config::Config;
use crate::text::{
    chars_of, count_char, count_char_exec, eq_chars, eq_str, first_index, last_index, lower,
    lower_vec, parse_unsigned, parse_unsigned_exec, rfind_char, find_char, slice_vec, split,
    split_char, starts_with, string_of, trim, trim_vec, all_digits, all_digits_exec, vecs_view,
    has_prefix_str, lemma_first_index_facts, lemma_last_index_facts,
};

verus! {

// ───────────────────────── URL parsing (outside) ─────────────────────────

/// Scheme, host and explicit (non-default) port of a parsed absolute URL, or
/// the parser's error message when the text is not a valid URL.
pub uninterp spec fn url_components(s: Seq<char>) -> Result<(Seq<char>, Option<Seq<char>>, Option<u16>), Seq<char>>;

/// The parts of an absolute URL that the management plane looks at.
#[derive(Debug, Clone)]
pub struct UrlParts {
    pub scheme: String,
    pub host: Option<String>,
    pub port: Option<u16>,
}

pub open spec fn url_parts_view(r: Result<UrlParts, String>) -> Result<(Seq<char>, Option<Seq<char>>, Option<u16>), Seq<char>> {
    match r {
        Ok(p) => Ok((
            p.scheme@,
            match p.host {
                Some(h) => Some(h@),
                None => None,
            },
            p.port,
        )),
        Err(e) => Err(e@),
    }
}

/// Parses an absolute URL with `reqwest::Url::parse` (the WHATWG URL parser
/// of the `url` crate) and returns its scheme, `host_str()` and `port()`, or
/// the error's display text. The contract only ties the result to the input
/// text through `url_components`; what the parser accepts is not restated.
#[verifier::external_body]
pub(crate) fn parse_url(s: &str) -> (r: Result<UrlParts, String>)
    ensures
        url_parts_view(r) == url_components(s@),
{
    match reqwest::Url::parse(s) {
        Ok(u) => Ok(
            UrlParts {
                scheme: u.scheme().to_string(),
                host: u.host_str().map(|h| h.to_string()),
                port: u.port(),
            },
        ),
        Err(e) => Err(e.to_string()),
    }
}

// ───────────────────────── token checks ─────────────────────────

/// The admin token in effect: the configured one, trimmed, unless blank.
pub open spec fn configured_token_spec(c: Config) -> Option<Seq<char>> {
    match c.admin_token {
        Some(t) => if trim(t@).len() == 0 {
            None
        } else {
            Some(trim(t@))
        },
        None => None,
    }
}

pub open spec fn opt_view(o: Option<String>) -> Option<Seq<char>> {
    match o {
        Some(s) => Some(s@),
        None => None,
    }
}

/// The admin token in effect for a configuration.
pub fn configured_admin_token(config: &Config) -> (r: Option<String>)
    ensures
        opt_view(r) == configured_token_spec(*config),
{
    match &config.admin_token {
        Some(t) => {
            let v = chars_of(t.as_str());
            let tv = trim_vec(&v);
            if tv.len() == 0 {
                None
            } else {
                Some(string_of(&tv))
            }
        },
        None => None,
    }
}

/// Compares two strings in time that depends only on their lengths.
pub fn token_matches(candidate: &str, expected: &str) -> (r: bool)
    ensures
        r == (candidate@ == expected@),
{
    let a = chars_of(candidate);
    let b = chars_of(expected);
    if a.len() != b.len() {
        return false;
    }
    let mut diff: bool = false;
    let mut i: usize = 0;
    while i < a.len()
        invariant
            a.len() == b.len(),
            i <= a.len(),
            a@ == candidate@,
            b@ == expected@,
            diff == exists|j: int| 0 <= j < i && a@[j] != b@[j],
        decreases a.len() - i,
    {
        let differs = a[i] != b[i];
        diff = diff || differs;
        i = i + 1;
    }
    if !diff {
        assert(a@ =~= b@);
    }
    !diff
}

/// The `(key, value)` of a `key=value` pair; a pair without `=` is all key.
pub open spec fn pair_parts(pair: Seq<char>) -> (Seq<char>, Seq<char>) {
    match first_index(pair, '=') {
        Some(i) => (pair.subrange(0, i), pair.subrange(i + 1, pair.len() as int)),
        None => (pair, Seq::empty()),
    }
}

/// The value of the first `token`/`admin_token` pair among `pairs`.
pub open spec fn first_token_value(pairs: Seq<Seq<char>>) -> Option<Seq<char>>
    decreases pairs.len(),
{
    if pairs.len() == 0 {
        None
    } else {
        let (k, v) = pair_parts(pairs[0]);
        if k == "token"@ || k == "admin_token"@ {
            Some(v)
        } else {
            first_token_value(pairs.subrange(1, pairs.len() as int))
        }
    }
}

/// The admin token carried in a query string (`token=` or `admin_token=`).
pub open spec fn query_token_spec(query: Option<Seq<char>>) -> Option<Seq<char>> {
    match query {
        Some(q) => first_token_value(split(q, '&')),
        None => None,
    }
}

fn pair_parts_exec(pair: &[char]) -> (r: (Vec<char>, Vec<char>))
    ensures
        (r.0@, r.1@) == pair_parts(pair@),
{
    match find_char(pair, '=') {
        Some(i) => (slice_vec(pair, 0, i), slice_vec(pair, i + 1, pair.len())),
        None => (slice_vec(pair, 0, pair.len()), Vec::new()),
    }
}

/// The admin token carried in a query string.
pub fn query_admin_token(query: Option<&str>) -> (r: Option<String>)
    ensures
        opt_view(r) == query_token_spec(match query {
            Some(q) => Some(q@),
            None => None,
        }),
{
    let q = match query {
        Some(q) => q,
        None => {
            return None;
        },
    };
    let qv = chars_of(q);
    let pairs = split_char(&qv, '&');
    let mut i: usize = 0;
    assert(vecs_view(pairs@).subrange(0, pairs.len() as int) =~= vecs_view(pairs@));
    while i < pairs.len()
        invariant
            i <= pairs.len(),
            vecs_view(pairs@) == split(q@, '&'),
            query == Some(q),
            first_token_value(split(q@, '&')) == first_token_value(
                vecs_view(pairs@).subrange(i as int, pairs.len() as int),
            ),
        decreases pairs.len() - i,
    {
        let ghost rest = vecs_view(pairs@).subrange(i as int, pairs.len() as int);
        assert(rest[0] == pairs@[i as int]@);
        assert(rest.subrange(1, rest.len() as int) =~= vecs_view(pairs@).subrange(
            i + 1,
            pairs.len() as int,
        ));
        let (k, v) = pair_parts_exec(&pairs[i]);
        if eq_str(&k, "token") || eq_str(&k, "admin_token") {
            assert(first_token_value(rest) == Some(v@));
            return Some(string_of(&v));
        }
        i = i + 1;
    }
    None
}

/// A cookie `name=value` entry matches the admin token.
pub open spec fn cookie_matches(cookie: Seq<char>, expected: Seq<char>) -> bool {
    let c = trim(cookie);
    let (name, value) = match first_index(c, '=') {
        Some(i) => (c.subrange(0, i), c.subrange(i + 1, c.len() as int)),
        None => (Seq::<char>::empty(), Seq::<char>::empty()),
    };
    name == "oproxy_admin_token"@ && trim(value) == expected
}

/// Some cookie in a `Cookie` header carries the admin token.
pub open spec fn cookie_has_token_spec(cookies: Seq<char>, expected: Seq<char>) -> bool {
    exists|i: int| 0 <= i < split(cookies, ';').len() && cookie_matches(split(cookies, ';')[i], expected)
}

/// Whether a `Cookie` header carries the admin token.
pub fn cookie_has_admin_token(cookies: &str, expected: &str) -> (r: bool)
    ensures
        r == cookie_has_token_spec(cookies@, expected@),
{
    let cv = chars_of(cookies);
    let parts = split_char(&cv, ';');
    let mut i: usize = 0;
    while i < parts.len()
        invariant
            i <= parts.len(),
            vecs_view(parts@) == split(cookies@, ';'),
            forall|j: int| 0 <= j < i ==> !cookie_matches(#[trigger] split(cookies@, ';')[j], expected@),
        decreases parts.len() - i,
    {
        assert(split(cookies@, ';')[i as int] == parts@[i as int]@);
        let c = trim_vec(&parts[i]);
        let (name, value) = match find_char(&c, '=') {
            Some(k) => (slice_vec(&c, 0, k), slice_vec(&c, k + 1, c.len())),
            None => (Vec::new(), Vec::new()),
        };
        if eq_str(&name, "oproxy_admin_token") {
            let tv = trim_vec(&value);
            let s = string_of(&tv);
            if token_matches(s.as_str(), expected) {
                return true;
            }
        }
        i = i + 1;
    }
    false
}

/// A byte allowed in a cookie value (RFC 6265 `cookie-octet`).
pub open spec fn cookie_octet(c: char) -> bool {
    let u = c as u32;
    u == 0x21 || (0x23 <= u && u <= 0x2b) || (0x2d <= u && u <= 0x3a) || (0x3c <= u && u
        <= 0x5b) || (0x5d <= u && u <= 0x7e)
}

/// The `Set-Cookie` value that stores the admin token, when the token can be
/// carried in a cookie.
pub open spec fn admin_token_cookie_spec(token: Seq<char>) -> Option<Seq<char>> {
    if forall|i: int| 0 <= i < token.len() ==> cookie_octet(#[trigger] token[i]) {
        Some("oproxy_admin_token="@ + token + "; HttpOnly; SameSite=Strict; Path=/"@)
    } else {
        None
    }
}

/// Builds the `Set-Cookie` value that stores the admin token.
pub fn admin_token_cookie(token: &str) -> (r: Option<String>)
    ensures
        opt_view(r) == admin_token_cookie_spec(token@),
{
    let t = chars_of(token);
    let mut i: usize = 0;
    while i < t.len()
        invariant
            i <= t.len(),
            t@ == token@,
            forall|j: int| 0 <= j < i ==> cookie_octet(#[trigger] t@[j]),
        decreases t.len() - i,
    {
        let u: u32 = t[i] as u32;
        if !(u == 0x21 || (0x23 <= u && u <= 0x2b) || (0x2d <= u && u <= 0x3a) || (0x3c <= u
            && u <= 0x5b) || (0x5d <= u && u <= 0x7e)) {
            assert(!cookie_octet(token@[i as int]));
            return None;
        }
        i = i + 1;
    }
    let mut v = chars_of("oproxy_admin_token=");
    let tail = chars_of("; HttpOnly; SameSite=Strict; Path=/");
    let ghost head = v@;
    let mut j: usize = 0;
    while j < t.len()
        invariant
            j <= t.len(),
            v@ == head + t@.subrange(0, j as int),
        decreases t.len() - j,
    {
        v.push(t[j]);
        j = j + 1;
        assert(v@ =~= head + t@.subrange(0, j as int));
    }
    assert(t@.subrange(0, t.len() as int) =~= t@);
    let ghost mid = v@;
    let mut k: usize = 0;
    while k < tail.len()
        invariant
            k <= tail.len(),
            v@ == mid + tail@.subrange(0, k as int),
        decreases tail.len() - k,
    {
        v.push(tail[k]);
        k = k + 1;
        assert(v@ =~= mid + tail@.subrange(0, k as int));
    }
    assert(tail@.subrange(0, tail.len() as int) =~= tail@);
    Some(string_of(&v))
}

// ───────────────────────── hosts and authorities ─────────────────────────

/// A `host:port` split is accepted only with a single `:` and an all-digit port.
pub open spec fn simple_port_split(h: Seq<char>) -> Option<int> {
    match last_index(h, ':') {
        Some(i) => if count_char(h, ':') == 1 && all_digits(h.subrange(i + 1, h.len() as int)) {
            Some(i)
        } else {
            None
        },
        None => None,
    }
}

/// The host part of a `Host` header: brackets removed from IPv6 literals, a
/// `:port` suffix removed when the rest holds no other colon.
pub open spec fn host_without_port_spec(host_header: Seq<char>) -> Seq<char> {
    let h = trim(host_header);
    if h.len() > 0 && h[0] == '[' {
        let rest = h.subrange(1, h.len() as int);
        match first_index(rest, ']') {
            Some(i) => rest.subrange(0, i),
            None => rest,
        }
    } else {
        match simple_port_split(h) {
            Some(i) => h.subrange(0, i),
            None => h,
        }
    }
}

/// The explicit port of an authority, when it parses as a `u16`.
pub open spec fn authority_port_spec(authority: Seq<char>) -> Option<nat> {
    let a = trim(authority);
    if a.len() > 0 && a[0] == '[' {
        let rest = a.subrange(1, a.len() as int);
        match first_index(rest, ']') {
            Some(i) => {
                let suffix = rest.subrange(i + 1, rest.len() as int);
                if suffix.len() > 0 && suffix[0] == ':' {
                    parse_unsigned(suffix.subrange(1, suffix.len() as int), 65535)
                } else {
                    None
                }
            },
            None => None,
        }
    } else {
        match simple_port_split(a) {
            Some(i) => parse_unsigned(a.subrange(i + 1, a.len() as int), 65535),
            None => None,
        }
    }
}

fn simple_port_split_exec(h: &[char]) -> (r: Option<usize>)
    ensures
        match r {
            Some(i) => simple_port_split(h@) == Some(i as int) && i < h.len(),
            None => simple_port_split(h@) is None,
        },
{
    match rfind_char(h, ':') {
        Some(i) => {
            let n = count_char_exec(h, ':');
            let port = slice_vec(h, i + 1, h.len());
            if n == 1 && all_digits_exec(&port) {
                Some(i)
            } else {
                None
            }
        },
        None => None,
    }
}

/// The host part of a `Host` header value.
pub fn host_without_port(host_header: &str) -> (r: Vec<char>)
    ensures
        r@ == host_without_port_spec(host_header@),
{
    let all = chars_of(host_header);
    let h = trim_vec(&all);
    if h.len() > 0 && h[0] == '[' {
        let rest = slice_vec(&h, 1, h.len());
        match find_char(&rest, ']') {
            Some(i) => slice_vec(&rest, 0, i),
            None => rest,
        }
    } else {
        match simple_port_split_exec(&h) {
            Some(i) => slice_vec(&h, 0, i),
            None => h,
        }
    }
}

/// The explicit port of an authority.
pub fn authority_port(authority: &str) -> (r: Option<u16>)
    ensures
        crate::env::opt_port_view(r) == authority_port_spec(authority@),
{
    let all = chars_of(authority);
    let a = trim_vec(&all);
    if a.len() > 0 && a[0] == '[' {
        let rest = slice_vec(&a, 1, a.len());
        match find_char(&rest, ']') {
            Some(i) => {
                let suffix = slice_vec(&rest, i + 1, rest.len());
                if suffix.len() > 0 && suffix[0] == ':' {
                    let p = slice_vec(&suffix, 1, suffix.len());
                    match parse_unsigned_exec(&p, 65535) {
                        Some(n) => Some(n as u16),
                        None => None,
                    }
                } else {
                    None
                }
            },
            None => None,
        }
    } else {
        match simple_port_split_exec(&a) {
            Some(i) => {
                let p = slice_vec(&a, i + 1, a.len());
                match parse_unsigned_exec(&p, 65535) {
                    Some(n) => Some(n as u16),
                    None => None,
                }
            },
            None => None,
        }
    }
}

/// Host (lower-cased) and port of an authority.
pub open spec fn normalized_authority_spec(a: Seq<char>) -> (Seq<char>, Option<nat>) {
    (lower(host_without_port_spec(a)), authority_port_spec(a))
}

/// Host (lower-cased) and port of an authority.
pub fn normalized_authority(authority: &str) -> (r: (Vec<char>, Option<u16>))
    ensures
        (r.0@, crate::env::opt_port_view(r.1)) == normalized_authority_spec(authority@),
{
    let h = host_without_port(authority);
    (lower_vec(&h), authority_port(authority))
}

/// Two authorities name the same host (ignoring case) and port.
pub fn same_authority(left: &str, right: &str) -> (r: bool)
    ensures
        r == (normalized_authority_spec(left@) == normalized_authority_spec(right@)),
{
    let (lh, lp) = normalized_authority(left);
    let (rh, rp) = normalized_authority(right);
    eq_chars(&lh, &rh) && lp == rp
}

/// A loopback host name.
pub open spec fn is_local_name(h: Seq<char>) -> bool {
    h == "localhost"@ || h == "127.0.0.1"@ || h == "::1"@
}

/// Whether a request with this `Host` header is addressed to the management
/// plane rather than to proxied traffic.
pub open spec fn is_management_host_spec(
    host_header: Seq<char>,
    bind_host: Seq<char>,
    allow_remote_admin: bool,
    token_configured: bool,
    peer_is_loopback: bool,
    lan_hosts: Seq<Seq<char>>,
) -> bool {
    let host = lower(host_without_port_spec(host_header));
    let bind = lower(trim(bind_host));
    if is_local_name(host) {
        peer_is_loopback
    } else if !allow_remote_admin || !token_configured {
        false
    } else if !crate::config::is_wildcard_host(bind) {
        host == lower(host_without_port_spec(bind))
    } else if host == "0.0.0.0"@ {
        true
    } else {
        exists|i: int| 0 <= i < lan_hosts.len() && host == lower(lan_hosts[i])
    }
}

pub open spec fn strs_view(v: Seq<String>) -> Seq<Seq<char>> {
    v.map_values(|s: String| s@)
}

/// Decides whether a `Host` header addresses the management plane. Loopback
/// names are honoured only from loopback peers; other names need remote admin
/// with a token, and must match the bind host (or, for a wildcard bind, one of
/// the machine's LAN addresses).
pub fn is_management_host(
    host_header: &str,
    bind_host: &str,
    allow_remote_admin: bool,
    remote_admin_token_configured: bool,
    peer_is_loopback: bool,
    lan_hosts: &Vec<String>,
) -> (r: bool)
    ensures
        r == is_management_host_spec(
            host_header@,
            bind_host@,
            allow_remote_admin,
            remote_admin_token_configured,
            peer_is_loopback,
            strs_view(lan_hosts@),
        ),
{
    let h = host_without_port(host_header);
    let host = lower_vec(&h);
    if eq_str(&host, "localhost") || eq_str(&host, "127.0.0.1") || eq_str(&host, "::1") {
        return peer_is_loopback;
    }
    if !allow_remote_admin || !remote_admin_token_configured {
        return false;
    }
    let b = chars_of(bind_host);
    let bt = trim_vec(&b);
    let bind = lower_vec(&bt);
    if !(eq_str(&bind, "0.0.0.0") || eq_str(&bind, "::") || eq_str(&bind, "[::]")) {
        let bh = host_without_port(string_of(&bind).as_str());
        let bl = lower_vec(&bh);
        return eq_chars(&host, &bl);
    }
    if eq_str(&host, "0.0.0.0") {
        return true;
    }
    assert(bind@ == lower(trim(bind_host@)));
    let mut i: usize = 0;
    while i < lan_hosts.len()
        invariant
            i <= lan_hosts.len(),
            host@ == lower(host_without_port_spec(host_header@)),
            allow_remote_admin && remote_admin_token_configured,
            crate::config::is_wildcard_host(lower(trim(bind_host@))),
            host@ != "0.0.0.0"@,
            !is_local_name(host@),
            forall|j: int| 0 <= j < i ==> host@ != lower(#[trigger] strs_view(lan_hosts@)[j]),
        decreases lan_hosts.len() - i,
    {
        let l = chars_of(lan_hosts[i].as_str());
        let ll = lower_vec(&l);
        if eq_chars(&host, &ll) {
            assert(strs_view(lan_hosts@)[i as int] == lan_hosts@[i as int]@);
            return true;
        }
        i = i + 1;
    }
    false
}

/// Requests exempt from admin authentication: absolute-form proxy requests
/// (the URI carries a scheme) and a few public paths.
pub fn is_auth_exempt_request(uri_has_scheme: bool, path: &str) -> (r: bool)
    ensures
        r == (uri_has_scheme || path@ == "/health"@ || path@ == "/robots.txt"@ || path@
            == "/favicon.ico"@),
{
    let p = chars_of(path);
    uri_has_scheme || eq_str(&p, "/health") || eq_str(&p, "/robots.txt") || eq_str(
        &p,
        "/favicon.ico",
    )
}

/// Methods other than GET, HEAD and OPTIONS change state.
pub fn is_state_changing_admin_request(method: &str) -> (r: bool)
    ensures
        r == !(method@ == "GET"@ || method@ == "HEAD"@ || method@ == "OPTIONS"@),
{
    let m = chars_of(method);
    !(eq_str(&m, "GET") || eq_str(&m, "HEAD") || eq_str(&m, "OPTIONS"))
}

/// `host[:port]` of an http(s) URL with a host.
pub open spec fn url_authority_spec(value: Seq<char>) -> Option<Seq<char>> {
    match url_components(value) {
        Ok((scheme, host, port)) => if scheme != "http"@ && scheme != "https"@ {
            None
        } else {
            match host {
                Some(h) => match port {
                    Some(p) => Some(h + ":"@ + crate::text::decimal(p as nat)),
                    None => Some(h),
                },
                None => None,
            }
        },
        Err(_) => None,
    }
}

/// The authority of an http(s) `Origin`/`Referer` value.
pub fn url_authority(value: &str) -> (r: Option<String>)
    ensures
        opt_view(r) == url_authority_spec(value@),
{
    let parts = match parse_url(value) {
        Ok(p) => p,
        Err(_) => {
            return None;
        },
    };
    let scheme = chars_of(parts.scheme.as_str());
    if !(eq_str(&scheme, "http") || eq_str(&scheme, "https")) {
        return None;
    }
    let host = match &parts.host {
        Some(h) => h,
        None => {
            return None;
        },
    };
    match parts.port {
        Some(port) => {
            let mut v = chars_of(host.as_str());
            v.push(':');
            let d = crate::text::decimal_exec(port as u64);
            let ghost head = v@;
            let mut i: usize = 0;
            while i < d.len()
                invariant
                    i <= d.len(),
                    v@ == head + d@.subrange(0, i as int),
                decreases d.len() - i,
            {
                v.push(d[i]);
                i = i + 1;
                assert(v@ =~= head + d@.subrange(0, i as int));
            }
            assert(d@.subrange(0, d.len() as int) =~= d@);
            assert(head =~= host@ + ":"@) by {
                assert(":"@ =~= seq![':']) by {
                    reveal_strlit(":");
                }
            }
            Some(string_of(&v))
        },
        None => Some(host.clone()),
    }
}

/// The authority a browser says the request came from: `Origin`, falling back
/// to `Referer`.
pub open spec fn origin_authority_spec(origin: Option<Seq<char>>, referer: Option<Seq<char>>) -> Option<
    Seq<char>,
> {
    let from_origin = match origin {
        Some(o) => url_authority_spec(o),
        None => None,
    };
    match from_origin {
        Some(a) => Some(a),
        None => match referer {
            Some(r) => url_authority_spec(r),
            None => None,
        },
    }
}

pub open spec fn opt_str_view(o: Option<&str>) -> Option<Seq<char>> {
    match o {
        Some(s) => Some(s@),
        None => None,
    }
}

/// The origin authority of a request.
pub fn request_origin_authority(origin: Option<&str>, referer: Option<&str>) -> (r: Option<String>)
    ensures
        opt_view(r) == origin_authority_spec(opt_str_view(origin), opt_str_view(referer)),
{
    let from_origin = match origin {
        Some(o) => url_authority(o),
        None => None,
    };
    match from_origin {
        Some(a) => Some(a),
        None => match referer {
            Some(r) => url_authority(r),
            None => None,
        },
    }
}

/// Same-origin check for state-changing admin requests: a request without an
/// origin (curl and other non-browser clients) passes; otherwise the origin
/// must match the `Host` header, which must address the management plane.
pub open spec fn csrf_origin_allowed_spec(
    origin_authority: Option<Seq<char>>,
    host: Option<Seq<char>>,
    c: Config,
    peer_is_loopback: bool,
    lan_hosts: Seq<Seq<char>>,
) -> bool {
    match origin_authority {
        None => true,
        Some(o) => match host {
            None => false,
            Some(h) => normalized_authority_spec(o) == normalized_authority_spec(h)
                && is_management_host_spec(
                h,
                c.bind_host@,
                c.allow_remote_admin,
                configured_token_spec(c) is Some,
                peer_is_loopback,
                lan_hosts,
            ),
        },
    }
}

/// Same-origin check for state-changing admin requests.
pub fn csrf_origin_allowed(
    origin: Option<&str>,
    referer: Option<&str>,
    host: Option<&str>,
    config: &Config,
    peer_is_loopback: bool,
    lan_hosts: &Vec<String>,
) -> (r: bool)
    ensures
        r == csrf_origin_allowed_spec(
            origin_authority_spec(opt_str_view(origin), opt_str_view(referer)),
            opt_str_view(host),
            *config,
            peer_is_loopback,
            strs_view(lan_hosts@),
        ),
{
    let origin_authority = match request_origin_authority(origin, referer) {
        Some(a) => a,
        None => {
            return true;
        },
    };
    let request_host = match host {
        Some(h) => h,
        None => {
            return false;
        },
    };
    if !same_authority(origin_authority.as_str(), request_host) {
        return false;
    }
    let token = configured_admin_token(config);
    is_management_host(
        request_host,
        config.bind_host.as_str(),
        config.allow_remote_admin,
        token.is_some(),
        peer_is_loopback,
        lan_hosts,
    )
}

/// A remote client can never reach the management plane by sending a loopback
/// `Host` header: loopback names are honoured only for loopback peers.
pub proof fn law_loopback_names_need_loopback_peer(
    host_header: Seq<char>,
    bind_host: Seq<char>,
    allow_remote_admin: bool,
    token_configured: bool,
    lan_hosts: Seq<Seq<char>>,
)
    requires
        is_local_name(lower(host_without_port_spec(host_header))),
    ensures
        !is_management_host_spec(
            host_header,
            bind_host,
            allow_remote_admin,
            token_configured,
            false,
            lan_hosts,
        ),
{
}

/// Without remote admin enabled and a token configured, only loopback names
/// from loopback peers address the management plane.
pub proof fn law_remote_admin_needs_token(
    host_header: Seq<char>,
    bind_host: Seq<char>,
    allow_remote_admin: bool,
    token_configured: bool,
    peer_is_loopback: bool,
    lan_hosts: Seq<Seq<char>>,
)
    requires
        !allow_remote_admin || !token_configured,
        is_management_host_spec(
            host_header,
            bind_host,
            allow_remote_admin,
            token_configured,
            peer_is_loopback,
            lan_hosts,
        ),
    ensures
        is_local_name(lower(host_without_port_spec(host_header))),
        peer_is_loopback,
{
}

/// A forged origin never passes the same-origin check: whenever the request
/// carries an origin, it must name the request's own host and port.
pub proof fn law_csrf_requires_matching_origin(
    origin_authority: Seq<char>,
    host: Option<Seq<char>>,
    c: Config,
    peer_is_loopback: bool,
    lan_hosts: Seq<Seq<char>>,
)
    requires
        csrf_origin_allowed_spec(Some(origin_authority), host, c, peer_is_loopback, lan_hosts),
    ensures
        host is Some,
        normalized_authority_spec(origin_authority) == normalized_authority_spec(host.unwrap()),
{
}

// ───────────────────────── request credentials ─────────────────────────

/// The token a request carries in its headers: the trimmed
/// `x-oproxy-admin-token` value, or the trimmed rest of an
/// `Authorization: Bearer ` value; either one matching counts.
pub open spec fn header_token_ok(
    admin_header: Option<Seq<char>>,
    authorization: Option<Seq<char>>,
    expected: Seq<char>,
) -> bool {
    (match admin_header {
        Some(v) => trim(v) == expected,
        None => false,
    }) || (match authorization {
        Some(a) => starts_with(a, "Bearer "@) && trim(a.subrange(7, a.len() as int)) == expected,
        None => false,
    })
}

/// Whether the request's headers carry the admin token. The arguments are
/// the request's `x-oproxy-admin-token` and `Authorization` values, where
/// present and readable as text.
pub fn request_has_header_admin_token(
    admin_header: Option<&str>,
    authorization: Option<&str>,
    expected: &str,
) -> (r: bool)
    ensures
        r == header_token_ok(
            match admin_header {
                Some(v) => Some(v@),
                None => None,
            },
            match authorization {
                Some(a) => Some(a@),
                None => None,
            },
            expected@,
        ),
{
    if let Some(v) = admin_header {
        let t = string_of(&trim_vec(&chars_of(v)));
        if token_matches(t.as_str(), expected) {
            return true;
        }
    }
    if let Some(a) = authorization {
        let av = chars_of(a);
        if has_prefix_str(&av, "Bearer ") {
            proof {
                reveal_strlit("Bearer ");
            }
            let rest = trim_vec(&slice_vec(&av, 7, av.len()));
            let t = string_of(&rest);
            return token_matches(t.as_str(), expected);
        }
        proof {
            reveal_strlit("Bearer ");
        }
    }
    false
}

/// Whether a request carries the admin token: in its headers, in the
/// `oproxy_admin_token` cookie, or as a `token`/`admin_token` query
/// parameter.
pub fn request_has_admin_token(
    admin_header: Option<&str>,
    authorization: Option<&str>,
    cookie: Option<&str>,
    query: Option<&str>,
    expected: &str,
) -> (r: bool)
    ensures
        r == (header_token_ok(
            match admin_header {
                Some(v) => Some(v@),
                None => None,
            },
            match authorization {
                Some(a) => Some(a@),
                None => None,
            },
            expected@,
        ) || (match cookie {
            Some(c) => cookie_has_token_spec(c@, expected@),
            None => false,
        }) || (match query_token_spec(
            match query {
                Some(q) => Some(q@),
                None => None,
            },
        ) {
            Some(t) => t == expected@,
            None => false,
        })),
{
    if request_has_header_admin_token(admin_header, authorization, expected) {
        return true;
    }
    if let Some(c) = cookie {
        if cookie_has_admin_token(c, expected) {
            return true;
        }
    }
    match query_admin_token(query) {
        Some(t) => token_matches(t.as_str(), expected),
        None => false,
    }
}

// ───────────────────────── the admin guard ─────────────────────────

/// What the admin guard does with a request.
#[derive(Debug, PartialEq, Eq)]
pub enum AdminAccess {
    /// The request goes through.
    Pass,
    /// The request goes through, and the response sets this cookie (the
    /// token came in the query).
    PassSettingCookie(String),
    /// 403: a state-changing request failed the same-origin check.
    Forbidden,
    /// 401: the admin token is required.
    Unauthorized,
}

/// The facts of a management request that the guard looks at; header values
/// are present only where the request has them and they read as text.
#[derive(Debug)]
pub struct AdminRequest {
    pub method: String,
    /// The request target is in absolute form (has a scheme).
    pub uri_has_scheme: bool,
    pub path: String,
    pub query: Option<String>,
    pub admin_header: Option<String>,
    pub authorization: Option<String>,
    pub cookie: Option<String>,
    pub origin: Option<String>,
    pub referer: Option<String>,
    pub host: Option<String>,
    pub peer_is_loopback: bool,
}

pub open spec fn ostr(o: Option<String>) -> Option<Seq<char>> {
    match o {
        Some(s) => Some(s@),
        None => None,
    }
}

/// The request carries the token `t`: in its headers, its cookie or its
/// query.
pub open spec fn carries_token(r: AdminRequest, t: Seq<char>) -> bool {
    header_token_ok(ostr(r.admin_header), ostr(r.authorization), t) || (match r.cookie {
        Some(c) => cookie_has_token_spec(c@, t),
        None => false,
    }) || query_token_spec(ostr(r.query)) == Some(t)
}

/// The guard: exempt requests (absolute-form targets, `/health`,
/// `/robots.txt`, `/favicon.ico`) pass; a state-changing request that is
/// not authenticated by a header token must pass the same-origin check;
/// then, with a token configured, the request must carry it (a token given
/// in the query is also set as a cookie on the response).
pub open spec fn admin_access_spec(
    r: AdminRequest,
    c: Config,
    lan_hosts: Seq<Seq<char>>,
) -> (bool, bool, bool, Option<Seq<char>>) {
    // (passes, forbidden, unauthorized, cookie)
    let exempt = r.uri_has_scheme || r.path@ == "/health"@ || r.path@ == "/robots.txt"@ || r.path@
        == "/favicon.ico"@;
    let token = configured_token_spec(c);
    let header_ok = match token {
        Some(t) => header_token_ok(ostr(r.admin_header), ostr(r.authorization), t),
        None => false,
    };
    let changing = !(r.method@ == "GET"@ || r.method@ == "HEAD"@ || r.method@ == "OPTIONS"@);
    let csrf_ok = csrf_origin_allowed_spec(
        origin_authority_spec(ostr(r.origin), ostr(r.referer)),
        ostr(r.host),
        c,
        r.peer_is_loopback,
        lan_hosts,
    );
    if exempt {
        (true, false, false, None)
    } else if changing && !header_ok && !csrf_ok {
        (false, true, false, None)
    } else {
        match token {
            None => (true, false, false, None),
            Some(t) => if carries_token(r, t) {
                (
                    true,
                    false,
                    false,
                    if query_token_spec(ostr(r.query)) == Some(t) {
                        admin_token_cookie_spec(t)
                    } else {
                        None
                    },
                )
            } else {
                (false, false, true, None)
            },
        }
    }
}

fn text_of(o: &Option<String>) -> (r: Option<&str>)
    ensures
        opt_str_view(r) == ostr(*o),
{
    match o {
        Some(s) => Some(s.as_str()),
        None => None,
    }
}

/// Decides what the admin guard does with a request (see
/// `admin_access_spec`).
pub fn admin_access(r: &AdminRequest, config: &Config, lan_hosts: &Vec<String>) -> (a: AdminAccess)
    ensures
        ({
            let s = admin_access_spec(*r, *config, strs_view(lan_hosts@));
            &&& (a is Pass || a is PassSettingCookie) == s.0
            &&& (a is Forbidden) == s.1
            &&& (a is Unauthorized) == s.2
            &&& match a {
                AdminAccess::PassSettingCookie(cookie) => s.3 == Some(cookie@),
                AdminAccess::Pass => s.3 is None,
                _ => true,
            }
        }),
{
    if is_auth_exempt_request(r.uri_has_scheme, r.path.as_str()) {
        return AdminAccess::Pass;
    }
    let token = configured_admin_token(config);
    let header_ok = match &token {
        Some(t) => request_has_header_admin_token(
            text_of(&r.admin_header),
            text_of(&r.authorization),
            t.as_str(),
        ),
        None => false,
    };
    if is_state_changing_admin_request(r.method.as_str()) && !header_ok && !csrf_origin_allowed(
        text_of(&r.origin),
        text_of(&r.referer),
        text_of(&r.host),
        config,
        r.peer_is_loopback,
        lan_hosts,
    ) {
        return AdminAccess::Forbidden;
    }
    let t = match token {
        None => {
            return AdminAccess::Pass;
        },
        Some(t) => t,
    };
    let from_query = match query_admin_token(text_of(&r.query)) {
        Some(q) => token_matches(q.as_str(), t.as_str()),
        None => false,
    };
    if request_has_admin_token(
        text_of(&r.admin_header),
        text_of(&r.authorization),
        text_of(&r.cookie),
        text_of(&r.query),
        t.as_str(),
    ) {
        if from_query {
            if let Some(cookie) = admin_token_cookie(t.as_str()) {
                return AdminAccess::PassSettingCookie(cookie);
            }
        }
        return AdminAccess::Pass;
    }
    AdminAccess::Unauthorized
}

/// With a token configured, a request that is not exempt and carries no
/// token never gets through the guard.
pub proof fn law_token_required(r: AdminRequest, c: Config, lan_hosts: Seq<Seq<char>>, t: Seq<char>)
    requires
        configured_token_spec(c) == Some(t),
        !(r.uri_has_scheme || r.path@ == "/health"@ || r.path@ == "/robots.txt"@ || r.path@
            == "/favicon.ico"@),
        !carries_token(r, t),
    ensures
        !admin_access_spec(r, c, lan_hosts).0,
{
}

} // verus!

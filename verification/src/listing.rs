//! Session listing: the per-exchange columns the session table sorts and
//! filters on, the typed filter, facet counts, sorting and paging.
use vstd::prelude::*;
use crate::exchange::{Exchange, InspectorData, WsFrame};
use crate::order::{
    is_tally, count_label, tally,
    perm_view, SortKey, key_view, keys_view, is_sorted_perm, sorted_positions,
    lemma_sorted_perm_distinct,
    seq_lt, compare_chars, lemma_seq_lt_irreflexive, lemma_seq_lt_transitive, lemma_seq_lt_total,
    lemma_seq_lt_asymmetric,
};
use crate::text::{
    chars_of, string_of, upper, lower, trim, first_index, first_occurrence, before_first,
    ends_with, join, upper_vec, lower_vec, eq_chars, has_suffix, trim_vec, find_chars, find_char,
    slice_vec, lemma_first_index_facts, occurs_at, eq_str, contains, contains_str, split,
    split_char,
};

verus! {

// ───────────────────────── per-exchange columns ─────────────────────────

/// The response status, 0 while no response has been recorded.
pub open spec fn status_of(e: Exchange) -> u16 {
    match e.response {
        Some(r) => r.status,
        None => 0,
    }
}

/// The status class shown in the table: `'2'` to `'5'` for 2xx to 5xx,
/// `'-'` for anything else (including a pending exchange).
pub open spec fn bucket_char(e: Exchange) -> char {
    let s = status_of(e);
    if 200 <= s <= 299 {
        '2'
    } else if 300 <= s <= 399 {
        '3'
    } else if 400 <= s <= 499 {
        '4'
    } else if 500 <= s <= 599 {
        '5'
    } else {
        '-'
    }
}

/// The path column: the request target without scheme, authority and query.
pub open spec fn path_of(e: Exchange) -> Seq<char> {
    let uri = e.request.uri@;
    let path = match first_occurrence(uri, "://"@) {
        Some(i) => {
            let rest = uri.subrange(i + 3, uri.len() as int);
            match first_index(rest, '/') {
                Some(j) => rest.subrange(j, rest.len() as int),
                None => uri,
            }
        },
        None => uri,
    };
    before_first(path, '?')
}

/// The type column: `graphql`, `grpc`, `http` or `pending`.
pub open spec fn kind_of(e: Exchange) -> Seq<char> {
    match e.inspector_data {
        Some(d) if d.graphql => "graphql"@,
        Some(d) if d.grpc is Some => "grpc"@,
        _ => if e.response is Some {
            "http"@
        } else {
            "pending"@
        },
    }
}

/// The request-size column: the recorded metric, else the body's length in
/// bytes.
pub open spec fn request_size_of(e: Exchange) -> int {
    match e.metrics {
        Some(m) => m.request_size_bytes as int,
        None => (vstd::utf8::encode_utf8(e.request.body@).len() as usize) as int,
    }
}

/// The total-latency column, 0 without metrics.
pub open spec fn latency_of(e: Exchange) -> int {
    match e.metrics {
        Some(m) => m.latency_ms as int,
        None => 0,
    }
}

/// The text a free-text regex query is matched against: URI, method, host,
/// type and tags, separated by spaces.
pub open spec fn haystack_of(e: Exchange) -> Seq<char> {
    e.request.uri@ + " "@ + e.request.method@ + " "@ + e.request.host@ + " "@ + kind_of(e) + " "@
        + join(e.tags@.map_values(|t: String| t@), " "@)
}

/// The response status, 0 while pending.
pub fn response_status(session: &Exchange) -> (r: u16)
    ensures
        r == status_of(*session),
{
    match &session.response {
        Some(r) => r.status,
        None => 0,
    }
}

/// The status class of an exchange as a one-character label.
pub fn status_bucket(session: &Exchange) -> (r: &'static str)
    ensures
        r@ == seq![bucket_char(*session)],
{
    let s = response_status(session);
    proof {
        reveal_strlit("2");
        reveal_strlit("3");
        reveal_strlit("4");
        reveal_strlit("5");
        reveal_strlit("-");
    }
    if 200 <= s && s <= 299 {
        "2"
    } else if 300 <= s && s <= 399 {
        "3"
    } else if 400 <= s && s <= 499 {
        "4"
    } else if 500 <= s && s <= 599 {
        "5"
    } else {
        "-"
    }
}

/// The path column of an exchange.
pub fn session_path(session: &Exchange) -> (r: String)
    ensures
        r@ == path_of(*session),
{
    let uri = chars_of(session.request.uri.as_str());
    let sep = chars_of("://");
    proof {
        reveal_strlit("://");
    }
    assert(sep@.len() == 3);
    let path: Vec<char> = match find_chars(&uri, &sep) {
        Some(i) => {
            let n = uri.len();
            assert(occurs_at(uri@, sep@, i as int));
            assert(i + 3 <= n);
            let start: usize = i + 3;
            let rest = slice_vec(&uri, start, n);
            match find_char(&rest, '/') {
                Some(j) => slice_vec(&rest, j, rest.len()),
                None => uri,
            }
        },
        None => uri,
    };
    let cut: Vec<char> = match find_char(&path, '?') {
        Some(q) => slice_vec(&path, 0, q),
        None => path,
    };
    string_of(&cut)
}

/// The type column of an exchange.
pub fn session_kind(session: &Exchange) -> (r: String)
    ensures
        r@ == kind_of(*session),
{
    let label: &str = match &session.inspector_data {
        Some(d) if d.graphql => "graphql",
        Some(d) if d.grpc.is_some() => "grpc",
        _ => if session.response.is_some() {
            "http"
        } else {
            "pending"
        },
    };
    string_of(&chars_of(label))
}

/// The request-size column of an exchange.
pub fn request_size(session: &Exchange) -> (r: usize)
    ensures
        r == request_size_of(*session),
{
    match &session.metrics {
        Some(m) => m.request_size_bytes,
        None => session.request.body.as_str().len(),
    }
}

/// The total-latency column of an exchange.
pub fn session_latency(session: &Exchange) -> (r: u64)
    ensures
        r == latency_of(*session),
{
    match &session.metrics {
        Some(m) => m.latency_ms,
        None => 0,
    }
}

fn push_all(out: &mut Vec<char>, s: &[char])
    ensures
        final(out)@ == old(out)@ + s@,
{
    let mut i: usize = 0;
    let ghost start = out@;
    while i < s.len()
        invariant
            i <= s.len(),
            out@ == start + s@.subrange(0, i as int),
        decreases s.len() - i,
    {
        out.push(s[i]);
        i = i + 1;
        assert(out@ =~= start + s@.subrange(0, i as int));
    }
    assert(s@.subrange(0, s.len() as int) =~= s@);
}

/// The text a regex query is matched against.
pub fn session_filter_haystack(session: &Exchange) -> (r: String)
    ensures
        r@ == haystack_of(*session),
{
    let sp = chars_of(" ");
    let mut out: Vec<char> = chars_of(session.request.uri.as_str());
    push_all(&mut out, &sp);
    push_all(&mut out, &chars_of(session.request.method.as_str()));
    push_all(&mut out, &sp);
    push_all(&mut out, &chars_of(session.request.host.as_str()));
    push_all(&mut out, &sp);
    push_all(&mut out, &chars_of(session_kind(session).as_str()));
    push_all(&mut out, &sp);
    let ghost before_tags = out@;
    let ghost tags = session.tags@.map_values(|t: String| t@);
    let mut k: usize = 0;
    while k < session.tags.len()
        invariant
            k <= session.tags.len(),
            tags == session.tags@.map_values(|t: String| t@),
            sp@ == " "@,
            out@ == before_tags + join(tags.subrange(0, k as int), " "@),
        decreases session.tags.len() - k,
    {
        let ghost prev = tags.subrange(0, k as int);
        let ghost next = tags.subrange(0, k + 1);
        assert(next.subrange(0, k as int) =~= prev);
        if k > 0 {
            push_all(&mut out, &sp);
        }
        push_all(&mut out, &chars_of(session.tags[k].as_str()));
        k = k + 1;
        proof {
            if k == 1 {
                assert(prev =~= Seq::<Seq<char>>::empty());
                assert(out@ =~= before_tags + next[0]);
            } else {
                assert(out@ =~= before_tags + (join(prev, " "@) + " "@ + next[k - 1]));
            }
        }
    }
    assert(tags.subrange(0, session.tags.len() as int) =~= tags);
    string_of(&out)
}

// ───────────────────────── typed filter ─────────────────────────

/// Sort direction of the session table.
#[derive(Debug, Clone, Copy, PartialEq, Eq, Structural)]
pub enum SessionSortDirection {
    Asc,
    Desc,
}

/// Sort column (`idx`, `ts`, `method`, `status`, `host`, `path`, `type`,
/// `reqSize`, `total`; anything else sorts by time) and direction.
#[derive(Debug, Clone, PartialEq, Eq)]
pub struct SessionSort {
    pub key: String,
    pub dir: SessionSortDirection,
}

impl Default for SessionSort {
    fn default() -> (r: Self)
        ensures
            r.key@ == "ts"@,
            r.dir == SessionSortDirection::Desc,
    {
        SessionSort { key: string_of(&chars_of("ts")), dir: SessionSortDirection::Desc }
    }
}

/// The typed filter of the session list. `None` for `methods` or
/// `status_buckets` means "no constraint"; `Some` of an empty list selects
/// nothing.
#[derive(Debug, Clone)]
pub struct SessionListFilter {
    pub query: String,
    pub regex: bool,
    pub methods: Option<Vec<String>>,
    pub status_buckets: Option<Vec<String>>,
    pub host_focus: Vec<String>,
    pub host_filter: Option<String>,
    pub sort: SessionSort,
}

impl Default for SessionListFilter {
    fn default() -> (r: Self)
        ensures
            r.query@ == Seq::<char>::empty(),
            !r.regex,
            r.methods is None,
            r.status_buckets is None,
            r.host_focus@.len() == 0,
            r.host_filter is None,
            r.sort.key@ == "ts"@,
            r.sort.dir == SessionSortDirection::Desc,
    {
        SessionListFilter {
            query: String::new(),
            regex: false,
            methods: None,
            status_buckets: None,
            host_focus: Vec::new(),
            host_filter: None,
            sort: SessionSort::default(),
        }
    }
}

/// Options of a session listing. `since` is in milliseconds since the Unix
/// epoch.
#[derive(Debug, Clone)]
pub struct SessionListOptions {
    pub since: Option<i64>,
    pub limit: Option<usize>,
    pub offset: Option<usize>,
    pub include_bodies: bool,
    pub filter: SessionListFilter,
}

impl Default for SessionListOptions {
    fn default() -> (r: Self)
        ensures
            r.since is None,
            r.limit is None,
            r.offset is None,
            !r.include_bodies,
            r.filter.query@ == Seq::<char>::empty(),
            !r.filter.regex,
            r.filter.methods is None,
            r.filter.status_buckets is None,
            r.filter.host_focus@.len() == 0,
            r.filter.host_filter is None,
            r.filter.sort.key@ == "ts"@,
            r.filter.sort.dir == SessionSortDirection::Desc,
    {
        SessionListOptions {
            since: None,
            limit: None,
            offset: None,
            include_bodies: false,
            filter: SessionListFilter::default(),
        }
    }
}

/// An exchange passes a `since` bound when it started after it, is still
/// pending, or was updated after it.
pub open spec fn since_ok(e: Exchange, since: Option<i64>) -> bool {
    match since {
        Some(t) => e.timestamp > t || e.response is None || (e.updated_at matches Some(u) && u > t),
        None => true,
    }
}

/// Some method in the list equals the exchange's, ignoring ASCII case.
pub open spec fn method_selected(e: Exchange, methods: Seq<String>) -> bool {
    exists|i: int| 0 <= i < methods.len() && lower(#[trigger] methods[i]@) == lower(e.request.method@)
}

/// Some bucket label in the list is the exchange's status class.
pub open spec fn bucket_selected(e: Exchange, buckets: Seq<String>) -> bool {
    exists|i: int| 0 <= i < buckets.len() && #[trigger] buckets[i]@ == seq![bucket_char(e)]
}

/// The host is a focused host or a subdomain of one.
pub open spec fn host_in_focus(host: Seq<char>, focus: Seq<String>) -> bool {
    exists|i: int|
        0 <= i < focus.len() && (host == #[trigger] focus[i]@ || ends_with(host, "."@ + focus[i]@))
}

/// Whether an exchange passes the typed filter, given the outcome of the
/// regex query on its haystack (`None`: the pattern does not compile) and
/// whether it matches the plain-text search terms.
pub open spec fn filter_ok(
    e: Exchange,
    f: SessionListFilter,
    regex_outcome: Option<bool>,
    search_hit: bool,
) -> bool {
    &&& (f.methods matches Some(ms) ==> method_selected(e, ms@))
    &&& (f.status_buckets matches Some(bs) ==> bucket_selected(e, bs@))
    &&& (f.host_filter matches Some(h) ==> h@.len() > 0 ==> e.request.host@ == h@)
    &&& (f.host_focus@.len() > 0 ==> host_in_focus(e.request.host@, f.host_focus@))
    &&& (trim(f.query@).len() > 0 ==> if f.regex {
        regex_outcome == Some(true)
    } else {
        search_hit
    })
}

/// What compiling `pattern` as a regular expression and searching
/// `haystack` with it gives: `None` when the pattern is rejected, else
/// whether it matches somewhere.
pub uninterp spec fn regex_outcome(pattern: Seq<char>, haystack: Seq<char>) -> Option<bool>;

/// `regex::Regex::new(pattern)` followed by `Regex::is_match(haystack)`.
/// Trusted: the result is `None` exactly when `Regex::new` returns an error,
/// and otherwise what `is_match` returns; both are named by
/// `regex_outcome`, which is a function of the two strings alone.
#[verifier::external_body]
fn regex_is_match(pattern: &str, haystack: &str) -> (r: Option<bool>)
    ensures
        r == regex_outcome(pattern@, haystack@),
{
    match regex::Regex::new(pattern) {
        Ok(re) => Some(re.is_match(haystack)),
        Err(_) => None,
    }
}

/// Whether the exchange passes a `since` bound.
pub fn matches_since(session: &Exchange, since: Option<i64>) -> (r: bool)
    ensures
        r == since_ok(*session, since),
{
    match since {
        Some(t) => {
            session.timestamp > t || session.response.is_none() || match session.updated_at {
                Some(u) => u > t,
                None => false,
            }
        },
        None => true,
    }
}

fn any_method(methods: &Vec<String>, method: &[char]) -> (r: bool)
    ensures
        r == method_selected_in(methods@, method@),
{
    let want = lower_vec(method);
    let mut i: usize = 0;
    while i < methods.len()
        invariant
            i <= methods.len(),
            want@ == lower(method@),
            forall|j: int| 0 <= j < i ==> lower(#[trigger] methods@[j]@) != lower(method@),
        decreases methods.len() - i,
    {
        let m = lower_vec(&chars_of(methods[i].as_str()));
        if eq_chars(&m, &want) {
            assert(lower(methods@[i as int]@) == lower(method@));
            return true;
        }
        i = i + 1;
    }
    false
}

/// [`method_selected`] on a bare method string.
pub open spec fn method_selected_in(methods: Seq<String>, method: Seq<char>) -> bool {
    exists|i: int| 0 <= i < methods.len() && lower(#[trigger] methods[i]@) == lower(method)
}

fn any_bucket(buckets: &Vec<String>, bucket: &str) -> (r: bool)
    ensures
        r == (exists|i: int| 0 <= i < buckets@.len() && #[trigger] buckets@[i]@ == bucket@),
{
    let want = chars_of(bucket);
    let mut i: usize = 0;
    while i < buckets.len()
        invariant
            i <= buckets.len(),
            want@ == bucket@,
            forall|j: int| 0 <= j < i ==> #[trigger] buckets@[j]@ != bucket@,
        decreases buckets.len() - i,
    {
        if eq_chars(&chars_of(buckets[i].as_str()), &want) {
            return true;
        }
        i = i + 1;
    }
    false
}

fn any_focus(focus: &Vec<String>, host: &[char]) -> (r: bool)
    ensures
        r == host_in_focus(host@, focus@),
{
    let mut i: usize = 0;
    while i < focus.len()
        invariant
            i <= focus.len(),
            forall|j: int|
                0 <= j < i ==> !(host@ == #[trigger] focus@[j]@ || ends_with(host@, "."@ + focus@[j]@)),
        decreases focus.len() - i,
    {
        let f = chars_of(focus[i].as_str());
        let mut dotted = chars_of(".");
        push_all(&mut dotted, &f);
        if eq_chars(host, &f) || has_suffix(host, &dotted) {
            return true;
        }
        i = i + 1;
    }
    false
}

/// Whether the exchange passes the typed filter, given the outcome of the
/// regex query (consulted only for a non-blank regex query) and whether it
/// matches the plain-text search terms (consulted only for a non-blank
/// plain query).
pub fn matches_session_filter_with(
    session: &Exchange,
    filter: &SessionListFilter,
    regex_result: Option<bool>,
    search_hit: bool,
) -> (r: bool)
    ensures
        r == filter_ok(*session, *filter, regex_result, search_hit),
{
    if let Some(methods) = &filter.methods {
        if !any_method(methods, &chars_of(session.request.method.as_str())) {
            return false;
        }
    }
    if let Some(buckets) = &filter.status_buckets {
        if !any_bucket(buckets, status_bucket(session)) {
            return false;
        }
    }
    if let Some(h) = &filter.host_filter {
        let hc = chars_of(h.as_str());
        if hc.len() > 0 && !eq_chars(&chars_of(session.request.host.as_str()), &hc) {
            return false;
        }
    }
    if filter.host_focus.len() > 0 && !any_focus(&filter.host_focus, &chars_of(session.request.host.as_str())) {
        return false;
    }
    let q = trim_vec(&chars_of(filter.query.as_str()));
    if q.len() > 0 {
        if filter.regex {
            return match regex_result {
                Some(b) => b,
                None => false,
            };
        } else {
            return search_hit;
        }
    }
    true
}

/// Whether the exchange passes the typed filter; a regex query is compiled
/// and run on the exchange's haystack, and `search_hit` says whether it
/// matches the plain-text search terms.
pub fn matches_session_filter(session: &Exchange, filter: &SessionListFilter, search_hit: bool) -> (r: bool)
    ensures
        r == filter_ok(
            *session,
            *filter,
            regex_outcome(trim(filter.query@), haystack_of(*session)),
            search_hit,
        ),
{
    let q = trim_vec(&chars_of(filter.query.as_str()));
    let outcome = if filter.regex && q.len() > 0 {
        let pattern = string_of(&q);
        let hay = session_filter_haystack(session);
        regex_is_match(pattern.as_str(), hay.as_str())
    } else {
        None
    };
    matches_session_filter_with(session, filter, outcome, search_hit)
}

// ───────────────────────── facets ─────────────────────────

/// The view of a facet list.
pub open spec fn facet_view(v: Seq<(String, usize)>) -> Seq<(Seq<char>, nat)> {
    v.map_values(|e: (String, usize)| (e.0@, e.1 as nat))
}

/// Facet counts of a listing: occurrences of each upper-cased method, each
/// status class and each host among the filtered exchanges, as lists sorted
/// by key.
#[derive(Debug, Clone)]
pub struct SessionListFacets {
    pub methods: Vec<(String, usize)>,
    pub status_buckets: Vec<(String, usize)>,
    pub hosts: Vec<(String, usize)>,
}

impl Default for SessionListFacets {
    fn default() -> (r: Self)
        ensures
            r.methods@.len() == 0,
            r.status_buckets@.len() == 0,
            r.hosts@.len() == 0,
    {
        SessionListFacets { methods: Vec::new(), status_buckets: Vec::new(), hosts: Vec::new() }
    }
}

/// The count recorded for `key` in a facet list, if any.
pub fn facet_count(facet: &Vec<(String, usize)>, key: &str) -> (r: Option<usize>)
    ensures
        r matches Some(c) ==> exists|a: int|
            0 <= a < facet@.len() && #[trigger] facet@[a].0@ == key@ && facet@[a].1 == c,
        r is None ==> forall|a: int| 0 <= a < facet@.len() ==> #[trigger] facet@[a].0@ != key@,
{
    let want = chars_of(key);
    let mut a: usize = 0;
    while a < facet.len()
        invariant
            a <= facet@.len(),
            want@ == key@,
            forall|b: int| 0 <= b < a ==> #[trigger] facet@[b].0@ != key@,
        decreases facet.len() - a,
    {
        if eq_chars(&chars_of(facet[a].0.as_str()), &want) {
            return Some(facet[a].1);
        }
        a = a + 1;
    }
    None
}

/// The exchanges at the given positions.
pub open spec fn selected(all: Seq<Exchange>, idx: Seq<int>) -> Seq<Exchange> {
    idx.map_values(|i: int| all[i])
}

pub open spec fn method_labels(es: Seq<Exchange>) -> Seq<Seq<char>> {
    es.map_values(|e: Exchange| upper(e.request.method@))
}

pub open spec fn bucket_labels(es: Seq<Exchange>) -> Seq<Seq<char>> {
    es.map_values(|e: Exchange| seq![bucket_char(e)])
}

pub open spec fn host_labels(es: Seq<Exchange>) -> Seq<Seq<char>> {
    es.map_values(|e: Exchange| e.request.host@)
}

/// The three facet lists are the tallies of the exchanges' methods, status
/// classes and hosts.
pub open spec fn facets_of(es: Seq<Exchange>, f: SessionListFacets) -> bool {
    &&& is_tally(method_labels(es), facet_view(f.methods@))
    &&& is_tally(bucket_labels(es), facet_view(f.status_buckets@))
    &&& is_tally(host_labels(es), facet_view(f.hosts@))
}

fn facet_list(labels: &Vec<Vec<char>>) -> (r: Vec<(String, usize)>)
    ensures
        is_tally(labels@.map_values(|l: Vec<char>| l@), facet_view(r@)),
{
    let (keys, counts) = tally(labels);
    let ghost t = Seq::new(keys@.len(), |a: int| (keys@[a]@, counts@[a] as nat));
    let mut out: Vec<(String, usize)> = Vec::new();
    let mut a: usize = 0;
    while a < keys.len()
        invariant
            a <= keys@.len(),
            keys@.len() == counts@.len(),
            t == Seq::new(keys@.len(), |a: int| (keys@[a]@, counts@[a] as nat)),
            out@.len() == a,
            facet_view(out@) == t.subrange(0, a as int),
        decreases keys.len() - a,
    {
        let name = string_of(&keys[a]);
        assert(name@ == keys@[a as int]@);
        out.push((name, counts[a]));
        assert(facet_view(out@)[a as int] == t[a as int]);
        a = a + 1;
        assert(facet_view(out@) =~= t.subrange(0, a as int));
    }
    assert(t.subrange(0, keys@.len() as int) =~= t);
    out
}

/// Facet counts of the exchanges of `all` at the positions `idx`.
pub fn build_facets(all: &Vec<Exchange>, idx: &Vec<usize>) -> (r: SessionListFacets)
    requires
        forall|j: int| 0 <= j < idx@.len() ==> #[trigger] idx@[j] < all@.len(),
    ensures
        facets_of(selected(all@, perm_view(idx@)), r),
{
    let ghost es = selected(all@, perm_view(idx@));
    let mut methods: Vec<Vec<char>> = Vec::new();
    let mut buckets: Vec<Vec<char>> = Vec::new();
    let mut hosts: Vec<Vec<char>> = Vec::new();
    let mut j: usize = 0;
    while j < idx.len()
        invariant
            j <= idx@.len(),
            forall|k: int| 0 <= k < idx@.len() ==> #[trigger] idx@[k] < all@.len(),
            es == selected(all@, perm_view(idx@)),
            methods@.len() == j,
            buckets@.len() == j,
            hosts@.len() == j,
            methods@.map_values(|l: Vec<char>| l@) == method_labels(es).subrange(0, j as int),
            buckets@.map_values(|l: Vec<char>| l@) == bucket_labels(es).subrange(0, j as int),
            hosts@.map_values(|l: Vec<char>| l@) == host_labels(es).subrange(0, j as int),
        decreases idx.len() - j,
    {
        let e = &all[idx[j]];
        assert(es[j as int] == *e);
        let m = upper_vec(&chars_of(e.request.method.as_str()));
        assert(m@ == method_labels(es)[j as int]);
        methods.push(m);
        let b = chars_of(status_bucket(e));
        assert(b@ == bucket_labels(es)[j as int]);
        buckets.push(b);
        hosts.push(chars_of(e.request.host.as_str()));
        j = j + 1;
        assert(methods@.map_values(|l: Vec<char>| l@) =~= method_labels(es).subrange(0, j as int));
        assert(buckets@.map_values(|l: Vec<char>| l@) =~= bucket_labels(es).subrange(0, j as int));
        assert(hosts@.map_values(|l: Vec<char>| l@) =~= host_labels(es).subrange(0, j as int));
    }
    assert(method_labels(es).subrange(0, j as int) =~= method_labels(es));
    assert(bucket_labels(es).subrange(0, j as int) =~= bucket_labels(es));
    assert(host_labels(es).subrange(0, j as int) =~= host_labels(es));
    SessionListFacets {
        methods: facet_list(&methods),
        status_buckets: facet_list(&buckets),
        hosts: facet_list(&hosts),
    }
}

// ───────────────────────── filtering, sorting, paging ─────────────────────────

/// Whether the plain-text search marked position `i` as a hit.
pub open spec fn hit_at(hits: Seq<bool>, i: int) -> bool {
    0 <= i < hits.len() && hits[i]
}

/// Whether the exchange at position `i` is listed.
pub open spec fn kept(all: Seq<Exchange>, o: SessionListOptions, hits: Seq<bool>, i: int) -> bool {
    &&& since_ok(all[i], o.since)
    &&& filter_ok(
        all[i],
        o.filter,
        regex_outcome(trim(o.filter.query@), haystack_of(all[i])),
        hit_at(hits, i),
    )
}

/// The listed positions among the first `n`, in order.
pub open spec fn kept_indices(all: Seq<Exchange>, o: SessionListOptions, hits: Seq<bool>, n: nat) -> Seq<int>
    decreases n,
{
    if n == 0 {
        Seq::empty()
    } else {
        let prev = kept_indices(all, o, hits, (n - 1) as nat);
        if kept(all, o, hits, n - 1) {
            prev.push(n - 1)
        } else {
            prev
        }
    }
}

/// The sort key of an exchange for a sort column.
pub open spec fn sort_key_of(e: Exchange, column: Seq<char>) -> (int, Seq<char>) {
    if column == "method"@ {
        (0, upper(e.request.method@))
    } else if column == "status"@ {
        (status_of(e) as int, Seq::empty())
    } else if column == "host"@ {
        (0, lower(e.request.host@))
    } else if column == "path"@ {
        (0, path_of(e))
    } else if column == "type"@ {
        (0, kind_of(e))
    } else if column == "reqSize"@ {
        (request_size_of(e), Seq::empty())
    } else if column == "total"@ {
        (latency_of(e), Seq::empty())
    } else {
        (e.timestamp as int, Seq::empty())
    }
}

/// Whether the ascending order is reversed: for a descending sort, and for
/// an ascending sort by `idx`.
pub open spec fn reversed(sort: SessionSort) -> bool {
    sort.dir == SessionSortDirection::Desc || (sort.key@ == "idx"@ && sort.dir
        == SessionSortDirection::Asc)
}

/// `p`, reversed when `rev` holds.
pub open spec fn oriented(p: Seq<int>, rev: bool) -> Seq<int> {
    if rev {
        Seq::new(p.len(), |k: int| p[p.len() - 1 - k])
    } else {
        p
    }
}

/// Where a page starts: after `offset` entries, at most at the end.
pub open spec fn page_start(len: nat, offset: Option<usize>) -> int {
    match offset {
        Some(o) => if o <= len {
            o as int
        } else {
            len as int
        },
        None => 0,
    }
}

/// Where a page ends: `limit` entries after its start, at most at the end.
pub open spec fn page_end(len: nat, offset: Option<usize>, limit: Option<usize>) -> int {
    let start = page_start(len, offset);
    match limit {
        Some(l) => if start + l <= len {
            start + l
        } else {
            len as int
        },
        None => len as int,
    }
}

/// The page of `s` that skips `offset` entries (none when absent) and keeps
/// at most `limit` (all when absent).
pub open spec fn page(s: Seq<int>, offset: Option<usize>, limit: Option<usize>) -> Seq<int> {
    s.subrange(page_start(s.len(), offset), page_end(s.len(), offset, limit))
}

/// `out` is `src` as listed: unchanged with bodies, otherwise with request
/// and response bodies emptied and WebSocket frame payloads dropped.
pub open spec fn listed_as(src: Exchange, out: Exchange, include_bodies: bool) -> bool {
    if include_bodies {
        out == src
    } else {
        &&& out.id == src.id
        &&& out.timestamp == src.timestamp
        &&& out.updated_at == src.updated_at
        &&& out.request.method == src.request.method
        &&& out.request.uri == src.request.uri
        &&& out.request.headers == src.request.headers
        &&& out.request.host == src.request.host
        &&& out.request.body@ == Seq::<char>::empty()
        &&& match (src.response, out.response) {
            (Some(a), Some(b)) => {
                &&& b.request_uri == a.request_uri
                &&& b.status == a.status
                &&& b.headers == a.headers
                &&& b.ttfb_ms == a.ttfb_ms
                &&& b.body_ms == a.body_ms
                &&& b.body@ == Seq::<char>::empty()
            },
            (None, None) => true,
            _ => false,
        }
        &&& out.metrics == src.metrics
        &&& out.ws_frames@.len() == src.ws_frames@.len()
        &&& forall|k: int|
            0 <= k < src.ws_frames@.len() ==> {
                &&& (#[trigger] out.ws_frames@[k]).opcode == src.ws_frames@[k].opcode
                &&& out.ws_frames@[k].payload_len == src.ws_frames@[k].payload_len
                &&& out.ws_frames@[k].payload_text is None
                &&& out.ws_frames@[k].payload_hex is None
            }
        &&& out.note == src.note
        &&& out.tags == src.tags
        &&& out.inspector_data == src.inspector_data
        &&& out.source == src.source
        &&& out.protocol_context == src.protocol_context
        &&& out.downstream_protocol == src.downstream_protocol
        &&& out.connection_id == src.connection_id
        &&& out.stream_id == src.stream_id
    }
}

/// The listed positions, in order.
fn kept_positions(all: &Vec<Exchange>, options: &SessionListOptions, search_hits: &Vec<bool>) -> (r: Vec<usize>)
    ensures
        perm_view(r@) == kept_indices(all@, *options, search_hits@, all@.len()),
        forall|a: int, b: int| 0 <= a < b < r@.len() ==> r@[a] < r@[b],
        forall|a: int| 0 <= a < r@.len() ==> #[trigger] r@[a] < all@.len(),
{
    let mut r: Vec<usize> = Vec::new();
    let mut i: usize = 0;
    while i < all.len()
        invariant
            i <= all@.len(),
            perm_view(r@) == kept_indices(all@, *options, search_hits@, i as nat),
            forall|a: int, b: int| 0 <= a < b < r@.len() ==> r@[a] < r@[b],
            forall|a: int| 0 <= a < r@.len() ==> #[trigger] r@[a] < i,
        decreases all.len() - i,
    {
        let e = &all[i];
        let hit = i < search_hits.len() && search_hits[i];
        if matches_since(e, options.since) && matches_session_filter(e, &options.filter, hit) {
            r.push(i);
            assert(perm_view(r@) =~= kept_indices(all@, *options, search_hits@, i as nat).push(i as int));
        }
        i = i + 1;
    }
    r
}

/// Sort keys of the exchanges at the given positions for a sort column.
fn sort_keys(all: &Vec<Exchange>, idx: &Vec<usize>, column: &String) -> (r: Vec<SortKey>)
    requires
        forall|j: int| 0 <= j < idx@.len() ==> #[trigger] idx@[j] < all@.len(),
    ensures
        keys_view(r@) == Seq::new(idx@.len(), |j: int| sort_key_of(all@[idx@[j] as int], column@)),
{
    let col = chars_of(column.as_str());
    let ghost want = Seq::new(idx@.len(), |j: int| sort_key_of(all@[idx@[j] as int], column@));
    let mut r: Vec<SortKey> = Vec::new();
    let mut j: usize = 0;
    proof {
        reveal_strlit("method");
        reveal_strlit("status");
        reveal_strlit("host");
        reveal_strlit("path");
        reveal_strlit("type");
        reveal_strlit("reqSize");
        reveal_strlit("total");
    }
    while j < idx.len()
        invariant
            j <= idx@.len(),
            forall|k: int| 0 <= k < idx@.len() ==> #[trigger] idx@[k] < all@.len(),
            col@ == column@,
            want == Seq::new(idx@.len(), |j: int| sort_key_of(all@[idx@[j] as int], column@)),
            r@.len() == j,
            keys_view(r@) == want.subrange(0, j as int),
        decreases idx.len() - j,
    {
        let e = &all[idx[j]];
        let key: SortKey = if eq_str(&col, "method") {
            SortKey { num: 0, text: upper_vec(&chars_of(e.request.method.as_str())) }
        } else if eq_str(&col, "status") {
            SortKey { num: response_status(e) as i128, text: Vec::new() }
        } else if eq_str(&col, "host") {
            SortKey { num: 0, text: lower_vec(&chars_of(e.request.host.as_str())) }
        } else if eq_str(&col, "path") {
            SortKey { num: 0, text: chars_of(session_path(e).as_str()) }
        } else if eq_str(&col, "type") {
            SortKey { num: 0, text: chars_of(session_kind(e).as_str()) }
        } else if eq_str(&col, "reqSize") {
            SortKey { num: request_size(e) as i128, text: Vec::new() }
        } else if eq_str(&col, "total") {
            SortKey { num: session_latency(e) as i128, text: Vec::new() }
        } else {
            SortKey { num: e.timestamp as i128, text: Vec::new() }
        };
        assert(key_view(key) == want[j as int]);
        r.push(key);
        j = j + 1;
        assert(keys_view(r@) =~= want.subrange(0, j as int));
    }
    assert(want.subrange(0, j as int) =~= want);
    r
}

/// The positions of `all` that a page lists: the page of the (possibly
/// reversed) sorted order of the filtered positions.
pub open spec fn listed_positions(
    fidx: Seq<int>,
    p: Seq<int>,
    rev: bool,
    offset: Option<usize>,
    limit: Option<usize>,
) -> Seq<int> {
    page(oriented(p, rev), offset, limit).map_values(|q: int| fidx[q])
}

fn page_positions(
    fidx: &Vec<usize>,
    p: &Vec<usize>,
    rev: bool,
    offset: Option<usize>,
    limit: Option<usize>,
) -> (r: Vec<usize>)
    requires
        forall|k: int| 0 <= k < p@.len() ==> #[trigger] p@[k] < fidx@.len(),
    ensures
        perm_view(r@) == listed_positions(perm_view(fidx@), perm_view(p@), rev, offset, limit),
{
    let ghost o = oriented(perm_view(p@), rev);
    let ghost pg = page(o, offset, limit);
    let n = p.len();
    let off: usize = match offset {
        Some(x) => x,
        None => 0,
    };
    let start: usize = if off <= n {
        off
    } else {
        n
    };
    let end: usize = match limit {
        Some(l) => if l <= n - start {
            start + l
        } else {
            n
        },
        None => n,
    };
    assert(pg =~= o.subrange(start as int, end as int));
    let mut r: Vec<usize> = Vec::new();
    let mut k: usize = start;
    while k < end
        invariant
            start <= k <= end <= n,
            n == p@.len(),
            o == oriented(perm_view(p@), rev),
            forall|m: int| 0 <= m < p@.len() ==> #[trigger] p@[m] < fidx@.len(),
            r@.len() == k - start,
            perm_view(r@) == o.subrange(start as int, k as int).map_values(|q: int| perm_view(fidx@)[q]),
        decreases end - k,
    {
        let q: usize = if rev {
            p[n - 1 - k]
        } else {
            p[k]
        };
        assert(q as int == o[k as int]);
        assert(perm_view(fidx@)[q as int] == fidx@[q as int] as int);
        let ghost old_r = perm_view(r@);
        let ghost old_seg = o.subrange(start as int, k as int).map_values(|q: int| perm_view(fidx@)[q]);
        r.push(fidx[q]);
        k = k + 1;
        let ghost seg = o.subrange(start as int, k as int).map_values(|q: int| perm_view(fidx@)[q]);
        assert forall|m: int| 0 <= m < seg.len() implies perm_view(r@)[m] == seg[m] by {
            if m < seg.len() - 1 {
                assert(perm_view(r@)[m] == old_r[m]);
                assert(seg[m] == old_seg[m]);
            } else {
                assert(seg[m] == perm_view(fidx@)[o[k - 1]]);
            }
        }
        assert(perm_view(r@) =~= seg);
    }
    r
}

/// `e` with request and response bodies emptied and frame payloads dropped.
fn strip_bodies(e: Exchange) -> (r: Exchange)
    ensures
        listed_as(e, r, false),
{
    let mut e = e;
    let ghost src = e;
    e.request.body = String::new();
    let resp = e.response.take();
    e.response = match resp {
        Some(mut r) => {
            r.body = String::new();
            Some(r)
        },
        None => None,
    };
    let mut k: usize = 0;
    while k < e.ws_frames.len()
        invariant
            k <= e.ws_frames@.len(),
            e.ws_frames@.len() == src.ws_frames@.len(),
            forall|m: int|
                0 <= m < src.ws_frames@.len() ==> {
                    &&& (#[trigger] e.ws_frames@[m]).opcode == src.ws_frames@[m].opcode
                    &&& e.ws_frames@[m].payload_len == src.ws_frames@[m].payload_len
                    &&& m < k ==> e.ws_frames@[m].payload_text is None
                    &&& m < k ==> e.ws_frames@[m].payload_hex is None
                },
            e.id == src.id,
            e.timestamp == src.timestamp,
            e.updated_at == src.updated_at,
            e.request.method == src.request.method,
            e.request.uri == src.request.uri,
            e.request.headers == src.request.headers,
            e.request.host == src.request.host,
            e.request.body@ == Seq::<char>::empty(),
            match (src.response, e.response) {
                (Some(a), Some(b)) => {
                    &&& b.request_uri == a.request_uri
                    &&& b.status == a.status
                    &&& b.headers == a.headers
                    &&& b.ttfb_ms == a.ttfb_ms
                    &&& b.body_ms == a.body_ms
                    &&& b.body@ == Seq::<char>::empty()
                },
                (None, None) => true,
                _ => false,
            },
            e.metrics == src.metrics,
            e.note == src.note,
            e.tags == src.tags,
            e.inspector_data == src.inspector_data,
            e.source == src.source,
            e.protocol_context == src.protocol_context,
            e.downstream_protocol == src.downstream_protocol,
            e.connection_id == src.connection_id,
            e.stream_id == src.stream_id,
        decreases src.ws_frames@.len() - k,
    {
        let frame = WsFrame {
            opcode: e.ws_frames[k].opcode.clone(),
            payload_len: e.ws_frames[k].payload_len,
            payload_text: None,
            payload_hex: None,
        };
        e.ws_frames.set(k, frame);
        k = k + 1;
    }
    e
}

/// The exchanges of `all` at the positions `sel`, each as listed.
fn take_listed(all: Vec<Exchange>, sel: &Vec<usize>, include_bodies: bool) -> (r: Vec<Exchange>)
    requires
        forall|k: int| 0 <= k < sel@.len() ==> #[trigger] sel@[k] < all@.len(),
        forall|a: int, b: int| 0 <= a < b < sel@.len() ==> sel@[a] != sel@[b],
    ensures
        r@.len() == sel@.len(),
        forall|k: int| 0 <= k < sel@.len() ==> listed_as(all@[sel@[k] as int], #[trigger] r@[k], include_bodies),
{
    let ghost orig = all@;
    let n = all.len();
    let mut slots: Vec<Option<Exchange>> = Vec::new();
    let mut i: usize = 0;
    while i < n
        invariant
            i <= n,
            slots@.len() == i,
        decreases n - i,
    {
        slots.push(None);
        i = i + 1;
    }
    let mut src = all;
    while src.len() > 0
        invariant
            n == orig.len(),
            slots@.len() == n,
            src@.len() <= n,
            src@ == orig.subrange(0, src@.len() as int),
            forall|j: int| src@.len() <= j < n ==> #[trigger] slots@[j] == Some(orig[j]),
        decreases src@.len(),
    {
        let e = src.pop().unwrap();
        let k = src.len();
        assert(e == orig[k as int]);
        slots.set(k, Some(e));
        assert(src@ =~= orig.subrange(0, k as int));
    }
    let mut out: Vec<Exchange> = Vec::new();
    let mut k: usize = 0;
    while k < sel.len()
        invariant
            k <= sel@.len(),
            n == orig.len(),
            slots@.len() == n,
            forall|m: int| 0 <= m < sel@.len() ==> #[trigger] sel@[m] < n,
            forall|a: int, b: int| 0 <= a < b < sel@.len() ==> sel@[a] != sel@[b],
            forall|m: int| k <= m < sel@.len() ==> slots@[#[trigger] sel@[m] as int] == Some(orig[sel@[m] as int]),
            out@.len() == k,
            forall|m: int| 0 <= m < k ==> listed_as(orig[sel@[m] as int], #[trigger] out@[m], include_bodies),
        decreases sel@.len() - k,
    {
        let j = sel[k];
        let mut tmp: Option<Exchange> = None;
        slots.set_and_swap(j, &mut tmp);
        assert(tmp == Some(orig[j as int]));
        let e = tmp.unwrap();
        let e = if include_bodies {
            e
        } else {
            strip_bodies(e)
        };
        out.push(e);
        proof {
            assert forall|m: int| k + 1 <= m < sel@.len() implies slots@[#[trigger] sel@[m] as int] == Some(orig[sel@[m] as int]) by {
                assert(sel@[m] != sel@[k as int]);
            }
        }
        k = k + 1;
    }
    out
}

/// Result of a session listing.
pub struct SessionListResponse {
    pub sessions: Vec<Exchange>,
    pub total: usize,
    pub filtered_total: usize,
    pub limit: Option<usize>,
    pub offset: Option<usize>,
    pub facets: SessionListFacets,
}

/// A request naming a session file under the storage directory.
#[derive(Debug)]
pub struct SessionFileRequest {
    pub path: String,
}

/// The answer to a request for one session.
#[derive(Debug)]
pub struct SessionDetailResponse {
    pub exchange: Exchange,
}

/// Sort keys of the filtered positions.
pub open spec fn listing_keys(all: Seq<Exchange>, fidx: Seq<int>, column: Seq<char>) -> Seq<(int, Seq<char>)> {
    Seq::new(fidx.len(), |j: int| sort_key_of(all[fidx[j]], column))
}

/// `sessions` is the page listed when the filtered positions `fidx` are put
/// in the stable sorted order `p`.
pub open spec fn page_listed(
    all: Seq<Exchange>,
    fidx: Seq<int>,
    p: Seq<int>,
    o: SessionListOptions,
    sessions: Seq<Exchange>,
) -> bool {
    let pos = listed_positions(fidx, p, reversed(o.filter.sort), o.offset, o.limit);
    &&& sessions.len() == pos.len()
    &&& forall|k: int| 0 <= k < pos.len() ==> listed_as(all[pos[k]], #[trigger] sessions[k], o.include_bodies)
}

/// Lists the exchanges `all` (in store order): keeps those that pass the
/// `since` bound and the typed filter, counts facets over them, sorts them
/// stably by the sort column (reversing for a descending sort and for an
/// ascending sort by `idx`), and returns the requested page, with bodies
/// stripped unless they were asked for. `search_hits[i]` says whether
/// `all[i]` matches a plain-text (non-regex) query; a missing entry counts
/// as no match.
pub fn list_sessions(all: Vec<Exchange>, options: SessionListOptions, search_hits: &Vec<bool>) -> (r: SessionListResponse)
    ensures
        r.total == all@.len(),
        r.filtered_total == kept_indices(all@, options, search_hits@, all@.len()).len(),
        r.limit == options.limit,
        r.offset == options.offset,
        facets_of(selected(all@, kept_indices(all@, options, search_hits@, all@.len())), r.facets),
        exists|p: Seq<int>|
            is_sorted_perm(
                listing_keys(all@, kept_indices(all@, options, search_hits@, all@.len()), options.filter.sort.key@),
                p,
            ) && page_listed(
                all@,
                kept_indices(all@, options, search_hits@, all@.len()),
                p,
                options,
                r.sessions@,
            ),
{
    let ghost fi = kept_indices(all@, options, search_hits@, all@.len());
    let total = all.len();
    let fidx = kept_positions(&all, &options, search_hits);
    let facets = build_facets(&all, &fidx);
    let filtered_total = fidx.len();
    let keys = sort_keys(&all, &fidx, &options.filter.sort.key);
    let ghost kv = listing_keys(all@, fi, options.filter.sort.key@);
    assert(keys_view(keys@) =~= kv);
    let p = sorted_positions(&keys);
    let ghost pv = perm_view(p@);
    assert forall|k: int| 0 <= k < p@.len() implies #[trigger] p@[k] < fidx@.len() by {
        assert(pv[k] == p@[k] as int);
    }
    let rev = match options.filter.sort.dir {
        SessionSortDirection::Desc => true,
        SessionSortDirection::Asc => eq_str(&chars_of(options.filter.sort.key.as_str()), "idx"),
    };
    assert(rev == reversed(options.filter.sort));
    let sel = page_positions(&fidx, &p, rev, options.offset, options.limit);
    let ghost pos = listed_positions(fi, pv, rev, options.offset, options.limit);
    proof {
        let o = oriented(pv, rev);
        let pg = page(o, options.offset, options.limit);
        assert forall|a: int, b: int| 0 <= a < b < o.len() implies o[a] != o[b] by {
            if rev {
                lemma_sorted_perm_distinct(kv, pv, pv.len() - 1 - a, pv.len() - 1 - b, false);
            } else {
                lemma_sorted_perm_distinct(kv, pv, a, b, false);
            }
        }
        assert forall|a: int| 0 <= a < o.len() implies 0 <= #[trigger] o[a] < fi.len() by {
            if rev {
                assert(o[a] == pv[pv.len() - 1 - a]);
            }
        }
        let st = page_start(o.len(), options.offset);
        assert(perm_view(sel@) == pos);
        assert(pos.len() == pg.len());
        assert(sel@.len() == pg.len());
        assert forall|k: int| 0 <= k < pg.len() implies #[trigger] pg[k] == o[st + k] by {}
        assert forall|k: int| 0 <= k < sel@.len() implies #[trigger] sel@[k] < all@.len() by {
            assert(perm_view(sel@)[k] == sel@[k] as int);
            assert(pg[k] == o[st + k]);
            assert(perm_view(fidx@)[pg[k]] == fidx@[pg[k]] as int);
        }
        assert forall|a: int, b: int| 0 <= a < b < sel@.len() implies sel@[a] != sel@[b] by {
            assert(perm_view(sel@)[a] == sel@[a] as int);
            assert(perm_view(sel@)[b] == sel@[b] as int);
            assert(pg[a] == o[st + a] && pg[b] == o[st + b]);
            assert(pg[a] != pg[b]);
            let x = pg[a];
            let y = pg[b];
            assert(perm_view(fidx@)[x] == fidx@[x] as int);
            assert(perm_view(fidx@)[y] == fidx@[y] as int);
            if x < y {
                assert(fidx@[x] < fidx@[y]);
            } else {
                assert(fidx@[y] < fidx@[x]);
            }
        }
    }
    let ghost all_v = all@;
    let sessions = take_listed(all, &sel, options.include_bodies);
    let ghost sessions_v = sessions@;
    proof {
        assert forall|k: int| 0 <= k < pos.len() implies listed_as(all_v[pos[k]], #[trigger] sessions@[k], options.include_bodies) by {
            assert(perm_view(sel@)[k] == sel@[k] as int);
        }
        assert(page_listed(all_v, fi, pv, options, sessions@));
        assert(is_sorted_perm(kv, pv));
        assert(all_v == all@);
        assert(exists|q: Seq<int>| is_sorted_perm(kv, q) && page_listed(all_v, fi, q, options, sessions@));
    }
    let r = SessionListResponse {
        sessions,
        total,
        filtered_total,
        limit: options.limit,
        offset: options.offset,
        facets,
    };
    assert(fi == kept_indices(all_v, options, search_hits@, all_v.len()));
    assert(r.sessions@ == sessions_v);
    assert(page_listed(all_v, fi, pv, options, r.sessions@));
    r
}

// ───────────────────────── body display ─────────────────────────

/// A content type that is pretty-printed as JSON.
pub open spec fn is_json_type(content_type: Seq<char>) -> bool {
    contains(content_type, "application/json"@) || contains(content_type, "/json"@)
}

/// The pretty-printed form of a JSON text: `None` when it does not parse as
/// JSON.
pub uninterp spec fn pretty_json(body: Seq<char>) -> Option<Seq<char>>;

/// `serde_json::from_str::<serde_json::Value>` followed by
/// `serde_json::to_string_pretty`. Trusted: `None` exactly when either call
/// returns an error, otherwise the pretty text; named by `pretty_json`, a
/// function of the body alone.
#[verifier::external_body]
fn json_pretty(body: &str) -> (r: Option<String>)
    ensures
        r matches Some(s) ==> pretty_json(body@) == Some(s@),
        r is None ==> pretty_json(body@) is None,
{
    match serde_json::from_str::<serde_json::Value>(body) {
        Ok(v) => match serde_json::to_string_pretty(&v) {
            Ok(s) => Some(s),
            Err(_) => None,
        },
        Err(_) => None,
    }
}

/// The displayed body, given what pretty-printing it as JSON gave: the
/// pretty text for a JSON content type when there is one, else the body
/// unchanged.
pub fn pretty_body_with(body: &str, content_type: &str, pretty: Option<String>) -> (r: String)
    ensures
        r@ == (if is_json_type(content_type@) && pretty is Some {
            pretty->0@
        } else {
            body@
        }),
{
    let ct = chars_of(content_type);
    if contains_str(&ct, "application/json") || contains_str(&ct, "/json") {
        if let Some(s) = pretty {
            return s;
        }
    }
    string_of(&chars_of(body))
}

/// Pretty-prints a body according to its content type; a body that is not
/// JSON, or not of a JSON content type, is returned unchanged.
pub fn pretty_body(body: &str, content_type: &str) -> (r: String)
    ensures
        r@ == (if is_json_type(content_type@) && pretty_json(body@) is Some {
            pretty_json(body@)->0
        } else {
            body@
        }),
{
    let ct = chars_of(content_type);
    if contains_str(&ct, "application/json") || contains_str(&ct, "/json") {
        let pretty = json_pretty(body);
        pretty_body_with(body, content_type, pretty)
    } else {
        string_of(&chars_of(body))
    }
}

// ───────────────────────── query parameters ─────────────────────────

/// The non-blank trimmed pieces of a comma-separated list, in order.
pub open spec fn csv_items(pieces: Seq<Seq<char>>) -> Seq<Seq<char>>
    decreases pieces.len(),
{
    if pieces.len() == 0 {
        Seq::empty()
    } else {
        let prev = csv_items(pieces.drop_last());
        let t = trim(pieces.last());
        if t.len() > 0 {
            prev.push(t)
        } else {
            prev
        }
    }
}

/// Splits a comma-separated query parameter into its non-blank, trimmed
/// items.
pub fn split_csv(value: &str) -> (r: Vec<String>)
    ensures
        r@.map_values(|s: String| s@) == csv_items(split(value@, ',')),
{
    let pieces = split_char(&chars_of(value), ',');
    let ghost pv = crate::text::vecs_view(pieces@);
    let mut out: Vec<String> = Vec::new();
    let mut i: usize = 0;
    while i < pieces.len()
        invariant
            i <= pieces@.len(),
            pv == crate::text::vecs_view(pieces@),
            out@.map_values(|s: String| s@) == csv_items(pv.subrange(0, i as int)),
        decreases pieces.len() - i,
    {
        let ghost pre = pv.subrange(0, i as int);
        assert(pv.subrange(0, i + 1).drop_last() =~= pre);
        let t = trim_vec(&pieces[i]);
        if t.len() > 0 {
            let ghost before = out@;
            out.push(string_of(&t));
            assert(out@.map_values(|s: String| s@) =~= before.map_values(|s: String| s@).push(t@));
        }
        i = i + 1;
    }
    assert(pv.subrange(0, pieces@.len() as int) =~= pv);
    out
}

/// The sort direction of a query: ascending only for `asc`.
pub fn parse_sort_dir(value: Option<&str>) -> (r: SessionSortDirection)
    ensures
        r == (if value matches Some(v) && v@ == "asc"@ {
            SessionSortDirection::Asc
        } else {
            SessionSortDirection::Desc
        }),
{
    match value {
        Some(v) => if eq_str(&chars_of(v), "asc") {
            SessionSortDirection::Asc
        } else {
            SessionSortDirection::Desc
        },
        None => SessionSortDirection::Desc,
    }
}

/// The default of an absent boolean flag that defaults to on.
pub fn bool_true() -> (r: bool)
    ensures
        r,
{
    true
}

// ───────────────────────── in-place sort ─────────────────────────

/// Sort keys of exchanges for a sort column.
pub open spec fn column_keys(es: Seq<Exchange>, column: Seq<char>) -> Seq<(int, Seq<char>)> {
    es.map_values(|e: Exchange| sort_key_of(e, column))
}

/// Sorts exchanges stably by the sort column, then reverses the order for a
/// descending sort and for an ascending sort by `idx`.
pub fn sort_sessions(sessions: &mut Vec<Exchange>, sort: &SessionSort)
    ensures
        exists|p: Seq<int>|
            is_sorted_perm(column_keys(old(sessions)@, sort.key@), p) && final(sessions)@ == oriented(
                p,
                reversed(*sort),
            ).map_values(|q: int| old(sessions)@[q]),
{
    let ghost orig = sessions@;
    let n = sessions.len();
    let mut idx: Vec<usize> = Vec::new();
    let mut i: usize = 0;
    while i < n
        invariant
            i <= n,
            n == sessions@.len(),
            idx@.len() == i,
            forall|k: int| 0 <= k < i ==> #[trigger] idx@[k] == k,
        decreases n - i,
    {
        idx.push(i);
        i = i + 1;
    }
    let keys = sort_keys(sessions, &idx, &sort.key);
    assert(keys_view(keys@) =~= column_keys(orig, sort.key@));
    let p = sorted_positions(&keys);
    let ghost pv = perm_view(p@);
    let rev = match sort.dir {
        SessionSortDirection::Desc => true,
        SessionSortDirection::Asc => eq_str(&chars_of(sort.key.as_str()), "idx"),
    };
    assert(rev == reversed(*sort));
    let ghost o = oriented(pv, rev);
    // move the exchanges out into slots, then back in the new order
    let mut slots: Vec<Option<Exchange>> = Vec::new();
    let mut z: usize = 0;
    while z < n
        invariant
            z <= n,
            slots@.len() == z,
        decreases n - z,
    {
        slots.push(None);
        z = z + 1;
    }
    while sessions.len() > 0
        invariant
            n == orig.len(),
            slots@.len() == n,
            sessions@.len() <= n,
            sessions@ == orig.subrange(0, sessions@.len() as int),
            forall|j: int| sessions@.len() <= j < n ==> #[trigger] slots@[j] == Some(orig[j]),
        decreases sessions@.len(),
    {
        let e = sessions.pop().unwrap();
        let k = sessions.len();
        assert(e == orig[k as int]);
        slots.set(k, Some(e));
        assert(sessions@ =~= orig.subrange(0, k as int));
    }
    proof {
        assert forall|a: int, b: int| 0 <= a < b < o.len() implies o[a] != o[b] by {
            if rev {
                lemma_sorted_perm_distinct(column_keys(orig, sort.key@), pv, pv.len() - 1 - a, pv.len() - 1 - b, false);
            } else {
                lemma_sorted_perm_distinct(column_keys(orig, sort.key@), pv, a, b, false);
            }
        }
        assert forall|a: int| 0 <= a < o.len() implies 0 <= #[trigger] o[a] < n by {
            if rev {
                assert(o[a] == pv[pv.len() - 1 - a]);
            }
        }
    }
    let mut w: usize = 0;
    while w < n
        invariant
            w <= n,
            n == orig.len(),
            o.len() == n,
            p@.len() == n,
            o == oriented(pv, rev),
            pv == perm_view(p@),
            slots@.len() == n,
            forall|a: int, b: int| 0 <= a < b < o.len() ==> o[a] != o[b],
            forall|a: int| 0 <= a < o.len() ==> 0 <= #[trigger] o[a] < n,
            forall|x: int| w <= x < n ==> slots@[#[trigger] o[x]] == Some(orig[o[x]]),
            sessions@ == o.subrange(0, w as int).map_values(|q: int| orig[q]),
        decreases n - w,
    {
        let q: usize = if rev {
            p[n - 1 - w]
        } else {
            p[w]
        };
        assert(q as int == o[w as int]);
        let mut tmp: Option<Exchange> = None;
        slots.set_and_swap(q, &mut tmp);
        let e = tmp.unwrap();
        proof {
            assert forall|x: int| w + 1 <= x < n implies slots@[#[trigger] o[x]] == Some(orig[o[x]]) by {
                assert(o[x] != o[w as int]);
            }
        }
        sessions.push(e);
        w = w + 1;
        assert(sessions@ =~= o.subrange(0, w as int).map_values(|q: int| orig[q]));
    }
    assert(o.subrange(0, n as int) =~= o);
    assert(is_sorted_perm(column_keys(orig, sort.key@), pv));
}


/// The response status of an exchange, 0 while it has no response.
pub open spec fn answered_status(e: Exchange) -> int {
    match e.response {
        Some(r) => r.status as int,
        None => 0,
    }
}

/// Sorting by the `status` column orders the exchanges by their response
/// status (0 when pending): non-decreasing for an ascending sort and
/// non-increasing for a descending one, whatever else they hold.
pub proof fn law_status_sort_orders_by_response_status(es: Seq<Exchange>, p: Seq<int>, desc: bool)
    requires
        is_sorted_perm(column_keys(es, "status"@), p),
    ensures
        forall|a: int, b: int|
            0 <= a < b < p.len() ==> answered_status(#[trigger] es[p[a]]) <= answered_status(
                #[trigger] es[p[b]],
            ),
        forall|a: int, b: int|
            0 <= a < b < p.len() ==> answered_status(#[trigger] es[oriented(p, true)[a]])
                >= answered_status(#[trigger] es[oriented(p, true)[b]]),
{
    reveal_strlit("method");
    reveal_strlit("status");
    assert("status"@[0] != "method"@[0]);
    assert("status"@ != "method"@);
    let keys = column_keys(es, "status"@);
    assert forall|k: int| 0 <= k < es.len() implies #[trigger] keys[k].0 == answered_status(es[k]) by {
        assert(keys[k] == sort_key_of(es[k], "status"@));
    }
    assert forall|a: int, b: int|
        0 <= a < b < p.len() implies answered_status(#[trigger] es[p[a]]) <= answered_status(
        #[trigger] es[p[b]],
    ) by {
        assert(crate::order::entry_lt_dir(keys, p[a], p[b], false));
        assert(keys[p[a]].0 == answered_status(es[p[a]]));
        assert(keys[p[b]].0 == answered_status(es[p[b]]));
    }
    assert forall|a: int, b: int|
        0 <= a < b < p.len() implies answered_status(#[trigger] es[oriented(p, true)[a]])
        >= answered_status(#[trigger] es[oriented(p, true)[b]]) by {
        let o = oriented(p, true);
        let x = p.len() - 1 - b;
        let y = p.len() - 1 - a;
        assert(o[a] == p[y]);
        assert(o[b] == p[x]);
        assert(crate::order::entry_lt_dir(keys, p[x], p[y], false));
        assert(keys[p[x]].0 == answered_status(es[p[x]]));
        assert(keys[p[y]].0 == answered_status(es[p[y]]));
    }
}

} // verus!

//! Side-by-side comparison of two recorded exchanges.
use vstd::prelude::*;
use crate::exchange::{Exchange, InspectionMetrics, headers_view};
use crate::text::{chars_of, eq_chars, string_of};

verus! {

#[derive(Debug, Clone)]
pub struct SessionDiff {
    pub request_diff: ContextDiff,
    pub response_diff: Option<ResponseDiff>,
    pub timing_delta: TimingDelta,
}

#[derive(Debug, Clone)]
pub struct ContextDiff {
    pub method_changed: bool,
    pub uri_diff: Option<LineDiff>,
    pub headers_added: Vec<String>,
    pub headers_removed: Vec<String>,
    pub headers_changed: Vec<HeaderChange>,
    pub body_diff: Option<LineDiff>,
}

#[derive(Debug, Clone)]
pub struct ResponseDiff {
    pub status_changed: Option<(u16, u16)>,
    pub headers_added: Vec<String>,
    pub headers_removed: Vec<String>,
    pub headers_changed: Vec<HeaderChange>,
    pub body_diff: Option<LineDiff>,
}

#[derive(Debug, Clone)]
pub struct HeaderChange {
    pub name: String,
    pub old_value: String,
    pub new_value: String,
}

#[derive(Debug, Clone, Copy)]
pub struct TimingDelta {
    pub latency_delta_ms: i64,
    pub ttfb_delta_ms: i64,
    pub size_delta_bytes: i64,
}

#[derive(Debug, Clone)]
pub struct LineDiff {
    pub hunks: Vec<String>,
}

// ───────────────────────── line diff (outside) ─────────────────────────

/// Change kinds of a line diff: 0 unchanged, 1 deleted, 2 inserted.
pub open spec fn change_prefix(tag: u8) -> char {
    if tag == 1 {
        '-'
    } else if tag == 2 {
        '+'
    } else {
        ' '
    }
}

/// The hunks (groups of operations, with `context` lines of surrounding
/// context) of the line diff between `old` and `new`: for each operation of
/// a hunk, its changed lines, each tagged 0 (unchanged), 1 (deleted) or 2
/// (inserted).
pub uninterp spec fn line_diff_groups(old: Seq<char>, new: Seq<char>, context: usize) -> Seq<
    Seq<Seq<(u8, Seq<char>)>>,
>;

pub open spec fn tagged_view(v: Seq<(u8, String)>) -> Seq<(u8, Seq<char>)> {
    v.map_values(|c: (u8, String)| (c.0, c.1@))
}

pub open spec fn groups_view(g: Seq<Vec<Vec<(u8, String)>>>) -> Seq<Seq<Seq<(u8, Seq<char>)>>> {
    g.map_values(|ops: Vec<Vec<(u8, String)>>| ops@.map_values(|v: Vec<(u8, String)>| tagged_view(v@)))
}

/// `similar::TextDiff::from_lines` on the two texts, then for each group of
/// `grouped_ops(context)` and each operation in it, the tag (as the
/// `ChangeTag` discriminant: `Equal`, `Delete`, `Insert`) and text of every
/// change that `iter_changes` yields. The contract names the result
/// without restating the diff algorithm.
#[verifier::external_body]
fn line_diff(old: &str, new: &str, context: usize) -> (r: Vec<Vec<Vec<(u8, String)>>>)
    ensures
        groups_view(r@) == line_diff_groups(old@, new@, context),
{
    let diff = similar::TextDiff::from_lines(old, new);
    let groups = diff.grouped_ops(context);
    groups.iter().map(|ops| ops.iter().map(|op| {
        diff.iter_changes(op).map(|c| (c.tag() as u8, c.value().to_string())).collect()
    }).collect()).collect()
}

/// One change rendered as a unified-diff line, newline-terminated.
pub open spec fn change_line(c: (u8, Seq<char>)) -> Seq<char> {
    let base = seq![change_prefix(c.0)] + c.1;
    if c.1.len() > 0 && c.1[c.1.len() - 1] == '\n' {
        base
    } else {
        base.push('\n')
    }
}

/// A hunk rendered as text.
pub open spec fn hunk_text(g: Seq<(u8, Seq<char>)>) -> Seq<char>
    decreases g.len(),
{
    if g.len() == 0 {
        Seq::empty()
    } else {
        hunk_text(g.subrange(0, g.len() - 1)) + change_line(g[g.len() - 1])
    }
}

/// A group of operations rendered as text.
pub open spec fn group_text(ops: Seq<Seq<(u8, Seq<char>)>>) -> Seq<char>
    decreases ops.len(),
{
    if ops.len() == 0 {
        Seq::empty()
    } else {
        group_text(ops.drop_last()) + hunk_text(ops.last())
    }
}

/// The non-empty rendered hunks, in order.
pub open spec fn rendered_hunks(groups: Seq<Seq<Seq<(u8, Seq<char>)>>>) -> Seq<Seq<char>>
    decreases groups.len(),
{
    if groups.len() == 0 {
        Seq::empty()
    } else {
        let prev = rendered_hunks(groups.subrange(0, groups.len() - 1));
        let h = group_text(groups[groups.len() - 1]);
        if h.len() > 0 {
            prev.push(h)
        } else {
            prev
        }
    }
}

/// The unified line diff of two texts: nothing when they are equal or no
/// hunk has any text.
pub open spec fn unified_diff_spec(old: Seq<char>, new: Seq<char>) -> Option<Seq<Seq<char>>> {
    if old == new {
        None
    } else {
        let hunks = rendered_hunks(line_diff_groups(old, new, 3));
        if hunks.len() == 0 {
            None
        } else {
            Some(hunks)
        }
    }
}

pub open spec fn strings_view(v: Seq<String>) -> Seq<Seq<char>> {
    v.map_values(|s: String| s@)
}

pub open spec fn line_diff_view(d: Option<LineDiff>) -> Option<Seq<Seq<char>>> {
    match d {
        Some(l) => Some(strings_view(l.hunks@)),
        None => None,
    }
}

fn render_group(ops: &Vec<Vec<(u8, String)>>) -> (r: Vec<char>)
    ensures
        r@ == group_text(ops@.map_values(|v: Vec<(u8, String)>| tagged_view(v@))),
{
    let ghost ov = ops@.map_values(|v: Vec<(u8, String)>| tagged_view(v@));
    let mut out: Vec<char> = Vec::new();
    let mut k: usize = 0;
    while k < ops.len()
        invariant
            k <= ops@.len(),
            ov == ops@.map_values(|v: Vec<(u8, String)>| tagged_view(v@)),
            out@ == group_text(ov.subrange(0, k as int)),
        decreases ops.len() - k,
    {
        let h = render_hunk(&ops[k]);
        let ghost before = out@;
        let mut j: usize = 0;
        while j < h.len()
            invariant
                j <= h@.len(),
                out@ == before + h@.subrange(0, j as int),
            decreases h.len() - j,
        {
            out.push(h[j]);
            j = j + 1;
            assert(out@ =~= before + h@.subrange(0, j as int));
        }
        assert(h@.subrange(0, h@.len() as int) =~= h@);
        assert(ov.subrange(0, k + 1 as int).drop_last() =~= ov.subrange(0, k as int));
        assert(ov[k as int] == tagged_view(ops@[k as int]@));
        k = k + 1;
    }
    assert(ov.subrange(0, ops@.len() as int) =~= ov);
    out
}

fn render_hunk(g: &Vec<(u8, String)>) -> (r: Vec<char>)
    ensures
        r@ == hunk_text(g@.map_values(|c: (u8, String)| (c.0, c.1@))),
{
    let ghost gv = g@.map_values(|c: (u8, String)| (c.0, c.1@));
    let mut out: Vec<char> = Vec::new();
    let mut i: usize = 0;
    while i < g.len()
        invariant
            i <= g.len(),
            gv == g@.map_values(|c: (u8, String)| (c.0, c.1@)),
            out@ == hunk_text(gv.subrange(0, i as int)),
        decreases g.len() - i,
    {
        let tag = g[i].0;
        let value = chars_of(g[i].1.as_str());
        let ghost start = out@;
        out.push(
            if tag == 1 {
                '-'
            } else if tag == 2 {
                '+'
            } else {
                ' '
            },
        );
        let mut j: usize = 0;
        while j < value.len()
            invariant
                j <= value.len(),
                out@ == start + seq![change_prefix(tag)] + value@.subrange(0, j as int),
            decreases value.len() - j,
        {
            out.push(value[j]);
            j = j + 1;
            assert(out@ =~= start + seq![change_prefix(tag)] + value@.subrange(0, j as int));
        }
        assert(value@.subrange(0, value.len() as int) =~= value@);
        if !(value.len() > 0 && value[value.len() - 1] == '\n') {
            out.push('\n');
        }
        assert(gv.subrange(0, i + 1 as int).subrange(0, i as int) =~= gv.subrange(0, i as int));
        assert(gv[i as int] == (tag, value@));
        assert(out@ =~= start + change_line((tag, value@)));
        i = i + 1;
    }
    assert(gv.subrange(0, g.len() as int) =~= gv);
    out
}

/// The unified line diff of two texts, hunk by hunk.
pub fn unified_diff(old: &str, new: &str) -> (r: Option<LineDiff>)
    ensures
        line_diff_view(r) == unified_diff_spec(old@, new@),
{
    let a = chars_of(old);
    let b = chars_of(new);
    if eq_chars(&a, &b) {
        return None;
    }
    let groups = line_diff(old, new, 3);
    let ghost gs = groups_view(groups@);
    let mut hunks: Vec<String> = Vec::new();
    let mut i: usize = 0;
    while i < groups.len()
        invariant
            i <= groups.len(),
            gs == groups_view(groups@),
            strings_view(hunks@) == rendered_hunks(gs.subrange(0, i as int)),
        decreases groups.len() - i,
    {
        let h = render_group(&groups[i]);
        assert(gs[i as int] == groups@[i as int]@.map_values(|v: Vec<(u8, String)>| tagged_view(v@)));
        assert(gs.subrange(0, i + 1 as int).subrange(0, i as int) =~= gs.subrange(0, i as int));
        if h.len() > 0 {
            let ghost before = hunks@;
            let s = string_of(&h);
            hunks.push(s);
            assert(strings_view(hunks@) =~= strings_view(before).push(h@));
        }
        i = i + 1;
    }
    assert(gs.subrange(0, groups.len() as int) =~= gs);
    if hunks.len() == 0 {
        None
    } else {
        Some(LineDiff { hunks })
    }
}

// ───────────────────────── headers ─────────────────────────

/// Value of the first header named `k`.
pub open spec fn lookup(h: Seq<(Seq<char>, Seq<char>)>, k: Seq<char>) -> Option<Seq<char>>
    decreases h.len(),
{
    if h.len() == 0 {
        None
    } else if h[0].0 == k {
        Some(h[0].1)
    } else {
        lookup(h.subrange(1, h.len() as int), k)
    }
}

/// `name: value`.
pub open spec fn header_line(k: Seq<char>, v: Seq<char>) -> Seq<char> {
    k + ": "@ + v
}

/// Headers of `b` absent from `a`, as `name: value`, in `b`'s order.
pub open spec fn added_headers(a: Seq<(Seq<char>, Seq<char>)>, b: Seq<(Seq<char>, Seq<char>)>) -> Seq<
    Seq<char>,
>
    decreases b.len(),
{
    if b.len() == 0 {
        Seq::empty()
    } else {
        let prev = added_headers(a, b.subrange(0, b.len() - 1));
        let e = b[b.len() - 1];
        if lookup(a, e.0) is None {
            prev.push(header_line(e.0, e.1))
        } else {
            prev
        }
    }
}

/// Headers of `b` whose value differs in `a`, as `(name, old, new)`.
pub open spec fn changed_headers(a: Seq<(Seq<char>, Seq<char>)>, b: Seq<(Seq<char>, Seq<char>)>) -> Seq<
    (Seq<char>, Seq<char>, Seq<char>),
>
    decreases b.len(),
{
    if b.len() == 0 {
        Seq::empty()
    } else {
        let prev = changed_headers(a, b.subrange(0, b.len() - 1));
        let e = b[b.len() - 1];
        match lookup(a, e.0) {
            Some(av) => if av != e.1 {
                prev.push((e.0, av, e.1))
            } else {
                prev
            },
            None => prev,
        }
    }
}

pub open spec fn changes_view(v: Seq<HeaderChange>) -> Seq<(Seq<char>, Seq<char>, Seq<char>)> {
    v.map_values(|c: HeaderChange| (c.name@, c.old_value@, c.new_value@))
}

fn lookup_exec(h: &Vec<(String, String)>, k: &str) -> (r: Option<String>)
    ensures
        crate::wire::opt_view(r) == lookup(headers_view(h@), k@),
{
    let kv = chars_of(k);
    let mut i: usize = 0;
    let ghost hv = headers_view(h@);
    assert(hv.subrange(0, h.len() as int) =~= hv);
    while i < h.len()
        invariant
            i <= h.len(),
            hv == headers_view(h@),
            kv@ == k@,
            lookup(hv, k@) == lookup(hv.subrange(i as int, h.len() as int), k@),
        decreases h.len() - i,
    {
        let ghost rest = hv.subrange(i as int, h.len() as int);
        assert(rest.subrange(1, rest.len() as int) =~= hv.subrange(i + 1, h.len() as int));
        let name = chars_of(h[i].0.as_str());
        if eq_chars(&name, &kv) {
            return Some(h[i].1.clone());
        }
        i = i + 1;
    }
    None
}

fn header_line_exec(k: &str, v: &str) -> (r: String)
    ensures
        r@ == header_line(k@, v@),
{
    let mut out = chars_of(k);
    out.push(':');
    out.push(' ');
    let vv = chars_of(v);
    let ghost head = out@;
    let mut i: usize = 0;
    while i < vv.len()
        invariant
            i <= vv.len(),
            out@ == head + vv@.subrange(0, i as int),
        decreases vv.len() - i,
    {
        out.push(vv[i]);
        i = i + 1;
        assert(out@ =~= head + vv@.subrange(0, i as int));
    }
    assert(vv@.subrange(0, vv.len() as int) =~= vv@);
    assert(head =~= k@ + ": "@) by {
        reveal_strlit(": ");
    }
    string_of(&out)
}

/// Headers added, removed and changed between two header lists.
pub fn diff_headers(a: &Vec<(String, String)>, b: &Vec<(String, String)>) -> (r: (
    Vec<String>,
    Vec<String>,
    Vec<HeaderChange>,
))
    ensures
        strings_view(r.0@) == added_headers(headers_view(a@), headers_view(b@)),
        strings_view(r.1@) == added_headers(headers_view(b@), headers_view(a@)),
        changes_view(r.2@) == changed_headers(headers_view(a@), headers_view(b@)),
{
    let ghost av = headers_view(a@);
    let ghost bv = headers_view(b@);
    let mut added: Vec<String> = Vec::new();
    let mut changed: Vec<HeaderChange> = Vec::new();
    let mut i: usize = 0;
    while i < b.len()
        invariant
            i <= b.len(),
            av == headers_view(a@),
            bv == headers_view(b@),
            strings_view(added@) == added_headers(av, bv.subrange(0, i as int)),
            changes_view(changed@) == changed_headers(av, bv.subrange(0, i as int)),
        decreases b.len() - i,
    {
        assert(bv.subrange(0, i + 1 as int).subrange(0, i as int) =~= bv.subrange(0, i as int));
        assert(bv[i as int] == (b@[i as int].0@, b@[i as int].1@));
        let ghost before_a = added@;
        let ghost before_c = changed@;
        match lookup_exec(a, b[i].0.as_str()) {
            None => {
                let line = header_line_exec(b[i].0.as_str(), b[i].1.as_str());
                added.push(line);
                assert(strings_view(added@) =~= strings_view(before_a).push(line@));
            },
            Some(av_) => {
                let x = chars_of(av_.as_str());
                let y = chars_of(b[i].1.as_str());
                if !eq_chars(&x, &y) {
                    let c = HeaderChange {
                        name: b[i].0.clone(),
                        old_value: av_,
                        new_value: b[i].1.clone(),
                    };
                    changed.push(c);
                    assert(changes_view(changed@) =~= changes_view(before_c).push(
                        (c.name@, c.old_value@, c.new_value@),
                    ));
                }
            },
        }
        i = i + 1;
    }
    assert(bv.subrange(0, b.len() as int) =~= bv);
    let mut removed: Vec<String> = Vec::new();
    let mut j: usize = 0;
    while j < a.len()
        invariant
            j <= a.len(),
            av == headers_view(a@),
            bv == headers_view(b@),
            strings_view(removed@) == added_headers(bv, av.subrange(0, j as int)),
        decreases a.len() - j,
    {
        assert(av.subrange(0, j + 1 as int).subrange(0, j as int) =~= av.subrange(0, j as int));
        assert(av[j as int] == (a@[j as int].0@, a@[j as int].1@));
        let ghost before_r = removed@;
        if lookup_exec(b, a[j].0.as_str()).is_none() {
            let line = header_line_exec(a[j].0.as_str(), a[j].1.as_str());
            removed.push(line);
            assert(strings_view(removed@) =~= strings_view(before_r).push(line@));
        }
        j = j + 1;
    }
    assert(av.subrange(0, a.len() as int) =~= av);
    (added, removed, changed)
}

// ───────────────────────── exchanges ─────────────────────────

/// Metric values are small enough to subtract as signed 64-bit integers.
pub open spec fn metrics_fit(m: Option<InspectionMetrics>) -> bool {
    match m {
        Some(x) => x.latency_ms <= i64::MAX && x.ttfb_ms <= i64::MAX && x.response_size_bytes
            <= i64::MAX,
        None => true,
    }
}

pub open spec fn latency_of(m: Option<InspectionMetrics>) -> int {
    match m {
        Some(x) => x.latency_ms as int,
        None => 0,
    }
}

pub open spec fn ttfb_of(m: Option<InspectionMetrics>) -> int {
    match m {
        Some(x) => x.ttfb_ms as int,
        None => 0,
    }
}

pub open spec fn size_of_response(m: Option<InspectionMetrics>) -> int {
    match m {
        Some(x) => x.response_size_bytes as int,
        None => 0,
    }
}

/// Compares two exchanges: request method, URI, headers and body; response
/// status, headers and body when both have a response; and the timing and
/// size deltas (`b` minus `a`, missing metrics counting as 0).
pub fn diff_exchanges(a: &Exchange, b: &Exchange) -> (d: SessionDiff)
    requires
        metrics_fit(a.metrics),
        metrics_fit(b.metrics),
    ensures
        d.request_diff.method_changed == (a.request.method@ != b.request.method@),
        line_diff_view(d.request_diff.uri_diff) == unified_diff_spec(a.request.uri@, b.request.uri@),
        line_diff_view(d.request_diff.body_diff) == unified_diff_spec(
            a.request.body@,
            b.request.body@,
        ),
        strings_view(d.request_diff.headers_added@) == added_headers(
            headers_view(a.request.headers@),
            headers_view(b.request.headers@),
        ),
        strings_view(d.request_diff.headers_removed@) == added_headers(
            headers_view(b.request.headers@),
            headers_view(a.request.headers@),
        ),
        changes_view(d.request_diff.headers_changed@) == changed_headers(
            headers_view(a.request.headers@),
            headers_view(b.request.headers@),
        ),
        d.response_diff is Some <==> (a.response is Some && b.response is Some),
        d.response_diff matches Some(rd) ==> {
            let ra = a.response.unwrap();
            let rb = b.response.unwrap();
            &&& rd.status_changed == (if ra.status != rb.status {
                Some((ra.status, rb.status))
            } else {
                None
            })
            &&& strings_view(rd.headers_added@) == added_headers(
                headers_view(ra.headers@),
                headers_view(rb.headers@),
            )
            &&& strings_view(rd.headers_removed@) == added_headers(
                headers_view(rb.headers@),
                headers_view(ra.headers@),
            )
            &&& changes_view(rd.headers_changed@) == changed_headers(
                headers_view(ra.headers@),
                headers_view(rb.headers@),
            )
            &&& line_diff_view(rd.body_diff) == unified_diff_spec(ra.body@, rb.body@)
        },
        d.timing_delta.latency_delta_ms == latency_of(b.metrics) - latency_of(a.metrics),
        d.timing_delta.ttfb_delta_ms == ttfb_of(b.metrics) - ttfb_of(a.metrics),
        d.timing_delta.size_delta_bytes == size_of_response(b.metrics) - size_of_response(
            a.metrics,
        ),
{
    let ma = chars_of(a.request.method.as_str());
    let mb = chars_of(b.request.method.as_str());
    let method_changed = !eq_chars(&ma, &mb);
    let uri_diff = unified_diff(a.request.uri.as_str(), b.request.uri.as_str());
    let (headers_added, headers_removed, headers_changed) = diff_headers(
        &a.request.headers,
        &b.request.headers,
    );
    let body_diff = unified_diff(a.request.body.as_str(), b.request.body.as_str());
    let request_diff = ContextDiff {
        method_changed,
        uri_diff,
        headers_added,
        headers_removed,
        headers_changed,
        body_diff,
    };
    let response_diff = match (&a.response, &b.response) {
        (Some(ra), Some(rb)) => {
            let status_changed = if ra.status != rb.status {
                Some((ra.status, rb.status))
            } else {
                None
            };
            let (headers_added, headers_removed, headers_changed) = diff_headers(
                &ra.headers,
                &rb.headers,
            );
            let body_diff = unified_diff(ra.body.as_str(), rb.body.as_str());
            Some(
                ResponseDiff {
                    status_changed,
                    headers_added,
                    headers_removed,
                    headers_changed,
                    body_diff,
                },
            )
        },
        _ => None,
    };
    let (la, ta, sa): (i64, i64, i64) = match &a.metrics {
        Some(m) => (m.latency_ms as i64, m.ttfb_ms as i64, m.response_size_bytes as i64),
        None => (0, 0, 0),
    };
    let (lb, tb, sb): (i64, i64, i64) = match &b.metrics {
        Some(m) => (m.latency_ms as i64, m.ttfb_ms as i64, m.response_size_bytes as i64),
        None => (0, 0, 0),
    };
    let timing_delta = TimingDelta {
        latency_delta_ms: lb - la,
        ttfb_delta_ms: tb - ta,
        size_delta_bytes: sb - sa,
    };
    SessionDiff { request_diff, response_diff, timing_delta }
}

/// Header names in a list are distinct.
pub open spec fn distinct_names(h: Seq<(Seq<char>, Seq<char>)>) -> bool {
    forall|i: int, j: int| 0 <= i < j < h.len() ==> h[i].0 != h[j].0
}

proof fn lemma_lookup_found(h: Seq<(Seq<char>, Seq<char>)>, k: Seq<char>, i: int)
    requires
        0 <= i < h.len(),
        h[i].0 == k,
    ensures
        lookup(h, k) is Some,
    decreases i,
{
    if i > 0 && h[0].0 != k {
        lemma_lookup_found(h.subrange(1, h.len() as int), k, i - 1);
    }
}

proof fn lemma_lookup_first(h: Seq<(Seq<char>, Seq<char>)>, k: Seq<char>, i: int)
    requires
        0 <= i < h.len(),
        h[i].0 == k,
        forall|j: int| 0 <= j < i ==> h[j].0 != k,
    ensures
        lookup(h, k) == Some(h[i].1),
    decreases i,
{
    if i > 0 {
        lemma_lookup_first(h.subrange(1, h.len() as int), k, i - 1);
    }
}

proof fn lemma_self_diff(h: Seq<(Seq<char>, Seq<char>)>, n: int)
    requires
        0 <= n <= h.len(),
        distinct_names(h),
    ensures
        changed_headers(h, h.subrange(0, n)) == Seq::<(Seq<char>, Seq<char>, Seq<char>)>::empty(),
        added_headers(h, h.subrange(0, n)) == Seq::<Seq<char>>::empty(),
    decreases n,
{
    if n > 0 {
        lemma_self_diff(h, n - 1);
        let b = h.subrange(0, n);
        assert(b.subrange(0, n - 1) =~= h.subrange(0, n - 1));
        lemma_lookup_first(h, h[n - 1].0, n - 1);
    }
}

/// Comparing a text or a header list with itself shows no change: equal
/// texts have no line diff, whatever the diff engine would say, and a header
/// list with distinct names has nothing added, removed or changed.
pub proof fn law_identical_inputs_have_empty_diff(x: Seq<char>, h: Seq<(Seq<char>, Seq<char>)>)
    requires
        distinct_names(h),
    ensures
        unified_diff_spec(x, x) is None,
        changed_headers(h, h) == Seq::<(Seq<char>, Seq<char>, Seq<char>)>::empty(),
        added_headers(h, h) == Seq::<Seq<char>>::empty(),
{
    lemma_self_diff(h, h.len() as int);
    assert(h.subrange(0, h.len() as int) =~= h);
}

/// A header present only in the second list is reported as added, and one
/// present only in the first as removed.
pub proof fn law_new_header_is_added(
    a: Seq<(Seq<char>, Seq<char>)>,
    b: Seq<(Seq<char>, Seq<char>)>,
    i: int,
)
    requires
        0 <= i < b.len(),
        lookup(a, b[i].0) is None,
    ensures
        added_headers(a, b).contains(header_line(b[i].0, b[i].1)),
    decreases b.len(),
{
    let prev = b.subrange(0, b.len() - 1);
    if i == b.len() - 1 {
        assert(added_headers(a, b).last() == header_line(b[i].0, b[i].1));
    } else {
        assert(prev[i] == b[i]);
        law_new_header_is_added(a, prev, i);
        let k = choose|k: int| 0 <= k < added_headers(a, prev).len() && added_headers(a, prev)[k] == header_line(b[i].0, b[i].1);
        assert(added_headers(a, b)[k] == added_headers(a, prev)[k]);
    }
}


proof fn lemma_lookup_some(h: Seq<(Seq<char>, Seq<char>)>, k: Seq<char>, v: Seq<char>)
    requires
        distinct_names(h),
    ensures
        lookup(h, k) == Some(v) <==> exists|i: int| 0 <= i < h.len() && #[trigger] h[i] == (k, v),
    decreases h.len(),
{
    if lookup(h, k) == Some(v) {
        lemma_lookup_witness(h, k);
    }
    if exists|i: int| 0 <= i < h.len() && #[trigger] h[i] == (k, v) {
        let i = choose|i: int| 0 <= i < h.len() && #[trigger] h[i] == (k, v);
        assert forall|j: int| 0 <= j < i implies h[j].0 != k by {
            assert(h[j].0 != h[i].0);
        }
        lemma_lookup_first(h, k, i);
    }
}

proof fn lemma_lookup_witness(h: Seq<(Seq<char>, Seq<char>)>, k: Seq<char>)
    requires
        lookup(h, k) is Some,
    ensures
        exists|i: int| 0 <= i < h.len() && #[trigger] h[i] == (k, lookup(h, k)->0),
    decreases h.len(),
{
    if h[0].0 == k {
        assert(h[0] == (k, lookup(h, k)->0));
    } else {
        let t = h.subrange(1, h.len() as int);
        lemma_lookup_witness(t, k);
        let i = choose|i: int| 0 <= i < t.len() && #[trigger] t[i] == (k, lookup(t, k)->0);
        assert(h[i + 1] == t[i]);
    }
}

proof fn lemma_changed_contains(
    a: Seq<(Seq<char>, Seq<char>)>,
    b: Seq<(Seq<char>, Seq<char>)>,
    k: Seq<char>,
    x: Seq<char>,
    y: Seq<char>,
)
    ensures
        changed_headers(a, b).contains((k, x, y)) <==> (lookup(a, k) == Some(x) && x != y && exists|
            i: int,
        | 0 <= i < b.len() && #[trigger] b[i] == (k, y)),
    decreases b.len(),
{
    if b.len() > 0 {
        let prev = b.subrange(0, b.len() - 1);
        lemma_changed_contains(a, prev, k, x, y);
        let e = b[b.len() - 1];
        let cp = changed_headers(a, prev);
        let cb = changed_headers(a, b);
        if exists|i: int| 0 <= i < prev.len() && #[trigger] prev[i] == (k, y) {
            let i = choose|i: int| 0 <= i < prev.len() && #[trigger] prev[i] == (k, y);
            assert(b[i] == prev[i]);
        }
        if exists|i: int| 0 <= i < b.len() && #[trigger] b[i] == (k, y) {
            let i = choose|i: int| 0 <= i < b.len() && #[trigger] b[i] == (k, y);
            if i < b.len() - 1 {
                assert(prev[i] == b[i]);
            }
        }
        if cb != cp {
            assert(cb == cp.push((e.0, lookup(a, e.0)->0, e.1)));
            if cb.contains((k, x, y)) {
                let j = choose|j: int| 0 <= j < cb.len() && cb[j] == (k, x, y);
                if j < cp.len() {
                    assert(cp[j] == cb[j]);
                } else {
                    assert(b[b.len() - 1] == (k, y));
                }
            }
            if cp.contains((k, x, y)) {
                let j = choose|j: int| 0 <= j < cp.len() && cp[j] == (k, x, y);
                assert(cb[j] == cp[j]);
            }
            if lookup(a, k) == Some(x) && x != y && e == (k, y) {
                assert(cb[cb.len() - 1] == (k, x, y));
            }
        }
    }
}

/// Swapping the two exchanges mirrors their diff: the removed headers of
/// one order are the added headers of the other (both are `added_headers`
/// of the lists the other way round), a header changed from `x` to `y` in
/// one order is changed from `y` to `x` in the other (for header lists with
/// distinct names), and every timing delta changes sign.
pub proof fn law_swapped_exchanges_mirror_the_diff(
    ha: Seq<(Seq<char>, Seq<char>)>,
    hb: Seq<(Seq<char>, Seq<char>)>,
    k: Seq<char>,
    x: Seq<char>,
    y: Seq<char>,
    ma: Option<InspectionMetrics>,
    mb: Option<InspectionMetrics>,
)
    requires
        distinct_names(ha),
        distinct_names(hb),
    ensures
        changed_headers(ha, hb).contains((k, x, y)) == changed_headers(hb, ha).contains((k, y, x)),
        latency_of(ma) - latency_of(mb) == -(latency_of(mb) - latency_of(ma)),
        ttfb_of(ma) - ttfb_of(mb) == -(ttfb_of(mb) - ttfb_of(ma)),
        size_of_response(ma) - size_of_response(mb) == -(size_of_response(mb) - size_of_response(ma)),
{
    lemma_changed_contains(ha, hb, k, x, y);
    lemma_changed_contains(hb, ha, k, y, x);
    lemma_lookup_some(ha, k, x);
    lemma_lookup_some(hb, k, y);
}

} // verus!

//! Traffic dashboards over the recorded exchanges: protocol and source
//! labels, the protocol-metrics aggregate, stream concurrency, and the
//! per-connection view.
use vstd::prelude::*;
use crate::exchange::{Exchange, SessionSource};
use crate::forward::{WireProtocol, ApplicationProtocol, BodyMode};
use crate::order::{
    is_tally, tally, SortKey, key_view, keys_view, is_sorted_perm, sorted_positions, perm_view,
    is_sorted_perm_dir, sorted_positions_by,
};
use crate::text::{
    chars_of, string_of, eq_str, lower, lower_vec, eq_chars, lower_char, before_first, strs_view,
    find_char, slice_vec,
};
use crate::forward::opt_str;

verus! {

// ───────────────────────── labels ─────────────────────────

/// How the capture source is shown.
pub open spec fn source_label_spec(s: SessionSource) -> Seq<char> {
    match s {
        SessionSource::Proxy => "Proxy"@,
        SessionSource::AdminForward => "Compose"@,
        SessionSource::Playback => "Replay"@,
        SessionSource::Imported => "Imported"@,
    }
}

/// The capture source label.
pub fn source_label(source: SessionSource) -> (r: String)
    ensures
        r@ == source_label_spec(source),
{
    let s: &str = match source {
        SessionSource::Proxy => "Proxy",
        SessionSource::AdminForward => "Compose",
        SessionSource::Playback => "Replay",
        SessionSource::Imported => "Imported",
    };
    string_of(&chars_of(s))
}

/// The client-to-proxy protocol of an exchange: from its protocol identity
/// when captured; otherwise its recorded downstream label, except that an
/// admin-composed exchange (or one without a label) shows the upstream
/// protocol, HTTP/1.1 by default.
pub open spec fn downstream_label_spec(e: Exchange) -> Seq<char> {
    match e.protocol_context {
        Some(ctx) => ctx.downstream.label_spec(),
        None => match e.downstream_protocol {
            Some(l) if l@ != "admin"@ => l@,
            _ => match e.metrics {
                Some(m) if m.protocol is Some => m.protocol->0@,
                _ => "HTTP/1.1"@,
            },
        },
    }
}

/// The downstream protocol label of an exchange.
pub fn downstream_protocol_label(ex: &Exchange) -> (r: String)
    ensures
        r@ == downstream_label_spec(*ex),
{
    if let Some(ctx) = &ex.protocol_context {
        return string_of(&chars_of(ctx.downstream.label()));
    }
    if let Some(l) = &ex.downstream_protocol {
        if !eq_str(&chars_of(l.as_str()), "admin") {
            return l.clone();
        }
    }
    if let Some(m) = &ex.metrics {
        if let Some(p) = &m.protocol {
            return p.clone();
        }
    }
    string_of(&chars_of("HTTP/1.1"))
}

/// The method is `WS`, ignoring ASCII case.
pub open spec fn is_ws_method(m: Seq<char>) -> bool {
    lower(m) == "ws"@
}

/// The traffic family of an exchange: gRPC, WebSocket, Tunnel or HTTP.
pub open spec fn application_label_spec(e: Exchange) -> Seq<char> {
    match e.protocol_context {
        Some(ctx) => if ctx.application == ApplicationProtocol::Grpc {
            "gRPC"@
        } else if ctx.application == ApplicationProtocol::Http && ctx.downstream
            == WireProtocol::WebSocket {
            "WebSocket"@
        } else if ctx.application == ApplicationProtocol::Http && ctx.body_mode == BodyMode::Tunnel {
            "Tunnel"@
        } else {
            "HTTP"@
        },
        None => if is_ws_method(e.request.method@) {
            "WebSocket"@
        } else if e.inspector_data matches Some(d) && d.grpc is Some {
            "gRPC"@
        } else if e.downstream_protocol matches Some(l) && l@ == "SOCKS5"@ {
            "Tunnel"@
        } else {
            "HTTP"@
        },
    }
}

fn is_ws_method_exec(m: &str) -> (r: bool)
    ensures
        r == is_ws_method(m@),
{
    eq_str(&lower_vec(&chars_of(m)), "ws")
}

/// The application protocol label of an exchange.
pub fn application_protocol_label(ex: &Exchange) -> (r: String)
    ensures
        r@ == application_label_spec(*ex),
{
    let label: &str = if let Some(ctx) = &ex.protocol_context {
        if ctx.application == ApplicationProtocol::Grpc {
            "gRPC"
        } else if ctx.application == ApplicationProtocol::Http && ctx.downstream
            == WireProtocol::WebSocket {
            "WebSocket"
        } else if ctx.application == ApplicationProtocol::Http && ctx.body_mode == BodyMode::Tunnel {
            "Tunnel"
        } else {
            "HTTP"
        }
    } else if is_ws_method_exec(ex.request.method.as_str()) {
        "WebSocket"
    } else if match &ex.inspector_data {
        Some(d) => d.grpc.is_some(),
        None => false,
    } {
        "gRPC"
    } else if match &ex.downstream_protocol {
        Some(l) => eq_str(&chars_of(l.as_str()), "SOCKS5"),
        None => false,
    } {
        "Tunnel"
    } else {
        "HTTP"
    };
    string_of(&chars_of(label))
}

/// The status code shown for an exchange: the metric, else the response
/// status, else 0.
pub open spec fn status_code_of(e: Exchange) -> u16 {
    match e.metrics {
        Some(m) => m.status_code,
        None => match e.response {
            Some(r) => r.status,
            None => 0,
        },
    }
}

/// The status class label of a status code.
pub open spec fn status_class_spec(code: u16) -> Seq<char> {
    if code == 0 {
        "pending"@
    } else if 200 <= code <= 299 {
        "2xx"@
    } else if 300 <= code <= 399 {
        "3xx"@
    } else if 400 <= code <= 499 {
        "4xx"@
    } else if 500 <= code <= 599 {
        "5xx"@
    } else {
        "Others"@
    }
}

fn status_code_exec(e: &Exchange) -> (r: u16)
    ensures
        r == status_code_of(*e),
{
    match &e.metrics {
        Some(m) => m.status_code,
        None => match &e.response {
            Some(r) => r.status,
            None => 0,
        },
    }
}

fn status_class(code: u16) -> (r: &'static str)
    ensures
        r@ == status_class_spec(code),
{
    if code == 0 {
        "pending"
    } else if 200 <= code && code <= 299 {
        "2xx"
    } else if 300 <= code && code <= 399 {
        "3xx"
    } else if 400 <= code && code <= 499 {
        "4xx"
    } else if 500 <= code && code <= 599 {
        "5xx"
    } else {
        "Others"
    }
}

// ───────────────────────── protocol metrics ─────────────────────────

/// A label with its number of occurrences.
#[derive(Debug, Clone)]
pub struct LabelCount {
    pub label: String,
    pub count: usize,
}

/// Protocol dashboard aggregates over a set of exchanges.
#[derive(Debug)]
pub struct ProtocolMetrics {
    pub total_exchanges: usize,
    pub connections: usize,
    pub websockets: usize,
    pub grpc_calls: usize,
    /// Upstream (proxy to origin) protocol mix.
    pub protocol_mix: Vec<LabelCount>,
    /// Downstream (client to proxy) protocol mix.
    pub downstream_mix: Vec<LabelCount>,
    /// Traffic family mix (HTTP, WebSocket, gRPC, tunnel).
    pub application_mix: Vec<LabelCount>,
    /// Capture source mix.
    pub source_mix: Vec<LabelCount>,
    /// Status-class distribution.
    pub status_classes: Vec<LabelCount>,
    /// gRPC status-code distribution.
    pub grpc_status: Vec<LabelCount>,
    pub total_bytes: u64,
    pub latency_p50_ms: u64,
    pub latency_p95_ms: u64,
    pub latency_max_ms: u64,
}

/// The upstream protocols recorded in the exchanges' metrics, in order.
pub open spec fn upstream_labels(es: Seq<Exchange>) -> Seq<Seq<char>>
    decreases es.len(),
{
    if es.len() == 0 {
        Seq::empty()
    } else {
        let prev = upstream_labels(es.drop_last());
        match upstream_of(es.last()) {
            Some(l) => prev.push(l),
            None => prev,
        }
    }
}

/// The captured gRPC status codes, in order.
pub open spec fn grpc_labels(es: Seq<Exchange>) -> Seq<Seq<char>>
    decreases es.len(),
{
    if es.len() == 0 {
        Seq::empty()
    } else {
        let prev = grpc_labels(es.drop_last());
        match grpc_status_of(es.last()) {
            Some(l) => prev.push(l),
            None => prev,
        }
    }
}

/// The captured connection ids, in order.
pub open spec fn connection_labels(es: Seq<Exchange>) -> Seq<Seq<char>>
    decreases es.len(),
{
    if es.len() == 0 {
        Seq::empty()
    } else {
        let prev = connection_labels(es.drop_last());
        match connection_of(es.last()) {
            Some(l) => prev.push(l),
            None => prev,
        }
    }
}

/// The number of WebSocket exchanges.
pub open spec fn ws_count(es: Seq<Exchange>) -> nat
    decreases es.len(),
{
    if es.len() == 0 {
        0
    } else {
        ws_count(es.drop_last()) + if is_ws_method(es.last().request.method@) {
            1nat
        } else {
            0nat
        }
    }
}

/// The number of gRPC exchanges.
pub open spec fn grpc_count(es: Seq<Exchange>) -> nat
    decreases es.len(),
{
    if es.len() == 0 {
        0
    } else {
        grpc_count(es.drop_last()) + if is_grpc(es.last()) {
            1nat
        } else {
            0nat
        }
    }
}

/// The recorded latencies, in order.
pub open spec fn latencies_of(es: Seq<Exchange>) -> Seq<int>
    decreases es.len(),
{
    if es.len() == 0 {
        Seq::empty()
    } else {
        let prev = latencies_of(es.drop_last());
        match es.last().metrics {
            Some(m) => prev.push(m.latency_ms as int),
            None => prev,
        }
    }
}

/// Request and response bytes of the exchanges with metrics.
pub open spec fn bytes_of(es: Seq<Exchange>) -> int
    decreases es.len(),
{
    if es.len() == 0 {
        0
    } else {
        bytes_of(es.drop_last()) + match es.last().metrics {
            Some(m) => m.request_size_bytes as int + m.response_size_bytes as int,
            None => 0,
        }
    }
}

pub open spec fn upstream_of(e: Exchange) -> Option<Seq<char>> {
    match e.metrics {
        Some(m) => match m.protocol {
            Some(p) => Some(p@),
            None => None,
        },
        None => None,
    }
}

pub open spec fn grpc_status_of(e: Exchange) -> Option<Seq<char>> {
    match e.inspector_data {
        Some(d) => match d.grpc {
            Some(g) => match g.grpc_status {
                Some(s) => Some(s@),
                None => None,
            },
            None => None,
        },
        None => None,
    }
}

pub open spec fn connection_of(e: Exchange) -> Option<Seq<char>> {
    match e.connection_id {
        Some(c) => Some(c@),
        None => None,
    }
}

pub open spec fn is_grpc(e: Exchange) -> bool {
    e.inspector_data matches Some(d) && d.grpc is Some
}

/// Sort keys of a tally for a mix: most frequent first, then by label.
pub open spec fn mix_keys(t: Seq<(Seq<char>, nat)>) -> Seq<(int, Seq<char>)> {
    t.map_values(|e: (Seq<char>, nat)| (-(e.1 as int), e.0))
}

/// `v` is the mix of `labels`: each distinct label with its count, most
/// frequent first and equally frequent labels in label order.
pub open spec fn is_mix(labels: Seq<Seq<char>>, v: Seq<(Seq<char>, nat)>) -> bool {
    exists|t: Seq<(Seq<char>, nat)>, p: Seq<int>|
        is_tally(labels, t) && is_sorted_perm(mix_keys(t), p) && v == p.map_values(|q: int| t[q])
}

pub open spec fn mix_view(v: Seq<LabelCount>) -> Seq<(Seq<char>, nat)> {
    v.map_values(|c: LabelCount| (c.label@, c.count as nat))
}

/// Sort keys of latencies.
pub open spec fn latency_keys(l: Seq<int>) -> Seq<(int, Seq<char>)> {
    l.map_values(|x: int| (x, Seq::<char>::empty()))
}

/// The rank of the 95th percentile among `n > 0` sorted values: `0.95 *
/// (n - 1)` rounded half up.
pub open spec fn p95_rank(n: nat) -> int {
    (38 * (n - 1) + 20) / 40
}

/// The percentiles of the latencies: the values at ranks `n / 2` (the
/// median rounded up), the 95th-percentile rank and the last of the sorted
/// latencies; all 0 without latencies.
pub open spec fn percentiles_ok(l: Seq<int>, p50: u64, p95: u64, max: u64) -> bool {
    if l.len() == 0 {
        p50 == 0 && p95 == 0 && max == 0
    } else {
        exists|p: Seq<int>|
            is_sorted_perm(latency_keys(l), p) && p50 == l[p[(l.len() / 2) as int]] && p95 == l[p[p95_rank(
                l.len(),
            )]] && max == l[p[l.len() - 1]]
    }
}

/// Builds a mix from a list of labels.
fn mix_of(labels: &Vec<Vec<char>>) -> (r: Vec<LabelCount>)
    ensures
        is_mix(labels@.map_values(|l: Vec<char>| l@), mix_view(r@)),
{
    let (keys, counts) = tally(labels);
    let ghost t = Seq::new(keys@.len(), |a: int| (keys@[a]@, counts@[a] as nat));
    let mut sk: Vec<SortKey> = Vec::new();
    let mut a: usize = 0;
    while a < keys.len()
        invariant
            a <= keys@.len(),
            keys@.len() == counts@.len(),
            t == Seq::new(keys@.len(), |a: int| (keys@[a]@, counts@[a] as nat)),
            sk@.len() == a,
            keys_view(sk@) == mix_keys(t).subrange(0, a as int),
        decreases keys.len() - a,
    {
        let c: i128 = counts[a] as i128;
        let key = SortKey { num: -c, text: keys[a].clone() };
        assert(key_view(key) == mix_keys(t)[a as int]);
        sk.push(key);
        a = a + 1;
        assert(keys_view(sk@) =~= mix_keys(t).subrange(0, a as int));
    }
    assert(mix_keys(t).subrange(0, a as int) =~= mix_keys(t));
    let p = sorted_positions(&sk);
    let ghost pv = perm_view(p@);
    let mut out: Vec<LabelCount> = Vec::new();
    let mut k: usize = 0;
    while k < p.len()
        invariant
            k <= p@.len(),
            keys@.len() == counts@.len(),
            t == Seq::new(keys@.len(), |a: int| (keys@[a]@, counts@[a] as nat)),
            pv == perm_view(p@),
            is_sorted_perm(mix_keys(t), pv),
            out@.len() == k,
            mix_view(out@) == pv.subrange(0, k as int).map_values(|q: int| t[q]),
        decreases p.len() - k,
    {
        assert(pv[k as int] == p@[k as int] as int);
        let q = p[k];
        let item = LabelCount { label: string_of(&keys[q]), count: counts[q] };
        let ghost old_out = mix_view(out@);
        out.push(item);
        k = k + 1;
        assert forall|w: int| 0 <= w < k implies mix_view(out@)[w] == pv.subrange(0, k as int).map_values(|q: int| t[q])[w] by {
            if w < k - 1 {
                assert(mix_view(out@)[w] == old_out[w]);
            }
        }
        assert(mix_view(out@) =~= pv.subrange(0, k as int).map_values(|q: int| t[q]));
    }
    assert(pv.subrange(0, k as int) =~= pv);
    assert(is_tally(labels@.map_values(|l: Vec<char>| l@), t));
    assert(is_sorted_perm(mix_keys(t), pv) && mix_view(out@) == pv.map_values(|q: int| t[q]));
    out
}

proof fn lemma_bytes_prefix(es: Seq<Exchange>, n: int)
    requires
        0 <= n <= es.len(),
    ensures
        0 <= bytes_of(es.subrange(0, n)) <= bytes_of(es),
    decreases es.len() - n,
{
    if n < es.len() {
        lemma_bytes_prefix(es, n + 1);
        assert(es.subrange(0, n + 1).drop_last() =~= es.subrange(0, n));
    } else {
        assert(es.subrange(0, n) =~= es);
    }
    lemma_bytes_nonneg(es.subrange(0, n));
}

proof fn lemma_bytes_nonneg(es: Seq<Exchange>)
    ensures
        bytes_of(es) >= 0,
    decreases es.len(),
{
    if es.len() > 0 {
        lemma_bytes_nonneg(es.drop_last());
    }
}

proof fn lemma_counts_bounded(es: Seq<Exchange>)
    ensures
        ws_count(es) <= es.len(),
        grpc_count(es) <= es.len(),
    decreases es.len(),
{
    if es.len() > 0 {
        lemma_counts_bounded(es.drop_last());
    }
}

fn push_label(v: &mut Vec<Vec<char>>, s: &str)
    ensures
        final(v)@.map_values(|l: Vec<char>| l@) == old(v)@.map_values(|l: Vec<char>| l@).push(s@),
{
    let ghost before = v@;
    v.push(chars_of(s));
    assert(v@.map_values(|l: Vec<char>| l@) =~= before.map_values(|l: Vec<char>| l@).push(s@));
}

/// The number of distinct labels.
pub open spec fn distinct_count(labels: Seq<Seq<char>>) -> nat {
    labels.to_set().len()
}

/// The percentiles of a list of latencies.
fn percentiles(lat: &Vec<u64>) -> (r: (u64, u64, u64))
    ensures
        percentiles_ok(lat@.map_values(|x: u64| x as int), r.0, r.1, r.2),
{
    let ghost l = lat@.map_values(|x: u64| x as int);
    let n = lat.len();
    if n == 0 {
        return (0, 0, 0);
    }
    let mut sk: Vec<SortKey> = Vec::new();
    let mut i: usize = 0;
    while i < n
        invariant
            i <= n,
            n == lat@.len(),
            l == lat@.map_values(|x: u64| x as int),
            sk@.len() == i,
            keys_view(sk@) == latency_keys(l).subrange(0, i as int),
        decreases n - i,
    {
        let key = SortKey { num: lat[i] as i128, text: Vec::new() };
        assert(key_view(key) == latency_keys(l)[i as int]);
        sk.push(key);
        i = i + 1;
        assert(keys_view(sk@) =~= latency_keys(l).subrange(0, i as int));
    }
    assert(latency_keys(l).subrange(0, n as int) =~= latency_keys(l));
    let p = sorted_positions(&sk);
    let ghost pv = perm_view(p@);
    let mid = n / 2;
    let r95: usize = ((38 * ((n - 1) as u128) + 20) / 40) as usize;
    assert(pv[mid as int] == p@[mid as int] as int);
    assert(pv[r95 as int] == p@[r95 as int] as int);
    assert(pv[n - 1] == p@[n - 1] as int);
    let p50 = lat[p[mid]];
    let p95 = lat[p[r95]];
    let max = lat[p[n - 1]];
    assert(is_sorted_perm(latency_keys(l), pv));
    (p50, p95, max)
}

/// Aggregates protocol metrics over the exchanges: counts of exchanges,
/// distinct connections, WebSocket and gRPC exchanges; the protocol, source,
/// status-class and gRPC-status mixes; total bytes; latency percentiles.
pub fn aggregate_protocol_metrics(sessions: Vec<Exchange>) -> (m: ProtocolMetrics)
    requires
        bytes_of(sessions@) <= u64::MAX,
    ensures
        m.total_exchanges == sessions@.len(),
        m.connections == distinct_count(connection_labels(sessions@)),
        m.websockets == ws_count(sessions@),
        m.grpc_calls == grpc_count(sessions@),
        is_mix(upstream_labels(sessions@), mix_view(m.protocol_mix@)),
        is_mix(sessions@.map_values(|e: Exchange| downstream_label_spec(e)), mix_view(m.downstream_mix@)),
        is_mix(sessions@.map_values(|e: Exchange| application_label_spec(e)), mix_view(m.application_mix@)),
        is_mix(sessions@.map_values(|e: Exchange| source_label_spec(e.source)), mix_view(m.source_mix@)),
        is_mix(sessions@.map_values(|e: Exchange| status_class_spec(status_code_of(e))), mix_view(m.status_classes@)),
        is_mix(grpc_labels(sessions@), mix_view(m.grpc_status@)),
        m.total_bytes == bytes_of(sessions@),
        percentiles_ok(latencies_of(sessions@), m.latency_p50_ms, m.latency_p95_ms, m.latency_max_ms),
{
    let ghost es = sessions@;
    let mut conns: Vec<Vec<char>> = Vec::new();
    let mut upstream: Vec<Vec<char>> = Vec::new();
    let mut downstream: Vec<Vec<char>> = Vec::new();
    let mut application: Vec<Vec<char>> = Vec::new();
    let mut source: Vec<Vec<char>> = Vec::new();
    let mut status: Vec<Vec<char>> = Vec::new();
    let mut grpc: Vec<Vec<char>> = Vec::new();
    let mut lat: Vec<u64> = Vec::new();
    let mut websockets: usize = 0;
    let mut grpc_calls: usize = 0;
    let mut bytes: u64 = 0;
    let mut i: usize = 0;
    while i < sessions.len()
        invariant
            i <= es.len(),
            es == sessions@,
            bytes_of(es) <= u64::MAX,
            conns@.map_values(|l: Vec<char>| l@) == connection_labels(es.subrange(0, i as int)),
            upstream@.map_values(|l: Vec<char>| l@) == upstream_labels(es.subrange(0, i as int)),
            downstream@.map_values(|l: Vec<char>| l@) == es.subrange(0, i as int).map_values(|e: Exchange| downstream_label_spec(e)),
            application@.map_values(|l: Vec<char>| l@) == es.subrange(0, i as int).map_values(|e: Exchange| application_label_spec(e)),
            source@.map_values(|l: Vec<char>| l@) == es.subrange(0, i as int).map_values(|e: Exchange| source_label_spec(e.source)),
            status@.map_values(|l: Vec<char>| l@) == es.subrange(0, i as int).map_values(|e: Exchange| status_class_spec(status_code_of(e))),
            grpc@.map_values(|l: Vec<char>| l@) == grpc_labels(es.subrange(0, i as int)),
            lat@.map_values(|x: u64| x as int) == latencies_of(es.subrange(0, i as int)),
            websockets == ws_count(es.subrange(0, i as int)),
            grpc_calls == grpc_count(es.subrange(0, i as int)),
            bytes == bytes_of(es.subrange(0, i as int)),
        decreases es.len() - i,
    {
        let ghost pre = es.subrange(0, i as int);
        let ghost next = es.subrange(0, i + 1);
        assert(next.drop_last() =~= pre);
        assert(next.last() == es[i as int]);
        proof {
            lemma_counts_bounded(pre);
            lemma_bytes_prefix(es, i + 1);
        }
        let ex = &sessions[i];
        if let Some(cid) = &ex.connection_id {
            push_label(&mut conns, cid.as_str());
        }
        if is_ws_method_exec(ex.request.method.as_str()) {
            websockets = websockets + 1;
        }
        if let Some(d) = &ex.inspector_data {
            if let Some(g) = &d.grpc {
                grpc_calls = grpc_calls + 1;
                if let Some(st) = &g.grpc_status {
                    push_label(&mut grpc, st.as_str());
                }
            }
        }
        if let Some(mx) = &ex.metrics {
            if let Some(p) = &mx.protocol {
                push_label(&mut upstream, p.as_str());
            }
        }
        push_label(&mut downstream, downstream_protocol_label(ex).as_str());
        push_label(&mut application, application_protocol_label(ex).as_str());
        push_label(&mut source, source_label(ex.source).as_str());
        push_label(&mut status, status_class(status_code_exec(ex)));
        if let Some(mx) = &ex.metrics {
            bytes = bytes + mx.request_size_bytes as u64 + mx.response_size_bytes as u64;
            let ghost before = lat@;
            lat.push(mx.latency_ms);
            assert(lat@.map_values(|x: u64| x as int) =~= before.map_values(|x: u64| x as int).push(mx.latency_ms as int));
        }
        assert(es.subrange(0, i + 1).map_values(|e: Exchange| downstream_label_spec(e)) =~= pre.map_values(|e: Exchange| downstream_label_spec(e)).push(downstream_label_spec(es[i as int])));
        assert(es.subrange(0, i + 1).map_values(|e: Exchange| application_label_spec(e)) =~= pre.map_values(|e: Exchange| application_label_spec(e)).push(application_label_spec(es[i as int])));
        assert(es.subrange(0, i + 1).map_values(|e: Exchange| source_label_spec(e.source)) =~= pre.map_values(|e: Exchange| source_label_spec(e.source)).push(source_label_spec(es[i as int].source)));
        assert(es.subrange(0, i + 1).map_values(|e: Exchange| status_class_spec(status_code_of(e))) =~= pre.map_values(|e: Exchange| status_class_spec(status_code_of(e))).push(status_class_spec(status_code_of(es[i as int]))));
        i = i + 1;
    }
    assert(es.subrange(0, es.len() as int) =~= es);
    let (ckeys, ccounts) = tally(&conns);
    proof {
        crate::order::lemma_tally_distinct(
            conns@.map_values(|l: Vec<char>| l@),
            Seq::new(ckeys@.len(), |a: int| (ckeys@[a]@, ccounts@[a] as nat)),
        );
    }
    let (p50, p95, pmax) = percentiles(&lat);
    ProtocolMetrics {
        total_exchanges: sessions.len(),
        connections: ckeys.len(),
        websockets,
        grpc_calls,
        protocol_mix: mix_of(&upstream),
        downstream_mix: mix_of(&downstream),
        application_mix: mix_of(&application),
        source_mix: mix_of(&source),
        status_classes: mix_of(&status),
        grpc_status: mix_of(&grpc),
        total_bytes: bytes,
        latency_p50_ms: p50,
        latency_p95_ms: p95,
        latency_max_ms: pmax,
    }
}

// ───────────────────────── stream concurrency ─────────────────────────

/// Interval `k` is in flight at `t`: started at or before `t` and not yet
/// ended (an end before the start counts as the start).
pub open spec fn in_flight(iv: Seq<(i64, i64)>, k: int, t: int) -> bool {
    iv[k].0 <= t && t < (if iv[k].1 >= iv[k].0 {
        iv[k].1
    } else {
        iv[k].0
    })
}

/// How many of the first `n` intervals are in flight at `t`.
pub open spec fn in_flight_count(iv: Seq<(i64, i64)>, t: int, n: nat) -> nat
    decreases n,
{
    if n == 0 {
        0
    } else {
        in_flight_count(iv, t, (n - 1) as nat) + if in_flight(iv, n - 1, t) {
            1nat
        } else {
            0nat
        }
    }
}

/// How many intervals are in flight at `t`.
pub open spec fn active_at(iv: Seq<(i64, i64)>, t: int) -> nat {
    in_flight_count(iv, t, iv.len())
}

proof fn lemma_count_monotone(iv: Seq<(i64, i64)>, t: int, u: int, n: nat)
    requires
        n <= iv.len(),
        forall|k: int| 0 <= k < n && #[trigger] in_flight(iv, k, t) ==> in_flight(iv, k, u),
    ensures
        in_flight_count(iv, t, n) <= in_flight_count(iv, u, n),
    decreases n,
{
    if n > 0 {
        lemma_count_monotone(iv, t, u, (n - 1) as nat);
    }
}

/// Among the first `n` intervals in flight at `t` (if any) one starts last.
proof fn lemma_latest_start(iv: Seq<(i64, i64)>, t: int, n: nat) -> (m: int)
    requires
        n <= iv.len(),
        in_flight_count(iv, t, n) > 0,
    ensures
        0 <= m < n,
        in_flight(iv, m, t),
        forall|k: int| 0 <= k < n && #[trigger] in_flight(iv, k, t) ==> iv[k].0 <= iv[m].0,
    decreases n,
{
    if in_flight_count(iv, t, (n - 1) as nat) == 0 {
        lemma_none_in_flight(iv, t, (n - 1) as nat);
        n - 1
    } else {
        let m0 = lemma_latest_start(iv, t, (n - 1) as nat);
        if in_flight(iv, n - 1, t) && iv[n - 1].0 > iv[m0].0 {
            n - 1
        } else {
            m0
        }
    }
}

proof fn lemma_none_in_flight(iv: Seq<(i64, i64)>, t: int, n: nat)
    requires
        n <= iv.len(),
        in_flight_count(iv, t, n) == 0,
    ensures
        forall|k: int| 0 <= k < n ==> !#[trigger] in_flight(iv, k, t),
    decreases n,
{
    if n > 0 {
        lemma_none_in_flight(iv, t, (n - 1) as nat);
    }
}

/// The most intervals in flight at any one instant.
pub fn peak_concurrency(intervals: &[(i64, i64)]) -> (r: usize)
    ensures
        forall|t: int| active_at(intervals@, t) <= r,
        exists|t: int| active_at(intervals@, t) == r,
{
    let ghost iv = intervals@;
    let n = intervals.len();
    let mut best: usize = 0;
    let ghost mut witness: int = 0;
    proof {
        if n == 0 {
            assert(active_at(iv, 0) == 0);
        }
    }
    let mut k: usize = 0;
    while k < n
        invariant
            k <= n,
            n == iv.len(),
            iv == intervals@,
            best <= n,
            forall|j: int| 0 <= j < k ==> active_at(iv, #[trigger] iv[j].0 as int) <= best,
            k > 0 ==> active_at(iv, witness) == best,
            k == 0 ==> best == 0,
        decreases n - k,
    {
        let t = intervals[k].0;
        let mut c: usize = 0;
        let mut j: usize = 0;
        while j < n
            invariant
                j <= n,
                n == iv.len(),
                iv == intervals@,
                t == iv[k as int].0,
                c == in_flight_count(iv, t as int, j as nat),
                c <= j,
            decreases n - j,
        {
            let (s, e) = intervals[j];
            let end = if e >= s {
                e
            } else {
                s
            };
            if s <= t && t < end {
                c = c + 1;
            }
            j = j + 1;
        }
        if k == 0 || c > best {
            best = c;
            proof {
                witness = t as int;
            }
        }
        k = k + 1;
    }
    proof {
        if n == 0 {
            assert(active_at(iv, 0) == 0);
            witness = 0;
        }
        assert forall|t: int| active_at(iv, t) <= best by {
            if active_at(iv, t) > 0 {
                let m = lemma_latest_start(iv, t, iv.len());
                assert forall|k: int| 0 <= k < iv.len() && #[trigger] in_flight(iv, k, t) implies in_flight(iv, k, iv[m].0 as int) by {}
                lemma_count_monotone(iv, t, iv[m].0 as int, iv.len());
                assert(active_at(iv, iv[m].0 as int) <= best);
            }
        }
        assert(active_at(iv, witness) == best);
    }
    best
}

// ───────────────────────── connections ─────────────────────────

/// One exchange of a connection, as the stream tree shows it. Times are
/// milliseconds since the Unix epoch.
#[derive(Debug, Clone)]
pub struct ConnectionStream {
    pub id: String,
    pub stream_id: Option<u64>,
    pub method: String,
    pub host: String,
    pub path: String,
    pub status: u16,
    pub ts: i64,
    /// Milliseconds from the connection's first exchange to this one.
    pub start_offset_ms: i64,
    /// The exchange's latency in milliseconds.
    pub duration_ms: u64,
}

/// One downstream connection and the exchanges multiplexed on it.
#[derive(Debug, Clone)]
pub struct ConnectionSummary {
    pub connection_id: String,
    pub downstream_protocol: Option<String>,
    /// Distinct non-empty origin hosts, in order of appearance.
    pub hosts: Vec<String>,
    pub exchange_count: usize,
    /// Number of distinct stream ids.
    pub stream_count: usize,
    pub first_seen: i64,
    pub last_seen: i64,
    /// Wall-clock span of the connection in milliseconds.
    pub span_ms: i64,
    /// Most streams in flight at the same instant.
    pub max_concurrency: usize,
    pub streams: Vec<ConnectionStream>,
}

/// A bound on recorded times (well inside what a UTC timestamp can hold).
pub open spec fn time_bound() -> int {
    0x20_0000_0000_0000
}

/// The exchange's times and latency are within the recordable range.
pub open spec fn times_in_range(e: Exchange) -> bool {
    &&& -time_bound() <= e.timestamp <= time_bound()
    &&& (e.updated_at matches Some(u) ==> -time_bound() <= u <= time_bound())
    &&& (e.metrics matches Some(m) ==> m.latency_ms <= time_bound())
}

pub open spec fn latency_or_zero(e: Exchange) -> int {
    match e.metrics {
        Some(m) => m.latency_ms as int,
        None => 0,
    }
}

pub open spec fn seen_at(e: Exchange) -> int {
    match e.updated_at {
        Some(u) => u as int,
        None => e.timestamp as int,
    }
}

/// Earliest start of the exchanges (of a non-empty list).
pub open spec fn min_ts(ms: Seq<Exchange>) -> int
    decreases ms.len(),
{
    if ms.len() <= 1 {
        ms[0].timestamp as int
    } else {
        let m = min_ts(ms.drop_last());
        if (ms.last().timestamp as int) < m {
            ms.last().timestamp as int
        } else {
            m
        }
    }
}

/// Latest activity of the exchanges (of a non-empty list).
pub open spec fn max_seen(ms: Seq<Exchange>) -> int
    decreases ms.len(),
{
    if ms.len() <= 1 {
        seen_at(ms[0])
    } else {
        let m = max_seen(ms.drop_last());
        if seen_at(ms.last()) > m {
            seen_at(ms.last())
        } else {
            m
        }
    }
}

/// The first recorded downstream protocol among the exchanges.
pub open spec fn first_downstream(ms: Seq<Exchange>) -> Option<Seq<char>>
    decreases ms.len(),
{
    if ms.len() == 0 {
        None
    } else {
        match ms[0].downstream_protocol {
            Some(d) => Some(d@),
            None => first_downstream(ms.subrange(1, ms.len() as int)),
        }
    }
}

/// Distinct non-empty hosts, in order of first appearance.
pub open spec fn distinct_hosts(ms: Seq<Exchange>) -> Seq<Seq<char>>
    decreases ms.len(),
{
    if ms.len() == 0 {
        Seq::empty()
    } else {
        let prev = distinct_hosts(ms.drop_last());
        let h = ms.last().request.host@;
        if h.len() > 0 && !prev.contains(h) {
            prev.push(h)
        } else {
            prev
        }
    }
}

/// Distinct stream ids, in order of first appearance.
pub open spec fn distinct_streams(ms: Seq<Exchange>) -> Seq<u64>
    decreases ms.len(),
{
    if ms.len() == 0 {
        Seq::empty()
    } else {
        let prev = distinct_streams(ms.drop_last());
        match ms.last().stream_id {
            Some(sid) => if prev.contains(sid) {
                prev
            } else {
                prev.push(sid)
            },
            None => prev,
        }
    }
}

/// The `[start, end)` interval of each exchange, relative to `first`.
pub open spec fn intervals_of(ms: Seq<Exchange>, first: int) -> Seq<(i64, i64)> {
    Seq::new(
        ms.len(),
        |k: int| (
            (ms[k].timestamp - first) as i64,
            (ms[k].timestamp - first + latency_or_zero(ms[k])) as i64,
        ),
    )
}

/// The latest interval end (0 when there is none).
pub open spec fn max_end(iv: Seq<(i64, i64)>) -> int
    decreases iv.len(),
{
    if iv.len() == 0 {
        0
    } else {
        let m = max_end(iv.drop_last());
        if iv.last().1 > m {
            iv.last().1 as int
        } else {
            m
        }
    }
}

/// `s` shows the exchange `e` of a connection that started at `first`.
pub open spec fn stream_ok(e: Exchange, first: int, s: ConnectionStream) -> bool {
    &&& s.id == e.id
    &&& s.stream_id == e.stream_id
    &&& s.method == e.request.method
    &&& s.host == e.request.host
    &&& s.path@ == before_first(e.request.uri@, '?')
    &&& s.status == status_code_of(e)
    &&& s.ts == e.timestamp
    &&& s.start_offset_ms == e.timestamp - first
    &&& s.duration_ms == latency_or_zero(e)
}

/// `s` summarises the (non-empty) exchanges `ms` of connection `cid`.
pub open spec fn summary_ok(cid: Seq<char>, ms: Seq<Exchange>, s: ConnectionSummary) -> bool {
    let first = min_ts(ms);
    let last = max_seen(ms);
    let iv = intervals_of(ms, first);
    &&& s.connection_id@ == cid
    &&& opt_str(s.downstream_protocol) == first_downstream(ms)
    &&& strs_view(s.hosts@) == distinct_hosts(ms)
    &&& s.exchange_count == ms.len()
    &&& s.stream_count == distinct_streams(ms).len()
    &&& s.first_seen == first
    &&& s.last_seen == last
    &&& s.span_ms == (if last - first > max_end(iv) {
        last - first
    } else {
        max_end(iv)
    })
    &&& (forall|t: int| active_at(iv, t) <= s.max_concurrency)
    &&& (exists|t: int| active_at(iv, t) == s.max_concurrency)
    &&& s.streams@.len() == ms.len()
    &&& forall|k: int| 0 <= k < ms.len() ==> stream_ok(ms[k], first, #[trigger] s.streams@[k])
}

/// The exchanges at the given positions.
pub open spec fn members_of(all: Seq<Exchange>, idx: Seq<usize>) -> Seq<Exchange> {
    idx.map_values(|i: usize| all[i as int])
}

fn contains_chars_vec(v: &Vec<String>, s: &String) -> (r: bool)
    ensures
        r == strs_view(v@).contains(s@),
{
    let t = chars_of(s.as_str());
    let mut i: usize = 0;
    while i < v.len()
        invariant
            i <= v@.len(),
            t@ == s@,
            forall|j: int| 0 <= j < i ==> strs_view(v@)[j] != s@,
        decreases v.len() - i,
    {
        if eq_chars(&chars_of(v[i].as_str()), &t) {
            assert(strs_view(v@)[i as int] == s@);
            return true;
        }
        i = i + 1;
    }
    false
}

fn contains_u64(v: &Vec<u64>, x: u64) -> (r: bool)
    ensures
        r == v@.contains(x),
{
    let mut i: usize = 0;
    while i < v.len()
        invariant
            i <= v@.len(),
            forall|j: int| 0 <= j < i ==> v@[j] != x,
        decreases v.len() - i,
    {
        if v[i] == x {
            return true;
        }
        i = i + 1;
    }
    false
}

proof fn lemma_min_ts_facts(ms: Seq<Exchange>)
    requires
        ms.len() > 0,
    ensures
        forall|q: int| 0 <= q < ms.len() ==> min_ts(ms) <= #[trigger] ms[q].timestamp,
        exists|q: int| 0 <= q < ms.len() && min_ts(ms) == #[trigger] ms[q].timestamp,
        forall|q: int| 0 <= q < ms.len() ==> seen_at(#[trigger] ms[q]) <= max_seen(ms),
        exists|q: int| 0 <= q < ms.len() && max_seen(ms) == seen_at(#[trigger] ms[q]),
    decreases ms.len(),
{
    if ms.len() > 1 {
        let pre = ms.drop_last();
        lemma_min_ts_facts(pre);
        assert forall|q: int| 0 <= q < pre.len() implies ms[q] == #[trigger] pre[q] by {}
        let a = choose|q: int| 0 <= q < pre.len() && min_ts(pre) == #[trigger] pre[q].timestamp;
        assert(ms[a] == pre[a]);
        let b = choose|q: int| 0 <= q < pre.len() && max_seen(pre) == seen_at(#[trigger] pre[q]);
        assert(ms[b] == pre[b]);
        assert forall|q: int| 0 <= q < ms.len() implies min_ts(ms) <= #[trigger] ms[q].timestamp by {
            if q < ms.len() - 1 {
                assert(ms[q] == pre[q]);
            }
        }
        assert forall|q: int| 0 <= q < ms.len() implies seen_at(#[trigger] ms[q]) <= max_seen(ms) by {
            if q < ms.len() - 1 {
                assert(ms[q] == pre[q]);
            }
        }
        if (ms.last().timestamp as int) < min_ts(pre) {
            assert(min_ts(ms) == ms[ms.len() - 1].timestamp);
        } else {
            assert(min_ts(ms) == ms[a].timestamp);
        }
        if seen_at(ms.last()) > max_seen(pre) {
            assert(max_seen(ms) == seen_at(ms[ms.len() - 1]));
        } else {
            assert(max_seen(ms) == seen_at(ms[b]));
        }
    } else {
        assert(min_ts(ms) == ms[0].timestamp);
        assert(max_seen(ms) == seen_at(ms[0]));
    }
}

/// Earliest start and latest activity of a connection's exchanges.
fn first_last(sessions: &Vec<Exchange>, midx: &Vec<usize>) -> (r: (i64, i64))
    requires
        midx@.len() > 0,
        forall|k: int| 0 <= k < midx@.len() ==> #[trigger] midx@[k] < sessions@.len(),
    ensures
        r.0 == min_ts(members_of(sessions@, midx@)),
        r.1 == max_seen(members_of(sessions@, midx@)),
{
    let ghost ms = members_of(sessions@, midx@);
    let n = midx.len();
    let mut first: i64 = sessions[midx[0]].timestamp;
    let mut last: i64 = match sessions[midx[0]].updated_at {
        Some(u) => u,
        None => sessions[midx[0]].timestamp,
    };
    let mut k: usize = 1;
    while k < n
        invariant
            1 <= k <= n,
            n == midx@.len(),
            ms == members_of(sessions@, midx@),
            forall|j: int| 0 <= j < midx@.len() ==> #[trigger] midx@[j] < sessions@.len(),
            first == min_ts(ms.subrange(0, k as int)),
            last == max_seen(ms.subrange(0, k as int)),
        decreases n - k,
    {
        let ghost pre = ms.subrange(0, k as int);
        let ghost next = ms.subrange(0, k + 1);
        assert(next.drop_last() =~= pre);
        let e = &sessions[midx[k]];
        assert(*e == ms[k as int]);
        if e.timestamp < first {
            first = e.timestamp;
        }
        let seen = match e.updated_at {
            Some(u) => u,
            None => e.timestamp,
        };
        if seen > last {
            last = seen;
        }
        k = k + 1;
    }
    assert(ms.subrange(0, n as int) =~= ms);
    (first, last)
}

/// The first recorded downstream protocol of a connection's exchanges.
fn first_downstream_exec(sessions: &Vec<Exchange>, midx: &Vec<usize>) -> (r: Option<String>)
    requires
        forall|k: int| 0 <= k < midx@.len() ==> #[trigger] midx@[k] < sessions@.len(),
    ensures
        opt_str(r) == first_downstream(members_of(sessions@, midx@)),
{
    let ghost ms = members_of(sessions@, midx@);
    let n = midx.len();
    let mut j: usize = 0;
    assert(ms.subrange(0, n as int) =~= ms);
    while j < n
        invariant
            j <= n,
            n == midx@.len(),
            ms == members_of(sessions@, midx@),
            forall|q: int| 0 <= q < midx@.len() ==> #[trigger] midx@[q] < sessions@.len(),
            first_downstream(ms) == first_downstream(ms.subrange(j as int, n as int)),
        decreases n - j,
    {
        let ghost rest = ms.subrange(j as int, n as int);
        assert(rest.subrange(1, rest.len() as int) =~= ms.subrange(j + 1, n as int));
        let e = &sessions[midx[j]];
        assert(*e == ms[j as int]);
        assert(rest[0] == ms[j as int]);
        if let Some(d) = &e.downstream_protocol {
            return Some(d.clone());
        }
        j = j + 1;
    }
    None
}

/// The distinct non-empty hosts of a connection's exchanges.
fn distinct_hosts_exec(sessions: &Vec<Exchange>, midx: &Vec<usize>) -> (r: Vec<String>)
    requires
        forall|k: int| 0 <= k < midx@.len() ==> #[trigger] midx@[k] < sessions@.len(),
    ensures
        strs_view(r@) == distinct_hosts(members_of(sessions@, midx@)),
{
    let ghost ms = members_of(sessions@, midx@);
    let n = midx.len();
    let mut hosts: Vec<String> = Vec::new();
    let mut j: usize = 0;
    while j < n
        invariant
            j <= n,
            n == midx@.len(),
            ms == members_of(sessions@, midx@),
            forall|q: int| 0 <= q < midx@.len() ==> #[trigger] midx@[q] < sessions@.len(),
            strs_view(hosts@) == distinct_hosts(ms.subrange(0, j as int)),
        decreases n - j,
    {
        let ghost pre = ms.subrange(0, j as int);
        let ghost next = ms.subrange(0, j + 1);
        assert(next.drop_last() =~= pre);
        let e = &sessions[midx[j]];
        assert(*e == ms[j as int]);
        let h = &e.request.host;
        if chars_of(h.as_str()).len() > 0 && !contains_chars_vec(&hosts, h) {
            let ghost before = hosts@;
            hosts.push(h.clone());
            assert(strs_view(hosts@) =~= strs_view(before).push(h@));
        }
        j = j + 1;
    }
    assert(ms.subrange(0, n as int) =~= ms);
    hosts
}

/// The distinct stream ids of a connection's exchanges.
fn distinct_streams_exec(sessions: &Vec<Exchange>, midx: &Vec<usize>) -> (r: Vec<u64>)
    requires
        forall|k: int| 0 <= k < midx@.len() ==> #[trigger] midx@[k] < sessions@.len(),
    ensures
        r@ == distinct_streams(members_of(sessions@, midx@)),
{
    let ghost ms = members_of(sessions@, midx@);
    let n = midx.len();
    let mut ids: Vec<u64> = Vec::new();
    let mut j: usize = 0;
    while j < n
        invariant
            j <= n,
            n == midx@.len(),
            ms == members_of(sessions@, midx@),
            forall|q: int| 0 <= q < midx@.len() ==> #[trigger] midx@[q] < sessions@.len(),
            ids@ == distinct_streams(ms.subrange(0, j as int)),
        decreases n - j,
    {
        let ghost pre = ms.subrange(0, j as int);
        let ghost next = ms.subrange(0, j + 1);
        assert(next.drop_last() =~= pre);
        let e = &sessions[midx[j]];
        assert(*e == ms[j as int]);
        if let Some(sid) = e.stream_id {
            if !contains_u64(&ids, sid) {
                ids.push(sid);
            }
        }
        j = j + 1;
    }
    assert(ms.subrange(0, n as int) =~= ms);
    ids
}

/// The path of a request target: everything before the query.
fn path_before_query(uri: &String) -> (r: String)
    ensures
        r@ == before_first(uri@, '?'),
{
    let u = chars_of(uri.as_str());
    match find_char(&u, '?') {
        Some(q) => string_of(&slice_vec(&u, 0, q)),
        None => string_of(&u),
    }
}

/// The streams of a connection and their intervals.
fn streams_of(sessions: &Vec<Exchange>, midx: &Vec<usize>, first: i64) -> (r: (Vec<ConnectionStream>, Vec<(i64, i64)>))
    requires
        forall|k: int| 0 <= k < midx@.len() ==> #[trigger] midx@[k] < sessions@.len(),
        forall|i: int| 0 <= i < sessions@.len() ==> times_in_range(#[trigger] sessions@[i]),
        forall|q: int| 0 <= q < midx@.len() ==> first <= #[trigger] members_of(sessions@, midx@)[q].timestamp,
        -time_bound() <= first <= time_bound(),
    ensures
        r.0@.len() == midx@.len(),
        forall|q: int| 0 <= q < midx@.len() ==> stream_ok(members_of(sessions@, midx@)[q], first as int, #[trigger] r.0@[q]),
        r.1@ == intervals_of(members_of(sessions@, midx@), first as int),
{
    let ghost ms = members_of(sessions@, midx@);
    let n = midx.len();
    let mut streams: Vec<ConnectionStream> = Vec::new();
    let mut intervals: Vec<(i64, i64)> = Vec::new();
    let mut j: usize = 0;
    while j < n
        invariant
            j <= n,
            n == midx@.len(),
            ms == members_of(sessions@, midx@),
            forall|q: int| 0 <= q < midx@.len() ==> #[trigger] midx@[q] < sessions@.len(),
            forall|i: int| 0 <= i < sessions@.len() ==> times_in_range(#[trigger] sessions@[i]),
            forall|q: int| 0 <= q < midx@.len() ==> first <= #[trigger] ms[q].timestamp,
            -time_bound() <= first <= time_bound(),
            streams@.len() == j,
            forall|q: int| 0 <= q < j ==> stream_ok(ms[q], first as int, #[trigger] streams@[q]),
            intervals@ == intervals_of(ms, first as int).subrange(0, j as int),
        decreases n - j,
    {
        let e = &sessions[midx[j]];
        assert(*e == ms[j as int]);
        assert(times_in_range(sessions@[midx@[j as int] as int]));
        assert(first <= ms[j as int].timestamp);
        let start: i64 = e.timestamp - first;
        let duration: u64 = match &e.metrics {
            Some(m) => m.latency_ms,
            None => 0,
        };
        let end: i64 = start + duration as i64;
        let status: u16 = match &e.metrics {
            Some(m) => m.status_code,
            None => match &e.response {
                Some(r) => r.status,
                None => 0,
            },
        };
        let st = ConnectionStream {
            id: e.id.clone(),
            stream_id: e.stream_id,
            method: e.request.method.clone(),
            host: e.request.host.clone(),
            path: path_before_query(&e.request.uri),
            status,
            ts: e.timestamp,
            start_offset_ms: start,
            duration_ms: duration,
        };
        let ghost old_streams = streams@;
        streams.push(st);
        intervals.push((start, end));
        j = j + 1;
        assert forall|q: int| 0 <= q < j implies stream_ok(ms[q], first as int, #[trigger] streams@[q]) by {
            if q < j - 1 {
                assert(streams@[q] == old_streams[q]);
            }
        }
        assert(intervals@ =~= intervals_of(ms, first as int).subrange(0, j as int));
    }
    assert(intervals_of(ms, first as int).subrange(0, n as int) =~= intervals_of(ms, first as int));
    (streams, intervals)
}

fn max_end_exec(iv: &Vec<(i64, i64)>) -> (r: i64)
    ensures
        r == max_end(iv@),
{
    let mut m: i64 = 0;
    let mut j: usize = 0;
    while j < iv.len()
        invariant
            j <= iv@.len(),
            m == max_end(iv@.subrange(0, j as int)),
        decreases iv.len() - j,
    {
        let ghost pre = iv@.subrange(0, j as int);
        assert(iv@.subrange(0, j + 1).drop_last() =~= pre);
        if iv[j].1 > m {
            m = iv[j].1;
        }
        j = j + 1;
    }
    assert(iv@.subrange(0, iv@.len() as int) =~= iv@);
    m
}

/// Summarises the exchanges of one connection, given in stream order.
fn summarize(sessions: &Vec<Exchange>, midx: &Vec<usize>, cid: &String) -> (r: ConnectionSummary)
    requires
        midx@.len() > 0,
        forall|k: int| 0 <= k < midx@.len() ==> #[trigger] midx@[k] < sessions@.len(),
        forall|i: int| 0 <= i < sessions@.len() ==> times_in_range(#[trigger] sessions@[i]),
    ensures
        summary_ok(cid@, members_of(sessions@, midx@), r),
{
    let ghost ms = members_of(sessions@, midx@);
    let (first, last) = first_last(sessions, midx);
    proof {
        lemma_min_ts_facts(ms);
        let a = choose|q: int| 0 <= q < ms.len() && min_ts(ms) == #[trigger] ms[q].timestamp;
        assert(times_in_range(sessions@[midx@[a] as int]));
        let b = choose|q: int| 0 <= q < ms.len() && max_seen(ms) == seen_at(#[trigger] ms[q]);
        assert(times_in_range(sessions@[midx@[b] as int]));
    }
    let (streams, intervals) = streams_of(sessions, midx, first);
    let end = max_end_exec(&intervals);
    let elapsed: i64 = last - first;
    let span = if elapsed > end {
        elapsed
    } else {
        end
    };
    let ids = distinct_streams_exec(sessions, midx);
    ConnectionSummary {
        connection_id: cid.clone(),
        downstream_protocol: first_downstream_exec(sessions, midx),
        hosts: distinct_hosts_exec(sessions, midx),
        exchange_count: midx.len(),
        stream_count: ids.len(),
        first_seen: first,
        last_seen: last,
        span_ms: span,
        max_concurrency: peak_concurrency(intervals.as_slice()),
        streams,
    }
}

/// Distinct labels in order of first appearance.
pub open spec fn distinct_in_order(labels: Seq<Seq<char>>) -> Seq<Seq<char>>
    decreases labels.len(),
{
    if labels.len() == 0 {
        Seq::empty()
    } else {
        let prev = distinct_in_order(labels.drop_last());
        if prev.contains(labels.last()) {
            prev
        } else {
            prev.push(labels.last())
        }
    }
}

/// The positions (among the first `n`) of the exchanges on connection `cid`.
pub open spec fn conn_members(es: Seq<Exchange>, cid: Seq<char>, n: nat) -> Seq<int>
    decreases n,
{
    if n == 0 {
        Seq::empty()
    } else {
        let prev = conn_members(es, cid, (n - 1) as nat);
        if connection_of(es[n - 1]) == Some(cid) {
            prev.push(n - 1)
        } else {
            prev
        }
    }
}

/// Stream-order keys of the given exchanges (no stream id counts as 0).
pub open spec fn stream_keys(es: Seq<Exchange>, m: Seq<int>) -> Seq<(int, Seq<char>)> {
    m.map_values(
        |i: int| (
            match es[i].stream_id {
                Some(s) => s as int,
                None => 0,
            },
            Seq::<char>::empty(),
        ),
    )
}

/// `s` summarises connection `cid`: its exchanges stably sorted by stream id.
pub open spec fn conn_ok(es: Seq<Exchange>, cid: Seq<char>, s: ConnectionSummary) -> bool {
    let m = conn_members(es, cid, es.len());
    exists|p: Seq<int>|
        is_sorted_perm(stream_keys(es, m), p) && summary_ok(
            cid,
            p.map_values(|q: int| es[m[q]]),
            s,
        )
}

/// Sort keys of summaries by latest activity.
pub open spec fn last_seen_keys(u: Seq<ConnectionSummary>) -> Seq<(int, Seq<char>)> {
    u.map_values(|c: ConnectionSummary| (c.last_seen as int, Seq::<char>::empty()))
}

/// `r` lists the summaries `u` of the connections (in first-seen order),
/// reordered by `p` so that the most recently active comes first.
pub open spec fn connections_listed(
    es: Seq<Exchange>,
    u: Seq<ConnectionSummary>,
    p: Seq<int>,
    r: Seq<ConnectionSummary>,
) -> bool {
    let order = distinct_in_order(connection_labels(es));
    &&& u.len() == order.len()
    &&& forall|a: int| 0 <= a < u.len() ==> conn_ok(es, order[a], #[trigger] u[a])
    &&& is_sorted_perm_dir(last_seen_keys(u), p, true)
    &&& r == p.map_values(|q: int| u[q])
}

fn connection_order(sessions: &Vec<Exchange>) -> (r: Vec<String>)
    ensures
        strs_view(r@) == distinct_in_order(connection_labels(sessions@)),
{
    let ghost es = sessions@;
    let mut order: Vec<String> = Vec::new();
    let mut i: usize = 0;
    while i < sessions.len()
        invariant
            i <= es.len(),
            es == sessions@,
            strs_view(order@) == distinct_in_order(connection_labels(es.subrange(0, i as int))),
        decreases es.len() - i,
    {
        let ghost pre = es.subrange(0, i as int);
        let ghost next = es.subrange(0, i + 1);
        assert(next.drop_last() =~= pre);
        assert(next.last() == es[i as int]);
        if let Some(c) = &sessions[i].connection_id {
            let ghost labels = connection_labels(next);
            assert(labels.drop_last() == connection_labels(pre));
            if !contains_chars_vec(&order, c) {
                let ghost before = order@;
                order.push(c.clone());
                assert(strs_view(order@) =~= strs_view(before).push(c@));
            }
        }
        i = i + 1;
    }
    assert(es.subrange(0, es.len() as int) =~= es);
    order
}

fn members_positions(sessions: &Vec<Exchange>, cid: &String) -> (r: Vec<usize>)
    ensures
        perm_view(r@) == conn_members(sessions@, cid@, sessions@.len()),
        forall|k: int| 0 <= k < r@.len() ==> #[trigger] r@[k] < sessions@.len(),
{
    let target = chars_of(cid.as_str());
    let mut r: Vec<usize> = Vec::new();
    let mut i: usize = 0;
    while i < sessions.len()
        invariant
            i <= sessions@.len(),
            target@ == cid@,
            perm_view(r@) == conn_members(sessions@, cid@, i as nat),
            forall|k: int| 0 <= k < r@.len() ==> #[trigger] r@[k] < i,
        decreases sessions.len() - i,
    {
        let is_member = match &sessions[i].connection_id {
            Some(c) => eq_chars(&chars_of(c.as_str()), &target),
            None => false,
        };
        if is_member {
            r.push(i);
            assert(perm_view(r@) =~= conn_members(sessions@, cid@, i as nat).push(i as int));
        }
        i = i + 1;
    }
    r
}

/// Groups exchanges by downstream connection (exchanges without a captured
/// connection are left out): one summary per connection, its exchanges in
/// stream-id order, most recently active connection first.
pub fn aggregate_connections(sessions: Vec<Exchange>) -> (r: Vec<ConnectionSummary>)
    requires
        forall|i: int| 0 <= i < sessions@.len() ==> times_in_range(#[trigger] sessions@[i]),
    ensures
        exists|u: Seq<ConnectionSummary>, p: Seq<int>| #[trigger] connections_listed(sessions@, u, p, r@),
{
    let ghost es = sessions@;
    let order = connection_order(&sessions);
    let ghost ov = distinct_in_order(connection_labels(es));
    let mut u: Vec<ConnectionSummary> = Vec::new();
    let mut a: usize = 0;
    while a < order.len()
        invariant
            a <= order@.len(),
            es == sessions@,
            forall|i: int| 0 <= i < es.len() ==> times_in_range(#[trigger] es[i]),
            strs_view(order@) == ov,
            ov == distinct_in_order(connection_labels(es)),
            u@.len() == a,
            forall|b: int| 0 <= b < a ==> conn_ok(es, ov[b], #[trigger] u@[b]),
        decreases order.len() - a,
    {
        let cid = &order[a];
        assert(cid@ == ov[a as int]);
        assert(ov.contains(cid@));
        let m = members_positions(&sessions, cid);
        let ghost mv = conn_members(es, cid@, es.len());
        proof {
            lemma_connection_listed_has_member(es, cid@);
        }
        let mut sk: Vec<SortKey> = Vec::new();
        let mut k: usize = 0;
        while k < m.len()
            invariant
                k <= m@.len(),
                perm_view(m@) == mv,
                forall|q: int| 0 <= q < m@.len() ==> #[trigger] m@[q] < es.len(),
                es == sessions@,
                sk@.len() == k,
                keys_view(sk@) == stream_keys(es, mv).subrange(0, k as int),
            decreases m.len() - k,
        {
            let sid: u64 = match sessions[m[k]].stream_id {
                Some(s) => s,
                None => 0,
            };
            let key = SortKey { num: sid as i128, text: Vec::new() };
            assert(mv[k as int] == m@[k as int] as int);
            assert(key_view(key) == stream_keys(es, mv)[k as int]);
            sk.push(key);
            k = k + 1;
            assert(keys_view(sk@) =~= stream_keys(es, mv).subrange(0, k as int));
        }
        assert(stream_keys(es, mv).subrange(0, k as int) =~= stream_keys(es, mv));
        let p = sorted_positions(&sk);
        let ghost pv = perm_view(p@);
        let mut midx: Vec<usize> = Vec::new();
        let mut q: usize = 0;
        while q < p.len()
            invariant
                q <= p@.len(),
                pv == perm_view(p@),
                is_sorted_perm(stream_keys(es, mv), pv),
                perm_view(m@) == mv,
                forall|z: int| 0 <= z < m@.len() ==> #[trigger] m@[z] < es.len(),
                es == sessions@,
                midx@.len() == q,
                forall|z: int| 0 <= z < q ==> #[trigger] midx@[z] as int == mv[pv[z]],
                forall|z: int| 0 <= z < q ==> #[trigger] midx@[z] < es.len(),
            decreases p.len() - q,
        {
            assert(pv[q as int] == p@[q as int] as int);
            let z = p[q];
            assert(mv[z as int] == m@[z as int] as int);
            midx.push(m[z]);
            q = q + 1;
        }
        assert(members_of(es, midx@) =~= pv.map_values(|z: int| es[mv[z]]));
        assert(midx@.len() > 0);
        let s = summarize(&sessions, &midx, cid);
        assert(is_sorted_perm(stream_keys(es, mv), pv) && summary_ok(cid@, pv.map_values(|z: int| es[mv[z]]), s));
        let ghost old_u = u@;
        u.push(s);
        assert forall|b: int| 0 <= b < a + 1 implies conn_ok(es, ov[b], #[trigger] u@[b]) by {
            if b < a {
                assert(u@[b] == old_u[b]);
            }
        }
        a = a + 1;
    }
    // most recently active first
    let mut lk: Vec<SortKey> = Vec::new();
    let mut b: usize = 0;
    while b < u.len()
        invariant
            b <= u@.len(),
            lk@.len() == b,
            keys_view(lk@) == last_seen_keys(u@).subrange(0, b as int),
        decreases u.len() - b,
    {
        let key = SortKey { num: u[b].last_seen as i128, text: Vec::new() };
        assert(key_view(key) == last_seen_keys(u@)[b as int]);
        lk.push(key);
        b = b + 1;
        assert(keys_view(lk@) =~= last_seen_keys(u@).subrange(0, b as int));
    }
    assert(last_seen_keys(u@).subrange(0, b as int) =~= last_seen_keys(u@));
    let p = sorted_positions_by(&lk, true);
    let ghost pv = perm_view(p@);
    let ghost uv = u@;
    let n = u.len();
    let mut slots: Vec<Option<ConnectionSummary>> = Vec::new();
    let mut z: usize = 0;
    while z < n
        invariant
            z <= n,
            slots@.len() == z,
        decreases n - z,
    {
        slots.push(None);
        z = z + 1;
    }
    while u.len() > 0
        invariant
            n == uv.len(),
            slots@.len() == n,
            u@.len() <= n,
            u@ == uv.subrange(0, u@.len() as int),
            forall|j: int| u@.len() <= j < n ==> #[trigger] slots@[j] == Some(uv[j]),
        decreases u@.len(),
    {
        let e = u.pop().unwrap();
        let k2 = u.len();
        assert(e == uv[k2 as int]);
        slots.set(k2, Some(e));
        assert(u@ =~= uv.subrange(0, k2 as int));
    }
    assert forall|x: int| 0 <= x < p@.len() implies slots@[#[trigger] p@[x] as int] == Some(uv[p@[x] as int]) by {
        assert(pv[x] == p@[x] as int);
    }
    let mut out: Vec<ConnectionSummary> = Vec::new();
    let mut w: usize = 0;
    while w < p.len()
        invariant
            w <= p@.len(),
            pv == perm_view(p@),
            is_sorted_perm_dir(last_seen_keys(uv), pv, true),
            n == uv.len(),
            slots@.len() == n,
            forall|x: int| w <= x < p@.len() ==> slots@[#[trigger] p@[x] as int] == Some(uv[p@[x] as int]),
            out@ == pv.subrange(0, w as int).map_values(|q: int| uv[q]),
        decreases p.len() - w,
    {
        assert(pv[w as int] == p@[w as int] as int);
        let j = p[w];
        let mut tmp: Option<ConnectionSummary> = None;
        slots.set_and_swap(j, &mut tmp);
        let item = tmp.unwrap();
        proof {
            assert forall|x: int| w + 1 <= x < p@.len() implies slots@[#[trigger] p@[x] as int] == Some(uv[p@[x] as int]) by {
                crate::order::lemma_sorted_perm_distinct(last_seen_keys(uv), pv, x, w as int, true);
                assert(pv[x] == p@[x] as int);
            }
        }
        let ghost old_out = out@;
        out.push(item);
        w = w + 1;
        assert(out@ =~= pv.subrange(0, w as int).map_values(|q: int| uv[q]));
    }
    assert(pv.subrange(0, w as int) =~= pv);
    assert(strs_view(order@).len() == uv.len());
    assert(connections_listed(es, uv, pv, out@));
    out
}

/// A connection listed in the order has at least one member.
proof fn lemma_connection_listed_has_member(es: Seq<Exchange>, cid: Seq<char>)
    requires
        distinct_in_order(connection_labels(es)).contains(cid),
    ensures
        conn_members(es, cid, es.len()).len() > 0,
    decreases es.len(),
{
    let n = es.len();
    let pre = es.drop_last();
    lemma_conn_members_prefix(es, pre, cid, (n - 1) as nat);
    lemma_conn_members_grow(es, cid, (n - 1) as nat);
    if connection_of(es.last()) == Some(cid) {
    } else {
        let labels = connection_labels(pre);
        assert(connection_labels(es) == match connection_of(es.last()) {
            Some(l) => labels.push(l),
            None => labels,
        });
        match connection_of(es.last()) {
            Some(l) => {
                let d = distinct_in_order(labels);
                assert(labels.push(l).drop_last() =~= labels);
                assert(labels.push(l).last() == l);
                if !d.contains(l) {
                    assert(d.push(l).contains(cid));
                    let i = choose|i: int| 0 <= i < d.push(l).len() && d.push(l)[i] == cid;
                    assert(i < d.len());
                    assert(d[i] == cid);
                }
            },
            None => {},
        }
        lemma_connection_listed_has_member(pre, cid);
    }
}

proof fn lemma_conn_members_prefix(es: Seq<Exchange>, pre: Seq<Exchange>, cid: Seq<char>, k: nat)
    requires
        k <= pre.len(),
        pre.len() <= es.len(),
        forall|i: int| 0 <= i < pre.len() ==> es[i] == pre[i],
    ensures
        conn_members(es, cid, k) == conn_members(pre, cid, k),
    decreases k,
{
    if k > 0 {
        lemma_conn_members_prefix(es, pre, cid, (k - 1) as nat);
    }
}

proof fn lemma_conn_members_grow(es: Seq<Exchange>, cid: Seq<char>, k: nat)
    ensures
        conn_members(es, cid, k).len() <= conn_members(es, cid, k + 1).len(),
{
}


/// The status class of a response status from 200 to 599 is its hundreds
/// digit followed by `xx` (so every 5xx status is in class `5xx` and every
/// 4xx status in `4xx`); a missing status (0) is `pending`, and any other
/// status is `Others`.
pub proof fn law_status_class_is_the_hundreds_digit(code: u16)
    ensures
        200 <= code <= 599 ==> status_class_spec(code) == seq![
            crate::text::digit_char((code / 100) as nat),
            'x',
            'x',
        ],
        code == 0 ==> status_class_spec(code) == "pending"@,
        code != 0 && (code < 200 || code > 599) ==> status_class_spec(code) == "Others"@,
{
    reveal_strlit("2xx");
    reveal_strlit("3xx");
    reveal_strlit("4xx");
    reveal_strlit("5xx");
    assert("2xx"@ =~= seq!['2', 'x', 'x']);
    assert("3xx"@ =~= seq!['3', 'x', 'x']);
    assert("4xx"@ =~= seq!['4', 'x', 'x']);
    assert("5xx"@ =~= seq!['5', 'x', 'x']);
    if 200 <= code <= 599 {
        let d = (code / 100) as nat;
        assert(crate::text::digit_char(2) == '2');
        assert(crate::text::digit_char(3) == '3');
        assert(crate::text::digit_char(4) == '4');
        assert(crate::text::digit_char(5) == '5');
    }
}

} // verus!

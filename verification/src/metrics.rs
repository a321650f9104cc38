//! Capture metrics for the admin dashboard: counts and averages over the
//! recorded sessions, and the timing window of the admin endpoints.
use vstd::prelude::*;
use crate::exchange::{Exchange, SessionSource};
use crate::order::{count_label, is_tally, tally, seq_lt};
use crate::text::{chars_of, string_of, eq_chars};

verus! {

// ───────────────────────── session metrics ─────────────────────────

/// How many sessions satisfy `p`.
pub open spec fn count_where(s: Seq<Exchange>, p: spec_fn(Exchange) -> bool) -> nat
    decreases s.len(),
{
    if s.len() == 0 {
        0
    } else {
        count_where(s.drop_last(), p) + if p(s.last()) {
            1nat
        } else {
            0nat
        }
    }
}

/// The sum of `f` over the sessions that carry inspection metrics.
pub open spec fn sum_metrics(s: Seq<Exchange>, f: spec_fn(Exchange) -> nat) -> nat
    decreases s.len(),
{
    if s.len() == 0 {
        0
    } else {
        sum_metrics(s.drop_last(), f) + if s.last().metrics is Some {
            f(s.last())
        } else {
            0nat
        }
    }
}

/// The latencies of the sessions that carry inspection metrics, in order.
pub open spec fn latency_samples_of(s: Seq<Exchange>) -> Seq<u64>
    decreases s.len(),
{
    if s.len() == 0 {
        Seq::empty()
    } else {
        let rest = latency_samples_of(s.drop_last());
        match s.last().metrics {
            Some(m) => rest.push(m.latency_ms),
            None => rest,
        }
    }
}

/// Still waiting for a response.
pub open spec fn waiting() -> spec_fn(Exchange) -> bool {
    |e: Exchange| e.response is None
}

/// Carries inspection metrics.
pub open spec fn inspected() -> spec_fn(Exchange) -> bool {
    |e: Exchange| e.metrics is Some
}

/// Carries inspection metrics with a status of 400 or more.
pub open spec fn failed() -> spec_fn(Exchange) -> bool {
    |e: Exchange| e.metrics is Some && e.metrics->0.status_code >= 400
}

/// Entered the store from `src`.
pub open spec fn from_source(src: SessionSource) -> spec_fn(Exchange) -> bool {
    |e: Exchange| e.source == src
}

/// The inspected latency.
pub open spec fn latency() -> spec_fn(Exchange) -> nat {
    |e: Exchange| e.metrics->0.latency_ms as nat
}

/// The inspected request size.
pub open spec fn request_bytes() -> spec_fn(Exchange) -> nat {
    |e: Exchange| e.metrics->0.request_size_bytes as nat
}

/// The inspected response size.
pub open spec fn response_bytes() -> spec_fn(Exchange) -> nat {
    |e: Exchange| e.metrics->0.response_size_bytes as nat
}

/// `total / n`, or 0 when there is nothing to average.
pub open spec fn mean(total: nat, n: nat) -> nat {
    if n > 0 {
        total / n
    } else {
        0
    }
}

/// Counts and averages over the recorded sessions.
#[derive(Debug)]
pub struct SessionMetrics {
    pub captured_session_count: usize,
    /// Sessions still waiting for a response.
    pub active_requests: usize,
    pub completed_requests: usize,
    pub proxied_requests: usize,
    pub admin_forward_requests: usize,
    pub playback_requests: usize,
    pub imported_sessions: usize,
    /// Sessions that carry inspection metrics.
    pub inspected_requests: usize,
    /// Inspected sessions whose status is 400 or more.
    pub error_count: usize,
    pub latency_samples: Vec<u64>,
    pub total_request_bytes: u64,
    pub total_response_bytes: u64,
    pub avg_latency_ms: u64,
    pub avg_request_size_bytes: u64,
    pub avg_response_size_bytes: u64,
}

proof fn lemma_count_where_le(s: Seq<Exchange>, p: spec_fn(Exchange) -> bool)
    ensures
        count_where(s, p) <= s.len(),
    decreases s.len(),
{
    if s.len() > 0 {
        lemma_count_where_le(s.drop_last(), p);
    }
}

proof fn lemma_sum_prefix(s: Seq<Exchange>, f: spec_fn(Exchange) -> nat, i: int)
    requires
        0 <= i <= s.len(),
    ensures
        sum_metrics(s.subrange(0, i), f) <= sum_metrics(s, f),
    decreases s.len() - i,
{
    if i < s.len() {
        lemma_sum_prefix(s, f, i + 1);
        assert(s.subrange(0, i + 1).drop_last() =~= s.subrange(0, i));
    } else {
        assert(s.subrange(0, i) =~= s);
    }
}

/// Counts the sessions by state and source, and sums and averages the
/// latency and sizes of those that carry inspection metrics. The sums must
/// fit in a `u64`.
pub fn build_metrics_payload(sessions: &Vec<Exchange>) -> (r: SessionMetrics)
    requires
        sum_metrics(sessions@, latency()) <= u64::MAX,
        sum_metrics(sessions@, request_bytes()) <= u64::MAX,
        sum_metrics(sessions@, response_bytes()) <= u64::MAX,
    ensures
        r.captured_session_count == sessions@.len(),
        r.active_requests == count_where(sessions@, waiting()),
        r.completed_requests == sessions@.len() - count_where(sessions@, waiting()),
        r.proxied_requests == count_where(sessions@, from_source(SessionSource::Proxy)),
        r.admin_forward_requests == count_where(sessions@, from_source(SessionSource::AdminForward)),
        r.playback_requests == count_where(sessions@, from_source(SessionSource::Playback)),
        r.imported_sessions == count_where(sessions@, from_source(SessionSource::Imported)),
        r.inspected_requests == count_where(sessions@, inspected()),
        r.error_count == count_where(sessions@, failed()),
        r.latency_samples@ == latency_samples_of(sessions@),
        r.total_request_bytes == sum_metrics(sessions@, request_bytes()),
        r.total_response_bytes == sum_metrics(sessions@, response_bytes()),
        r.avg_latency_ms == mean(
            sum_metrics(sessions@, latency()),
            count_where(sessions@, inspected()),
        ),
        r.avg_request_size_bytes == mean(
            sum_metrics(sessions@, request_bytes()),
            count_where(sessions@, inspected()),
        ),
        r.avg_response_size_bytes == mean(
            sum_metrics(sessions@, response_bytes()),
            count_where(sessions@, inspected()),
        ),
{
    let ghost s = sessions@;
    let mut n_active: usize = 0;
    let mut n_proxy: usize = 0;
    let mut n_admin: usize = 0;
    let mut n_playback: usize = 0;
    let mut n_imported: usize = 0;
    let mut n_inspected: usize = 0;
    let mut n_errors: usize = 0;
    let mut samples: Vec<u64> = Vec::new();
    let mut lat_sum: u64 = 0;
    let mut req_sum: u64 = 0;
    let mut resp_sum: u64 = 0;
    let mut i: usize = 0;
    while i < sessions.len()
        invariant
            i <= sessions.len(),
            s == sessions@,
            sum_metrics(s, latency()) <= u64::MAX,
            sum_metrics(s, request_bytes()) <= u64::MAX,
            sum_metrics(s, response_bytes()) <= u64::MAX,
            n_active == count_where(s.subrange(0, i as int), waiting()),
            n_proxy == count_where(s.subrange(0, i as int), from_source(SessionSource::Proxy)),
            n_admin == count_where(s.subrange(0, i as int), from_source(SessionSource::AdminForward)),
            n_playback == count_where(s.subrange(0, i as int), from_source(SessionSource::Playback)),
            n_imported == count_where(s.subrange(0, i as int), from_source(SessionSource::Imported)),
            n_inspected == count_where(s.subrange(0, i as int), inspected()),
            n_errors == count_where(s.subrange(0, i as int), failed()),
            samples@ == latency_samples_of(s.subrange(0, i as int)),
            lat_sum == sum_metrics(s.subrange(0, i as int), latency()),
            req_sum == sum_metrics(s.subrange(0, i as int), request_bytes()),
            resp_sum == sum_metrics(s.subrange(0, i as int), response_bytes()),
        decreases sessions.len() - i,
    {
        let ghost t = s.subrange(0, i + 1);
        proof {
            assert(t.drop_last() =~= s.subrange(0, i as int));
            assert(t.last() == s[i as int]);
            lemma_count_where_le(s.subrange(0, i as int), waiting());
            lemma_count_where_le(s.subrange(0, i as int), from_source(SessionSource::Proxy));
            lemma_count_where_le(s.subrange(0, i as int), from_source(SessionSource::AdminForward));
            lemma_count_where_le(s.subrange(0, i as int), from_source(SessionSource::Playback));
            lemma_count_where_le(s.subrange(0, i as int), from_source(SessionSource::Imported));
            lemma_count_where_le(s.subrange(0, i as int), inspected());
            lemma_count_where_le(s.subrange(0, i as int), failed());
            lemma_sum_prefix(s, latency(), i + 1);
            lemma_sum_prefix(s, request_bytes(), i + 1);
            lemma_sum_prefix(s, response_bytes(), i + 1);
        }
        let e = &sessions[i];
        if e.response.is_none() {
            n_active = n_active + 1;
        }
        match e.source {
            SessionSource::Proxy => {
                n_proxy = n_proxy + 1;
            },
            SessionSource::AdminForward => {
                n_admin = n_admin + 1;
            },
            SessionSource::Playback => {
                n_playback = n_playback + 1;
            },
            SessionSource::Imported => {
                n_imported = n_imported + 1;
            },
        }
        match &e.metrics {
            Some(m) => {
                n_inspected = n_inspected + 1;
                if m.status_code >= 400 {
                    n_errors = n_errors + 1;
                }
                samples.push(m.latency_ms);
                proof {
                    assert(sum_metrics(t, latency()) == lat_sum + m.latency_ms);
                    assert(sum_metrics(t, request_bytes()) == req_sum + m.request_size_bytes);
                    assert(sum_metrics(t, response_bytes()) == resp_sum + m.response_size_bytes);
                }
                lat_sum = lat_sum + m.latency_ms;
                req_sum = req_sum + m.request_size_bytes as u64;
                resp_sum = resp_sum + m.response_size_bytes as u64;
            },
            None => {},
        }
        i = i + 1;
    }
    proof {
        assert(s.subrange(0, i as int) =~= s);
        lemma_count_where_le(s, waiting());
    }
    let avg_latency_ms = if n_inspected > 0 {
        lat_sum / (n_inspected as u64)
    } else {
        0
    };
    let avg_request_size_bytes = if n_inspected > 0 {
        req_sum / (n_inspected as u64)
    } else {
        0
    };
    let avg_response_size_bytes = if n_inspected > 0 {
        resp_sum / (n_inspected as u64)
    } else {
        0
    };
    SessionMetrics {
        captured_session_count: sessions.len(),
        active_requests: n_active,
        completed_requests: sessions.len() - n_active,
        proxied_requests: n_proxy,
        admin_forward_requests: n_admin,
        playback_requests: n_playback,
        imported_sessions: n_imported,
        inspected_requests: n_inspected,
        error_count: n_errors,
        latency_samples: samples,
        total_request_bytes: req_sum,
        total_response_bytes: resp_sum,
        avg_latency_ms,
        avg_request_size_bytes,
        avg_response_size_bytes,
    }
}

// ───────────────────────── admin endpoint timings ─────────────────────────

/// How many endpoint timings the window keeps.
pub const ENDPOINT_TIMING_LIMIT: usize = 64;

/// How many of the latest timings the payload lists.
pub const RECENT_TIMINGS: usize = 12;

/// One timed admin request.
#[derive(Debug)]
pub struct EndpointTimingSample {
    pub endpoint: String,
    pub duration_ms: u64,
    /// How many sessions the store held.
    pub session_count: usize,
    /// When it finished, in milliseconds since the Unix epoch.
    pub timestamp_ms: i64,
}

impl EndpointTimingSample {
    /// A copy of the sample.
    pub fn copy(&self) -> (r: Self)
        ensures
            r == *self,
    {
        EndpointTimingSample {
            endpoint: self.endpoint.clone(),
            duration_ms: self.duration_ms,
            session_count: self.session_count,
            timestamp_ms: self.timestamp_ms,
        }
    }
}

/// The timings of the latest admin requests, oldest first.
#[derive(Debug)]
pub struct EndpointMetrics {
    pub samples: Vec<EndpointTimingSample>,
}

/// The window after one more sample: full, it lets the oldest go.
pub open spec fn window_after(
    s: Seq<EndpointTimingSample>,
    x: EndpointTimingSample,
) -> Seq<EndpointTimingSample> {
    if s.len() >= ENDPOINT_TIMING_LIMIT {
        s.drop_first().push(x)
    } else {
        s.push(x)
    }
}

impl EndpointMetrics {
    /// The window holds at most `ENDPOINT_TIMING_LIMIT` samples.
    pub open spec fn wf(&self) -> bool {
        self.samples@.len() <= ENDPOINT_TIMING_LIMIT
    }

    /// An empty window.
    pub fn new() -> (r: Self)
        ensures
            r.wf(),
            r.samples@.len() == 0,
    {
        EndpointMetrics { samples: Vec::new() }
    }

    /// Records how long a request to `endpoint` took (milliseconds, capped
    /// at `u64::MAX`); a full window lets its oldest sample go.
    pub fn record(&mut self, endpoint: &str, elapsed_ms: u128, session_count: usize, timestamp_ms: i64)
        requires
            old(self).wf(),
        ensures
            final(self).wf(),
            final(self).samples@.len() >= 1,
            final(self).samples@ == window_after(old(self).samples@, final(self).samples@.last()),
            final(self).samples@.last().endpoint@ == endpoint@,
            final(self).samples@.last().duration_ms == if elapsed_ms > u64::MAX as u128 {
                u64::MAX as int
            } else {
                elapsed_ms as int
            },
            final(self).samples@.last().session_count == session_count,
            final(self).samples@.last().timestamp_ms == timestamp_ms,
    {
        if self.samples.len() >= ENDPOINT_TIMING_LIMIT {
            self.samples.remove(0);
        }
        let duration_ms: u64 = if elapsed_ms > u64::MAX as u128 {
            u64::MAX
        } else {
            elapsed_ms as u64
        };
        self.samples.push(
            EndpointTimingSample {
                endpoint: endpoint.to_owned(),
                duration_ms,
                session_count,
                timestamp_ms,
            },
        );
        proof {
            let s = old(self).samples@;
            if s.len() >= ENDPOINT_TIMING_LIMIT {
                assert(s.remove(0) =~= s.drop_first());
            }
        }
    }
}

/// The summary of one endpoint's timings in the window.
#[derive(Debug)]
pub struct EndpointSummary {
    pub endpoint: String,
    pub samples: usize,
    pub last_ms: u64,
    pub avg_ms: u64,
    pub max_ms: u64,
    pub last_session_count: usize,
}

/// The endpoint timing report.
#[derive(Debug)]
pub struct EndpointTimingPayload {
    pub sample_limit: usize,
    /// One summary per endpoint, endpoints in ascending order.
    pub summaries: Vec<EndpointSummary>,
    /// The latest samples, newest first.
    pub recent: Vec<EndpointTimingSample>,
}

/// The endpoints of the samples, in order.
pub open spec fn endpoints_of(s: Seq<EndpointTimingSample>) -> Seq<Seq<char>> {
    s.map_values(|x: EndpointTimingSample| x.endpoint@)
}

/// The total duration of the samples of endpoint `k`.
pub open spec fn total_ms(s: Seq<EndpointTimingSample>, k: Seq<char>) -> nat
    decreases s.len(),
{
    if s.len() == 0 {
        0
    } else {
        total_ms(s.drop_last(), k) + if s.last().endpoint@ == k {
            s.last().duration_ms as nat
        } else {
            0nat
        }
    }
}

/// The longest duration among the samples of endpoint `k` (0 if none).
pub open spec fn max_ms(s: Seq<EndpointTimingSample>, k: Seq<char>) -> nat
    decreases s.len(),
{
    if s.len() == 0 {
        0
    } else {
        let rest = max_ms(s.drop_last(), k);
        if s.last().endpoint@ == k && s.last().duration_ms > rest {
            s.last().duration_ms as nat
        } else {
            rest
        }
    }
}

/// The latest sample of endpoint `k`.
pub open spec fn last_of(s: Seq<EndpointTimingSample>, k: Seq<char>) -> Option<EndpointTimingSample>
    decreases s.len(),
{
    if s.len() == 0 {
        None
    } else if s.last().endpoint@ == k {
        Some(s.last())
    } else {
        last_of(s.drop_last(), k)
    }
}

/// The total duration of all samples.
pub open spec fn all_ms(s: Seq<EndpointTimingSample>) -> nat
    decreases s.len(),
{
    if s.len() == 0 {
        0
    } else {
        all_ms(s.drop_last()) + s.last().duration_ms as nat
    }
}

proof fn lemma_total_le_all(s: Seq<EndpointTimingSample>, k: Seq<char>)
    ensures
        total_ms(s, k) <= all_ms(s),
    decreases s.len(),
{
    if s.len() > 0 {
        lemma_total_le_all(s.drop_last(), k);
    }
}

proof fn lemma_total_prefix(s: Seq<EndpointTimingSample>, k: Seq<char>, i: int)
    requires
        0 <= i <= s.len(),
    ensures
        total_ms(s.subrange(0, i), k) <= total_ms(s, k),
    decreases s.len() - i,
{
    if i < s.len() {
        lemma_total_prefix(s, k, i + 1);
        assert(s.subrange(0, i + 1).drop_last() =~= s.subrange(0, i));
    } else {
        assert(s.subrange(0, i) =~= s);
    }
}

/// The summary of endpoint `key` over the samples `s`.
fn summarize_endpoint(s: &Vec<EndpointTimingSample>, key: &Vec<char>, count: usize) -> (r: EndpointSummary)
    requires
        count > 0,
        count == count_label(endpoints_of(s@), key@),
        all_ms(s@) <= u64::MAX,
    ensures
        r.endpoint@ == key@,
        r.samples == count,
        r.avg_ms == total_ms(s@, key@) / (count as nat),
        r.max_ms == max_ms(s@, key@),
        r.last_ms == match last_of(s@, key@) {
            Some(x) => x.duration_ms,
            None => 0,
        },
        r.last_session_count == match last_of(s@, key@) {
            Some(x) => x.session_count,
            None => 0,
        },
{
    let mut total: u64 = 0;
    let mut max: u64 = 0;
    let mut last_ms: u64 = 0;
    let mut last_sessions: usize = 0;
    let mut i: usize = 0;
    proof {
        lemma_total_le_all(s@, key@);
    }
    while i < s.len()
        invariant
            i <= s.len(),
            total_ms(s@, key@) <= u64::MAX,
            total == total_ms(s@.subrange(0, i as int), key@),
            max == max_ms(s@.subrange(0, i as int), key@),
            last_ms == match last_of(s@.subrange(0, i as int), key@) {
                Some(x) => x.duration_ms,
                None => 0,
            },
            last_sessions == match last_of(s@.subrange(0, i as int), key@) {
                Some(x) => x.session_count,
                None => 0,
            },
        decreases s.len() - i,
    {
        proof {
            assert(s@.subrange(0, i + 1).drop_last() =~= s@.subrange(0, i as int));
            lemma_total_prefix(s@, key@, i + 1);
        }
        let e = chars_of(s[i].endpoint.as_str());
        if eq_chars(&e, key.as_slice()) {
            let d = s[i].duration_ms;
            total = total + d;
            if d > max {
                max = d;
            }
            last_ms = d;
            last_sessions = s[i].session_count;
        }
        i = i + 1;
    }
    proof {
        assert(s@.subrange(0, i as int) =~= s@);
    }
    EndpointSummary {
        endpoint: string_of(key.as_slice()),
        samples: count,
        last_ms,
        avg_ms: total / (count as u64),
        max_ms: max,
        last_session_count: last_sessions,
    }
}

impl EndpointMetrics {
    /// The report: per endpoint (ascending) the number of samples, the
    /// last, mean (rounded down) and longest duration and the session count
    /// at the last sample; and the latest `RECENT_TIMINGS` samples, newest
    /// first. The durations must sum within a `u64`.
    pub fn payload(&self) -> (r: EndpointTimingPayload)
        requires
            all_ms(self.samples@) <= u64::MAX,
        ensures
            r.sample_limit == ENDPOINT_TIMING_LIMIT,
            is_tally(
                endpoints_of(self.samples@),
                r.summaries@.map_values(|x: EndpointSummary| (x.endpoint@, x.samples as nat)),
            ),
            forall|a: int|
                0 <= a < r.summaries@.len() ==> {
                    let x = #[trigger] r.summaries@[a];
                    let k = x.endpoint@;
                    &&& x.avg_ms == total_ms(self.samples@, k) / (x.samples as nat)
                    &&& x.max_ms == max_ms(self.samples@, k)
                    &&& x.last_ms == match last_of(self.samples@, k) {
                        Some(y) => y.duration_ms,
                        None => 0,
                    }
                    &&& x.last_session_count == match last_of(self.samples@, k) {
                        Some(y) => y.session_count,
                        None => 0,
                    }
                },
            r.recent@.len() == if self.samples@.len() < RECENT_TIMINGS {
                self.samples@.len()
            } else {
                RECENT_TIMINGS as nat
            },
            forall|j: int|
                0 <= j < r.recent@.len() ==> #[trigger] r.recent@[j] == self.samples@[self.samples@.len() - 1 - j],
    {
        let ghost sv = self.samples@;
        let mut labels: Vec<Vec<char>> = Vec::new();
        let mut i: usize = 0;
        while i < self.samples.len()
            invariant
                i <= self.samples.len(),
                sv == self.samples@,
                labels@.len() == i,
                forall|j: int| 0 <= j < i ==> #[trigger] labels@[j]@ == sv[j].endpoint@,
            decreases self.samples.len() - i,
        {
            labels.push(chars_of(self.samples[i].endpoint.as_str()));
            i = i + 1;
        }
        proof {
            assert(labels@.map_values(|l: Vec<char>| l@) =~= endpoints_of(sv));
        }
        let (keys, counts) = tally(&labels);
        let ghost t = Seq::new(keys@.len(), |a: int| (keys@[a]@, counts@[a] as nat));
        let mut summaries: Vec<EndpointSummary> = Vec::new();
        let mut a: usize = 0;
        while a < keys.len()
            invariant
                a <= keys.len(),
                keys@.len() == counts@.len(),
                sv == self.samples@,
                all_ms(sv) <= u64::MAX,
                t == Seq::new(keys@.len(), |a: int| (keys@[a]@, counts@[a] as nat)),
                is_tally(endpoints_of(sv), t),
                summaries@.len() == a,
                forall|b: int|
                    0 <= b < a ==> {
                        let x = #[trigger] summaries@[b];
                        let k = x.endpoint@;
                        &&& k == keys@[b]@
                        &&& x.samples == counts@[b]
                        &&& x.avg_ms == total_ms(sv, k) / (x.samples as nat)
                        &&& x.max_ms == max_ms(sv, k)
                        &&& x.last_ms == match last_of(sv, k) {
                            Some(y) => y.duration_ms,
                            None => 0,
                        }
                        &&& x.last_session_count == match last_of(sv, k) {
                            Some(y) => y.session_count,
                            None => 0,
                        }
                    },
            decreases keys.len() - a,
        {
            proof {
                assert(t[a as int] == (keys@[a as int]@, counts@[a as int] as nat));
                assert(t[a as int].1 == count_label(endpoints_of(sv), t[a as int].0) && t[a as int].1 > 0);
            }
            let x = summarize_endpoint(&self.samples, &keys[a], counts[a]);
            summaries.push(x);
            a = a + 1;
        }
        proof {
            assert(summaries@.map_values(|x: EndpointSummary| (x.endpoint@, x.samples as nat)) =~= t);
        }
        let n = self.samples.len();
        let take = if n < RECENT_TIMINGS {
            n
        } else {
            RECENT_TIMINGS
        };
        let mut recent: Vec<EndpointTimingSample> = Vec::new();
        let mut j: usize = 0;
        while j < take
            invariant
                j <= take,
                take <= n,
                n == self.samples@.len(),
                recent@.len() == j,
                forall|b: int| 0 <= b < j ==> #[trigger] recent@[b] == self.samples@[n - 1 - b],
            decreases take - j,
        {
            recent.push(self.samples[n - 1 - j].copy());
            j = j + 1;
        }
        EndpointTimingPayload { sample_limit: ENDPOINT_TIMING_LIMIT, summaries, recent }
    }
}

// ───────────────────────── request timing waterfall ─────────────────────────

/// One phase of a request's timing waterfall: when it started (offset from
/// the start of the request) and how long it took, in milliseconds.
#[derive(Debug)]
pub struct TimingPhase {
    pub phase: String,
    pub start: u64,
    pub duration: u64,
}

/// Appends a phase that starts at `cursor`, and moves the cursor past it.
pub open spec fn next_phase(
    acc: (Seq<(Seq<char>, nat, nat)>, nat),
    name: Seq<char>,
    d: nat,
) -> (Seq<(Seq<char>, nat, nat)>, nat) {
    (acc.0.push((name, acc.1, d)), acc.1 + d)
}

/// The waterfall: DNS, TCP connect and TLS when measured, one after the
/// other; then the wait for the first byte (what of the time to first byte
/// the earlier phases do not cover), if any; then the body, if it took any
/// time.
pub open spec fn waterfall(
    dns_ms: Option<u64>,
    tcp_connect_ms: Option<u64>,
    tls_ms: Option<u64>,
    ttfb_ms: u64,
    body_ms: u64,
) -> Seq<(Seq<char>, nat, nat)> {
    let a0: (Seq<(Seq<char>, nat, nat)>, nat) = (Seq::empty(), 0);
    let a1 = match dns_ms {
        Some(d) => next_phase(a0, "dns"@, d as nat),
        None => a0,
    };
    let a2 = match tcp_connect_ms {
        Some(d) => next_phase(a1, "tcp"@, d as nat),
        None => a1,
    };
    let a3 = match tls_ms {
        Some(d) => next_phase(a2, "tls"@, d as nat),
        None => a2,
    };
    let wait: nat = if ttfb_ms > a3.1 {
        (ttfb_ms - a3.1) as nat
    } else {
        0
    };
    let a4 = if wait > 0 {
        next_phase(a3, "wait"@, wait)
    } else {
        a3
    };
    if body_ms > 0 {
        next_phase(a4, "body"@, body_ms as nat).0
    } else {
        a4.0
    }
}

fn push_phase(phases: &mut Vec<TimingPhase>, name: &str, start: u64, duration: u64)
    ensures
        final(phases)@.len() == old(phases)@.len() + 1,
        forall|j: int| 0 <= j < old(phases)@.len() ==> #[trigger] final(phases)@[j] == old(phases)@[j],
        final(phases)@.last().phase@ == name@,
        final(phases)@.last().start == start,
        final(phases)@.last().duration == duration,
{
    phases.push(TimingPhase { phase: name.to_owned(), start, duration });
}

/// The phases of a request's timing waterfall (see `waterfall`). The
/// measured connection phases must sum within a `u64`.
pub fn timing_phases(
    dns_ms: Option<u64>,
    tcp_connect_ms: Option<u64>,
    tls_ms: Option<u64>,
    ttfb_ms: u64,
    body_ms: u64,
) -> (r: Vec<TimingPhase>)
    requires
        (match dns_ms {
            Some(d) => d as nat,
            None => 0nat,
        }) + (match tcp_connect_ms {
            Some(d) => d as nat,
            None => 0nat,
        }) + (match tls_ms {
            Some(d) => d as nat,
            None => 0nat,
        }) <= u64::MAX,
    ensures
        r@.map_values(|p: TimingPhase| (p.phase@, p.start as nat, p.duration as nat)) == waterfall(
            dns_ms,
            tcp_connect_ms,
            tls_ms,
            ttfb_ms,
            body_ms,
        ),
{
    let mut phases: Vec<TimingPhase> = Vec::new();
    let mut cursor: u64 = 0;
    if let Some(d) = dns_ms {
        push_phase(&mut phases, "dns", cursor, d);
        cursor = cursor + d;
    }
    if let Some(d) = tcp_connect_ms {
        push_phase(&mut phases, "tcp", cursor, d);
        cursor = cursor + d;
    }
    if let Some(d) = tls_ms {
        push_phase(&mut phases, "tls", cursor, d);
        cursor = cursor + d;
    }
    let wait: u64 = if ttfb_ms > cursor {
        ttfb_ms - cursor
    } else {
        0
    };
    if wait > 0 {
        push_phase(&mut phases, "wait", cursor, wait);
        cursor = cursor + wait;
    }
    if body_ms > 0 {
        push_phase(&mut phases, "body", cursor, body_ms);
    }
    proof {
        assert(phases@.map_values(|p: TimingPhase| (p.phase@, p.start as nat, p.duration as nat))
            =~= waterfall(dns_ms, tcp_connect_ms, tls_ms, ttfb_ms, body_ms));
    }
    phases
}

} // verus!

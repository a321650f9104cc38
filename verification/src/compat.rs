//! Scoring of a model compatibility run: capability checks, eval results,
//! the compatibility percentage and the summary line; and the checks on the
//! context-priority probe answers.
use vstd::prelude::*;
use crate::text::{
    chars_of, string_of, decimal, decimal_exec, decimal_u128, join, lower, lower_vec, contains,
    contains_chars, is_ws, is_ws_exec, trim, trim_vec, eq_str, eq_chars,
};
use crate::json::{
    Json, JsonValue, json_text, lemma_models, lemma_entry_models, models, entry_models,
    well_formed, distinct_keys, lookup,
};

verus! {

/// One capability check of a compatibility run. Required checks decide
/// whether the model is compatible at all; recommended ones only inform.
#[derive(Debug, Clone)]
pub struct CompatCheck {
    pub id: String,
    pub label: String,
    pub required: bool,
    pub ok: bool,
    pub detail: String,
    pub latency_ms: Option<u128>,
}

impl CompatCheck {
    /// A check that has not run yet.
    pub fn new(id: &str, label: &str, required: bool) -> (r: Self)
        ensures
            r.id@ == id@,
            r.label@ == label@,
            r.required == required,
            !r.ok,
            r.detail@ == Seq::<char>::empty(),
            r.latency_ms is None,
    {
        CompatCheck {
            id: string_of(&chars_of(id)),
            label: string_of(&chars_of(label)),
            required,
            ok: false,
            detail: String::new(),
            latency_ms: None,
        }
    }

    /// The check passed, `elapsed_ms` after it started.
    pub fn pass(self, detail: String, elapsed_ms: u128) -> (r: Self)
        ensures
            r.id == self.id,
            r.label == self.label,
            r.required == self.required,
            r.ok,
            r.detail == detail,
            r.latency_ms == Some(elapsed_ms),
    {
        let mut c = self;
        c.ok = true;
        c.detail = detail;
        c.latency_ms = Some(elapsed_ms);
        c
    }

    /// The check failed, `elapsed_ms` after it started if it started.
    pub fn fail(self, detail: String, elapsed_ms: Option<u128>) -> (r: Self)
        ensures
            r.id == self.id,
            r.label == self.label,
            r.required == self.required,
            !r.ok,
            r.detail == detail,
            r.latency_ms == elapsed_ms,
    {
        let mut c = self;
        c.ok = false;
        c.detail = detail;
        c.latency_ms = elapsed_ms;
        c
    }

    /// The configuration check passed.
    pub fn pass_config(self) -> (r: Self)
        ensures
            r.id == self.id,
            r.label == self.label,
            r.required == self.required,
            r.ok,
            r.detail@ == "Base URL, model, and credentials accepted."@,
            r.latency_ms == self.latency_ms,
    {
        let mut c = self;
        c.ok = true;
        c.detail = string_of(&chars_of("Base URL, model, and credentials accepted."));
        c
    }
}

/// The outcome of one eval case.
#[derive(Debug, Clone)]
pub struct EvalResult {
    pub id: String,
    pub prompt: String,
    pub expected_tool: String,
    pub called_tool: Option<String>,
    /// Only a case that scored 100 is fully correct.
    pub ok: bool,
    pub score_percent: u8,
    pub fields_matched: u32,
    pub fields_total: u32,
    pub detail: String,
    pub latency_ms: Option<u128>,
}

/// The report of a compatibility run.
#[derive(Debug)]
pub struct AssistantCompatReport {
    pub compatible: bool,
    pub compatibility_percent: Option<u8>,
    pub evals_passed: usize,
    pub evals_total: usize,
    pub avg_eval_latency_ms: Option<u128>,
    pub model: String,
    pub base_url: String,
    pub summary: String,
    pub checks: Vec<CompatCheck>,
    pub evals: Vec<EvalResult>,
}

/// Every required check passed.
pub open spec fn all_required_ok(checks: Seq<CompatCheck>) -> bool {
    forall|i: int| 0 <= i < checks.len() ==> #[trigger] checks[i].required ==> checks[i].ok
}

/// Number of fully correct eval cases.
pub open spec fn count_ok(evals: Seq<EvalResult>) -> nat
    decreases evals.len(),
{
    if evals.len() == 0 {
        0
    } else {
        count_ok(evals.drop_last()) + if evals.last().ok {
            1nat
        } else {
            0nat
        }
    }
}

/// Sum of the eval scores.
pub open spec fn score_sum(evals: Seq<EvalResult>) -> nat
    decreases evals.len(),
{
    if evals.len() == 0 {
        0
    } else {
        score_sum(evals.drop_last()) + evals.last().score_percent as nat
    }
}

/// Number of eval cases with a measured latency.
pub open spec fn timed_count(evals: Seq<EvalResult>) -> nat
    decreases evals.len(),
{
    if evals.len() == 0 {
        0
    } else {
        timed_count(evals.drop_last()) + if evals.last().latency_ms is Some {
            1nat
        } else {
            0nat
        }
    }
}

/// Sum of the measured latencies.
pub open spec fn latency_sum(evals: Seq<EvalResult>) -> nat
    decreases evals.len(),
{
    if evals.len() == 0 {
        0
    } else {
        latency_sum(evals.drop_last()) + match evals.last().latency_ms {
            Some(l) => l as nat,
            None => 0nat,
        }
    }
}

/// The labels of the failing required checks, in order.
pub open spec fn failing_labels(checks: Seq<CompatCheck>) -> Seq<Seq<char>>
    decreases checks.len(),
{
    if checks.len() == 0 {
        Seq::empty()
    } else {
        let prev = failing_labels(checks.drop_last());
        if checks.last().required && !checks.last().ok {
            prev.push(checks.last().label@)
        } else {
            prev
        }
    }
}

/// The mean latency of the timed cases, rounded down.
pub open spec fn avg_latency(evals: Seq<EvalResult>) -> Option<nat> {
    if timed_count(evals) == 0 {
        None
    } else {
        Some(latency_sum(evals) / timed_count(evals))
    }
}

/// The compatibility percentage: the mean score rounded half up when the
/// evals ran (100 for an empty suite), none when they were skipped.
pub open spec fn percent_of(evals: Seq<EvalResult>, ran_evals: bool) -> Option<nat> {
    if ran_evals && evals.len() > 0 {
        Some((2 * score_sum(evals) + evals.len()) / (2 * evals.len()))
    } else if ran_evals {
        Some(100)
    } else {
        None
    }
}

/// The summary line of a report.
pub open spec fn summary_of(checks: Seq<CompatCheck>, evals: Seq<EvalResult>, ran_evals: bool) -> Seq<char> {
    if !all_required_ok(checks) {
        "Not compatible. Failing required checks: "@ + join(failing_labels(checks), ", "@) + "."@
    } else {
        match percent_of(evals, ran_evals) {
            Some(p) => decimal(p) + "% compatible — weighted across tool selection and payload-field correctness; "@
                + decimal(count_ok(evals)) + " of "@ + decimal(evals.len()) + " eval cases fully correct."@
                + match avg_latency(evals) {
                Some(ms) => " Avg latency "@ + decimal(ms) + " ms/prompt."@,
                None => Seq::empty(),
            },
            None => "Required capability checks passed."@,
        }
    }
}

fn push_chars(out: &mut Vec<char>, s: &[char])
    ensures
        final(out)@ == old(out)@ + s@,
{
    let mut i: usize = 0;
    let ghost start = out@;
    while i < s.len()
        invariant
            i <= s@.len(),
            out@ == start + s@.subrange(0, i as int),
        decreases s.len() - i,
    {
        out.push(s[i]);
        i = i + 1;
        assert(out@ =~= start + s@.subrange(0, i as int));
    }
    assert(s@.subrange(0, s@.len() as int) =~= s@);
}

fn push_str(out: &mut Vec<char>, s: &str)
    ensures
        final(out)@ == old(out)@ + s@,
{
    push_chars(out, &chars_of(s));
}

/// Assembles the report of a compatibility run: compatible when every
/// required check passed; the percentage is the rounded mean eval score;
/// the average latency is over the timed evals.
pub fn finish(
    model: String,
    base_url: String,
    checks: Vec<CompatCheck>,
    evals: Vec<EvalResult>,
    ran_evals: bool,
) -> (r: AssistantCompatReport)
    requires
        latency_sum(evals@) <= u128::MAX,
    ensures
        r.compatible == all_required_ok(checks@),
        r.evals_total == evals@.len(),
        r.evals_passed == count_ok(evals@),
        r.avg_eval_latency_ms matches Some(a) ==> avg_latency(evals@) == Some(a as nat),
        r.avg_eval_latency_ms is None ==> avg_latency(evals@) is None,
        r.compatibility_percent matches Some(p) ==> percent_of(evals@, ran_evals) == Some(p as nat),
        r.compatibility_percent is None ==> percent_of(evals@, ran_evals) is None,
        r.summary@ == summary_of(checks@, evals@, ran_evals),
        r.model == model,
        r.base_url == base_url,
        r.checks@ == checks@,
        r.evals@ == evals@,
{
    // required checks
    let mut compatible = true;
    let mut failing: Vec<char> = Vec::new();
    let mut nfail: usize = 0;
    let mut i: usize = 0;
    while i < checks.len()
        invariant
            i <= checks@.len(),
            compatible == all_required_ok(checks@.subrange(0, i as int)),
            nfail == failing_labels(checks@.subrange(0, i as int)).len(),
            nfail <= i,
            failing@ == join(failing_labels(checks@.subrange(0, i as int)), ", "@),
        decreases checks.len() - i,
    {
        let ghost pre = checks@.subrange(0, i as int);
        let ghost next = checks@.subrange(0, i + 1);
        assert(next.drop_last() =~= pre);
        if checks[i].required && !checks[i].ok {
            if nfail > 0 {
                push_str(&mut failing, ", ");
            }
            push_chars(&mut failing, &chars_of(checks[i].label.as_str()));
            proof {
                let fl = failing_labels(pre);
                assert(failing_labels(next) == fl.push(checks@[i as int].label@));
                if fl.len() == 0 {
                    assert(fl.push(checks@[i as int].label@) =~= seq![checks@[i as int].label@]);
                } else {
                    assert(fl.push(checks@[i as int].label@).subrange(0, fl.len() as int) =~= fl);
                }
            }
            nfail = nfail + 1;
            compatible = false;
        }
        assert(all_required_ok(next) == (all_required_ok(pre) && (next.last().required ==> next.last().ok)));
        i = i + 1;
    }
    assert(checks@.subrange(0, checks@.len() as int) =~= checks@);
    // eval statistics
    let mut passed: usize = 0;
    let mut sum: u128 = 0;
    let mut timed: usize = 0;
    let mut lat: u128 = 0;
    let mut k: usize = 0;
    while k < evals.len()
        invariant
            k <= evals@.len(),
            latency_sum(evals@) <= u128::MAX,
            passed == count_ok(evals@.subrange(0, k as int)),
            sum == score_sum(evals@.subrange(0, k as int)),
            timed == timed_count(evals@.subrange(0, k as int)),
            lat == latency_sum(evals@.subrange(0, k as int)),
            passed <= k,
            timed <= k,
            sum <= 255 * k,
        decreases evals.len() - k,
    {
        let ghost pre = evals@.subrange(0, k as int);
        let ghost next = evals@.subrange(0, k + 1);
        assert(next.drop_last() =~= pre);
        proof {
            lemma_latency_sum_prefix(evals@, k + 1);
        }
        if evals[k].ok {
            passed = passed + 1;
        }
        sum = sum + evals[k].score_percent as u128;
        match evals[k].latency_ms {
            Some(l) => {
                timed = timed + 1;
                lat = lat + l;
            },
            None => {},
        }
        k = k + 1;
    }
    assert(evals@.subrange(0, evals@.len() as int) =~= evals@);
    let avg: Option<u128> = if timed == 0 {
        None
    } else {
        Some(lat / (timed as u128))
    };
    let n = evals.len();
    let percent: Option<u8> = if ran_evals && n > 0 {
        let p: u128 = (2 * sum + n as u128) / (2 * n as u128);
        assert(p <= 255) by (nonlinear_arith)
            requires
                sum <= 255 * n,
                n > 0,
                p == (2 * sum + n) / (2 * n),
        ;
        Some(p as u8)
    } else if ran_evals {
        Some(100)
    } else {
        None
    };
    // summary
    let mut summary: Vec<char> = Vec::new();
    if !compatible {
        push_str(&mut summary, "Not compatible. Failing required checks: ");
        push_chars(&mut summary, &failing);
        push_str(&mut summary, ".");
    } else {
        match percent {
            Some(p) => {
                push_chars(&mut summary, &decimal_exec(p as u64));
                push_str(&mut summary, "% compatible — weighted across tool selection and payload-field correctness; ");
                push_chars(&mut summary, &decimal_exec(passed as u64));
                push_str(&mut summary, " of ");
                push_chars(&mut summary, &decimal_exec(n as u64));
                push_str(&mut summary, " eval cases fully correct.");
                match avg {
                    Some(ms) => {
                        push_str(&mut summary, " Avg latency ");
                        push_chars(&mut summary, &decimal_u128(ms));
                        push_str(&mut summary, " ms/prompt.");
                    },
                    None => {},
                }
            },
            None => {
                push_str(&mut summary, "Required capability checks passed.");
            },
        }
    }
    let evals_total = evals.len();
    AssistantCompatReport {
        compatible,
        compatibility_percent: percent,
        evals_passed: passed,
        evals_total,
        avg_eval_latency_ms: avg,
        model,
        base_url,
        summary: string_of(&summary),
        checks,
        evals,
    }
}

proof fn lemma_latency_sum_prefix(evals: Seq<EvalResult>, n: int)
    requires
        0 <= n <= evals.len(),
    ensures
        latency_sum(evals.subrange(0, n)) <= latency_sum(evals),
    decreases evals.len() - n,
{
    if n < evals.len() {
        lemma_latency_sum_prefix(evals, n + 1);
        assert(evals.subrange(0, n + 1).drop_last() =~= evals.subrange(0, n));
    } else {
        assert(evals.subrange(0, n) =~= evals);
    }
}

// ───────────────────────── context-priority probe ─────────────────────────

/// The system prompt of the context-priority probe.
pub fn context_priority_system_prompt() -> (r: &'static str)
    ensures
        r@ == "You are an oproxy assistant compatibility probe. Follow this context policy exactly: primary context is the user-intentionally attached request. Secondary context is UI/workspace state, visible sessions, and browser hints. If primary context is sufficient, answer only from primary even when secondary conflicts. If primary context is absent or insufficient, use secondary context as fallback. Answer with only the requested host and path."@,
{
    "You are an oproxy assistant compatibility probe. Follow this context policy exactly: primary context is the user-intentionally attached request. Secondary context is UI/workspace state, visible sessions, and browser hints. If primary context is sufficient, answer only from primary even when secondary conflicts. If primary context is absent or insufficient, use secondary context as fallback. Answer with only the requested host and path."
}

/// The answer to the primary-priority probe names the attached request's
/// host and path and not the UI-selected host (ignoring ASCII case).
pub fn primary_priority_response_ok(content: &str) -> (r: bool)
    ensures
        r == (contains(lower(content@), "primary.example.com"@) && contains(
            lower(content@),
            "/primary"@,
        ) && !contains(lower(content@), "secondary.example.com"@)),
{
    let normalized = lower_vec(&chars_of(content));
    contains_chars(&normalized, &chars_of("primary.example.com")) && contains_chars(
        &normalized,
        &chars_of("/primary"),
    ) && !contains_chars(&normalized, &chars_of("secondary.example.com"))
}

/// The answer to the fallback probe names the fallback host and path
/// (ignoring ASCII case).
pub fn secondary_fallback_response_ok(content: &str) -> (r: bool)
    ensures
        r == (contains(lower(content@), "fallback.example.com"@) && contains(
            lower(content@),
            "/secondary"@,
        )),
{
    let normalized = lower_vec(&chars_of(content));
    contains_chars(&normalized, &chars_of("fallback.example.com")) && contains_chars(
        &normalized,
        &chars_of("/secondary"),
    )
}

/// The words of `s` (the maximal runs of non-whitespace) joined by single
/// spaces, built from the end of `s`.
pub open spec fn squeeze_ws(s: Seq<char>) -> Seq<char>
    decreases s.len(),
{
    if s.len() == 0 {
        Seq::empty()
    } else {
        let prev = squeeze_ws(s.drop_last());
        let c = s.last();
        if is_ws(c) {
            prev
        } else if s.len() >= 2 && !is_ws(s[s.len() - 2]) {
            prev.push(c)
        } else if prev.len() == 0 {
            seq![c]
        } else {
            prev + seq![' ', c]
        }
    }
}

/// A probe answer shortened for a report: whitespace squeezed, at most 160
/// characters, with `...` when cut.
pub open spec fn compact_spec(content: Seq<char>) -> Seq<char> {
    let c = squeeze_ws(content);
    if c.len() > 160 {
        c.subrange(0, 160) + "..."@
    } else {
        c
    }
}

/// Shortens a probe answer for the report.
pub fn compact_probe_response(content: &str) -> (r: String)
    ensures
        r@ == compact_spec(content@),
{
    let v = chars_of(content);
    let mut out: Vec<char> = Vec::new();
    let mut i: usize = 0;
    while i < v.len()
        invariant
            i <= v@.len(),
            v@ == content@,
            out@ == squeeze_ws(v@.subrange(0, i as int)),
        decreases v.len() - i,
    {
        let ghost pre = v@.subrange(0, i as int);
        let ghost next = v@.subrange(0, i + 1);
        assert(next.drop_last() =~= pre);
        let c = v[i];
        if is_ws_exec(c) {
        } else if i >= 1 && !is_ws_exec(v[i - 1]) {
            assert(next[next.len() - 2] == v@[i - 1]);
            out.push(c);
        } else if out.len() == 0 {
            out.push(c);
            assert(out@ =~= seq![c]);
        } else {
            let ghost before = out@;
            out.push(' ');
            out.push(c);
            assert(out@ =~= before + seq![' ', c]);
        }
        i = i + 1;
    }
    assert(v@.subrange(0, v@.len() as int) =~= v@);
    if out.len() > 160 {
        let mut cut = crate::text::slice_vec(&out, 0, 160);
        let dots = chars_of("...");
        let ghost head = cut@;
        let mut k: usize = 0;
        while k < dots.len()
            invariant
                k <= dots@.len(),
                cut@ == head + dots@.subrange(0, k as int),
            decreases dots.len() - k,
        {
            cut.push(dots[k]);
            k = k + 1;
            assert(cut@ =~= head + dots@.subrange(0, k as int));
        }
        assert(dots@.subrange(0, dots@.len() as int) =~= dots@);
        string_of(&cut)
    } else {
        string_of(&out)
    }
}

// ───────────────────────── payload field scoring ─────────────────────────

/// How a leaf is compared: a string by its trimmed ASCII-lowercase text,
/// anything else by its JSON text.
pub open spec fn leaf_norm(v: Json) -> Seq<char> {
    match v {
        Json::Str(s) => lower(trim(s)),
        _ => json_text(v),
    }
}

/// A boolean synonym for true.
pub open spec fn truthy(s: Seq<char>) -> bool {
    s == "true"@ || s == "yes"@ || s == "on"@ || s == "1"@
}

/// A boolean synonym for false.
pub open spec fn falsy(s: Seq<char>) -> bool {
    s == "false"@ || s == "no"@ || s == "off"@ || s == "0"@
}

/// Lenient leaf equality: equal normal forms, or both true-like, or both
/// false-like.
pub open spec fn leaves_equal(e: Json, a: Json) -> bool {
    let x = leaf_norm(e);
    let y = leaf_norm(a);
    x == y || (truthy(x) && truthy(y)) || (falsy(x) && falsy(y))
}

/// `(matched, total)` leaf fields of `e`, each looked up by the same path in
/// `a`; a missing member or item counts as `null`.
pub open spec fn field_score_of(e: Json, a: Json) -> (nat, nat)
    decreases e,
{
    match e {
        Json::Object(entries) => entries_score(entries, a),
        Json::Array(items) => items_score(items, a),
        _ => if leaves_equal(e, a) {
            (1, 1)
        } else {
            (0, 1)
        },
    }
}

/// The scores of an object's members, summed.
pub open spec fn entries_score(e: Seq<(Seq<char>, Json)>, a: Json) -> (nat, nat)
    decreases e,
{
    if e.len() == 0 {
        (0, 0)
    } else {
        let rest = entries_score(e.drop_last(), a);
        let actual = match a.get(e.last().0) {
            Some(v) => v,
            None => Json::Null,
        };
        let here = field_score_of(e.last().1, actual);
        (rest.0 + here.0, rest.1 + here.1)
    }
}

/// The scores of an array's items, summed; item `i` is compared with item
/// `i` of `a`.
pub open spec fn items_score(items: Seq<Json>, a: Json) -> (nat, nat)
    decreases items,
{
    if items.len() == 0 {
        (0, 0)
    } else {
        let rest = items_score(items.drop_last(), a);
        let actual = match a.at(items.len() - 1) {
            Some(v) => v,
            None => Json::Null,
        };
        let here = field_score_of(items.last(), actual);
        (rest.0 + here.0, rest.1 + here.1)
    }
}

/// No more fields match than there are.
pub proof fn lemma_score_bounded(e: Json, a: Json)
    ensures
        field_score_of(e, a).0 <= field_score_of(e, a).1,
    decreases e,
{
    match e {
        Json::Object(entries) => lemma_entries_score_bounded(entries, a),
        Json::Array(items) => lemma_items_score_bounded(items, a),
        _ => {},
    }
}

proof fn lemma_entries_score_bounded(e: Seq<(Seq<char>, Json)>, a: Json)
    ensures
        entries_score(e, a).0 <= entries_score(e, a).1,
    decreases e,
{
    if e.len() > 0 {
        lemma_entries_score_bounded(e.drop_last(), a);
        let actual = match a.get(e.last().0) {
            Some(v) => v,
            None => Json::Null,
        };
        lemma_score_bounded(e.last().1, actual);
    }
}

proof fn lemma_items_score_bounded(items: Seq<Json>, a: Json)
    ensures
        items_score(items, a).0 <= items_score(items, a).1,
    decreases items,
{
    if items.len() > 0 {
        lemma_items_score_bounded(items.drop_last(), a);
        let actual = match a.at(items.len() - 1) {
            Some(v) => v,
            None => Json::Null,
        };
        lemma_score_bounded(items.last(), actual);
    }
}

proof fn lemma_entries_score_prefix(e: Seq<(Seq<char>, Json)>, a: Json, i: int)
    requires
        0 <= i <= e.len(),
    ensures
        entries_score(e.subrange(0, i), a).1 <= entries_score(e, a).1,
    decreases e.len() - i,
{
    if i < e.len() {
        lemma_entries_score_prefix(e, a, i + 1);
        assert(e.subrange(0, i + 1).drop_last() =~= e.subrange(0, i));
    } else {
        assert(e.subrange(0, i) =~= e);
    }
}

proof fn lemma_items_score_prefix(items: Seq<Json>, a: Json, i: int)
    requires
        0 <= i <= items.len(),
    ensures
        items_score(items.subrange(0, i), a).1 <= items_score(items, a).1,
    decreases items.len() - i,
{
    if i < items.len() {
        lemma_items_score_prefix(items, a, i + 1);
        assert(items.subrange(0, i + 1).drop_last() =~= items.subrange(0, i));
    } else {
        assert(items.subrange(0, i) =~= items);
    }
}

fn leaf_norm_exec(v: &JsonValue) -> (r: Vec<char>)
    ensures
        r@ == leaf_norm(v.model()),
{
    match v {
        JsonValue::Str(s) => lower_vec(&trim_vec(&chars_of(s.as_str()))),
        _ => chars_of(v.to_text().as_str()),
    }
}

fn truthy_exec(s: &[char]) -> (r: bool)
    ensures
        r == truthy(s@),
{
    eq_str(s, "true") || eq_str(s, "yes") || eq_str(s, "on") || eq_str(s, "1")
}

fn falsy_exec(s: &[char]) -> (r: bool)
    ensures
        r == falsy(s@),
{
    eq_str(s, "false") || eq_str(s, "no") || eq_str(s, "off") || eq_str(s, "0")
}

/// Compares two leaves leniently: strings ignore surrounding whitespace and
/// ASCII case, a number equals its decimal text, and `true`/`yes`/`on`/`1`
/// (and `false`/`no`/`off`/`0`) count as equal.
pub fn leaf_equal(expected: &JsonValue, actual: &JsonValue) -> (r: bool)
    ensures
        r == leaves_equal(expected.model(), actual.model()),
{
    let e = leaf_norm_exec(expected);
    let a = leaf_norm_exec(actual);
    if eq_chars(&e, &a) {
        return true;
    }
    (truthy_exec(&e) && truthy_exec(&a)) || (falsy_exec(&e) && falsy_exec(&a))
}

/// Counts the leaf fields of `expected` and how many of them `actual` has at
/// the same path (leniently equal, see `leaf_equal`).
pub fn field_score(expected: &JsonValue, actual: &JsonValue) -> (r: (u32, u32))
    requires
        field_score_of(expected.model(), actual.model()).1 <= u32::MAX,
    ensures
        r.0 == field_score_of(expected.model(), actual.model()).0,
        r.1 == field_score_of(expected.model(), actual.model()).1,
    decreases expected,
{
    match expected {
        JsonValue::Object(entries) => {
            let ghost m = entry_models(entries@);
            let ghost am = actual.model();
            proof {
                lemma_entry_models(entries@);
                assert(m.subrange(0, 0) =~= Seq::<(Seq<char>, Json)>::empty());
            }
            let null = JsonValue::Null;
            let mut matched: u32 = 0;
            let mut total: u32 = 0;
            let mut i: usize = 0;
            while i < entries.len()
                invariant
                    0 <= i <= entries.len(),
                    *expected == JsonValue::Object(*entries),
                    m == entry_models(entries@),
                    am == actual.model(),
                    m.len() == entries.len(),
                    forall|j: int|
                        0 <= j < entries.len() ==> #[trigger] m[j] == (
                            entries@[j].0@,
                            entries@[j].1.model(),
                        ),
                    entries_score(m, am).1 <= u32::MAX,
                    null.model() == Json::Null,
                    (matched as nat, total as nat) == entries_score(m.subrange(0, i as int), am),
                decreases entries.len() - i,
            {
                proof {
                    assert(m.subrange(0, i + 1).drop_last() =~= m.subrange(0, i as int));
                    lemma_entries_score_prefix(m, am, i + 1);
                    lemma_entries_score_bounded(m.subrange(0, i + 1), am);
                    assert(decreases_to!(*expected => (*expected)->Object_0));
                    assert(decreases_to!(*entries => entries@));
                    assert(decreases_to!(entries@ => entries@[i as int]));
                    assert(decreases_to!(entries@[i as int] => entries@[i as int].1));
                }
                let here = match actual.get(entries[i].0.as_str()) {
                    Some(v) => field_score(&entries[i].1, v),
                    None => field_score(&entries[i].1, &null),
                };
                matched = matched + here.0;
                total = total + here.1;
                i = i + 1;
            }
            proof {
                assert(m.subrange(0, i as int) =~= m);
            }
            (matched, total)
        },
        JsonValue::Array(items) => {
            let ghost m = models(items@);
            let ghost am = actual.model();
            proof {
                lemma_models(items@);
                assert(m.subrange(0, 0) =~= Seq::<Json>::empty());
            }
            let null = JsonValue::Null;
            let mut matched: u32 = 0;
            let mut total: u32 = 0;
            let mut i: usize = 0;
            while i < items.len()
                invariant
                    0 <= i <= items.len(),
                    *expected == JsonValue::Array(*items),
                    m == models(items@),
                    am == actual.model(),
                    m.len() == items.len(),
                    forall|j: int| 0 <= j < items.len() ==> #[trigger] m[j] == items@[j].model(),
                    items_score(m, am).1 <= u32::MAX,
                    null.model() == Json::Null,
                    (matched as nat, total as nat) == items_score(m.subrange(0, i as int), am),
                decreases items.len() - i,
            {
                proof {
                    assert(m.subrange(0, i + 1).drop_last() =~= m.subrange(0, i as int));
                    lemma_items_score_prefix(m, am, i + 1);
                    lemma_items_score_bounded(m.subrange(0, i + 1), am);
                    assert(decreases_to!(*expected => (*expected)->Array_0));
                    assert(decreases_to!(*items => items@));
                    assert(decreases_to!(items@ => items@[i as int]));
                }
                let here = match actual.at(i) {
                    Some(v) => field_score(&items[i], v),
                    None => field_score(&items[i], &null),
                };
                matched = matched + here.0;
                total = total + here.1;
                i = i + 1;
            }
            proof {
                assert(m.subrange(0, i as int) =~= m);
            }
            (matched, total)
        },
        _ => {
            if leaf_equal(expected, actual) {
                (1, 1)
            } else {
                (0, 1)
            }
        },
    }
}

/// The number of leaf fields of `e`.
pub open spec fn leaf_count(e: Json) -> nat
    decreases e,
{
    match e {
        Json::Object(entries) => entries_leaf_count(entries),
        Json::Array(items) => items_leaf_count(items),
        _ => 1,
    }
}

pub open spec fn entries_leaf_count(e: Seq<(Seq<char>, Json)>) -> nat
    decreases e,
{
    if e.len() == 0 {
        0
    } else {
        entries_leaf_count(e.drop_last()) + leaf_count(e.last().1)
    }
}

pub open spec fn items_leaf_count(items: Seq<Json>) -> nat
    decreases items,
{
    if items.len() == 0 {
        0
    } else {
        items_leaf_count(items.drop_last()) + leaf_count(items.last())
    }
}

/// The total of a field score is the number of leaves of what was expected,
/// whatever the actual document.
pub proof fn lemma_score_total(e: Json, a: Json)
    ensures
        field_score_of(e, a).1 == leaf_count(e),
    decreases e,
{
    match e {
        Json::Object(entries) => lemma_entries_score_total(entries, a),
        Json::Array(items) => lemma_items_score_total(items, a),
        _ => {},
    }
}

proof fn lemma_entries_score_total(e: Seq<(Seq<char>, Json)>, a: Json)
    ensures
        entries_score(e, a).1 == entries_leaf_count(e),
    decreases e,
{
    if e.len() > 0 {
        lemma_entries_score_total(e.drop_last(), a);
        let actual = match a.get(e.last().0) {
            Some(v) => v,
            None => Json::Null,
        };
        lemma_score_total(e.last().1, actual);
    }
}

proof fn lemma_items_score_total(items: Seq<Json>, a: Json)
    ensures
        items_score(items, a).1 == items_leaf_count(items),
    decreases items,
{
    if items.len() > 0 {
        lemma_items_score_total(items.drop_last(), a);
        let actual = match a.at(items.len() - 1) {
            Some(v) => v,
            None => Json::Null,
        };
        lemma_score_total(items.last(), actual);
    }
}

/// What an eval case expects when the model reaches the endpoint through
/// the generic `propose_action` tool.
#[derive(Debug)]
pub struct ExpectedActionSpec {
    pub endpoint: String,
    pub payload: JsonValue,
}

/// A golden eval case: a prompt, the tool the model should call and the
/// arguments it should fill in.
#[derive(Debug)]
pub struct EvalCaseSpec {
    pub id: String,
    pub prompt: String,
    pub expected_tool: String,
    pub args: JsonValue,
    pub expected_action: ExpectedActionSpec,
}

/// How a model's answer to an eval case fared: which tool it called,
/// whether that was the right tool (or `propose_action` on the right
/// endpoint), the payload fields it got right, and a sentence saying so.
#[derive(Debug)]
pub struct EvalScore {
    pub called_tool: Option<String>,
    pub tool_ok: bool,
    pub fields_matched: u32,
    pub fields_total: u32,
    pub detail: String,
}

/// The name of the tool a call invokes (`function.name`).
pub open spec fn call_name(call: Json) -> Option<Seq<char>> {
    match call.get("function"@) {
        Some(f) => match f.get("name"@) {
            Some(n) => n.text(),
            None => None,
        },
        None => None,
    }
}

/// The answer's arguments as a document; unreadable arguments count as
/// `null`.
pub open spec fn args_or_null(call: Json, parsed: Result<Json, Seq<char>>) -> Json {
    match crate::assistant::tool_arguments_of(call, parsed) {
        Ok(v) => v,
        Err(_) => Json::Null,
    }
}

/// A member of a document as text, or empty.
pub open spec fn str_member(v: Json, k: Seq<char>) -> Seq<char> {
    match v.get(k) {
        Some(m) => match m.text() {
            Some(t) => t,
            None => Seq::empty(),
        },
        None => Seq::empty(),
    }
}

/// A member of a document, or `null`.
pub open spec fn member_or_null(v: Json, k: Seq<char>) -> Json {
    match v.get(k) {
        Some(m) => m,
        None => Json::Null,
    }
}

/// Whether the tool choice was right, what was expected, what was given,
/// and the sentence about the choice: the expected tool is right; so is
/// `propose_action` aimed at the expected endpoint, where the case names
/// one; any other call, or none, is wrong.
pub open spec fn selection_of(
    expected_tool: Seq<char>,
    args: Json,
    expected_endpoint: Seq<char>,
    expected_payload: Json,
    calls: Seq<Json>,
    parsed: Result<Json, Seq<char>>,
) -> (bool, Json, Json, Seq<char>) {
    if calls.len() == 0 || call_name(calls[0]) is None {
        (false, Json::Null, Json::Null, "Model returned no tool call."@)
    } else {
        let name = call_name(calls[0])->0;
        if name == expected_tool {
            (
                true,
                args,
                args_or_null(calls[0], parsed),
                "Called expected tool `"@ + name + "`."@,
            )
        } else if name == "propose_action"@ && expected_endpoint.len() > 0 {
            let given = args_or_null(calls[0], parsed);
            let endpoint = str_member(given, "endpoint"@);
            if endpoint == expected_endpoint {
                (
                    true,
                    expected_payload,
                    member_or_null(given, "payload"@),
                    "Called propose_action targeting "@ + endpoint + " (equivalent)."@,
                )
            } else {
                (
                    false,
                    Json::Null,
                    Json::Null,
                    "Called propose_action targeting `"@ + endpoint + "`, expected `"@
                        + expected_endpoint + "` (or tool `"@ + expected_tool + "`)."@,
                )
            }
        } else {
            (
                false,
                Json::Null,
                Json::Null,
                "Called `"@ + name + "`, expected `"@ + expected_tool + "`."@,
            )
        }
    }
}

/// The sentence about an answer: the one about the tool choice, and for a
/// right choice what came of the payload fields.
pub open spec fn eval_detail(tool_ok: bool, tool_detail: Seq<char>, matched: nat, total: nat) -> Seq<
    char,
> {
    if !tool_ok {
        tool_detail
    } else if total == 0 {
        tool_detail + " No payload fields to check."@
    } else {
        tool_detail + " Payload fields "@ + decimal(matched) + "/"@ + decimal(total)
            + " correct."@
    }
}

fn null_value() -> (r: JsonValue)
    ensures
        r.model() == Json::Null,
{
    JsonValue::Null
}

fn cat(a: &str, b: &str) -> (r: String)
    ensures
        r@ == a@ + b@,
{
    let mut v = chars_of(a);
    let w = chars_of(b);
    v.extend_from_slice(w.as_slice());
    string_of(&v)
}

/// Scores a model's answer to an eval case: which tool it called, whether
/// that was right, and how many of the expected payload fields it filled in
/// correctly (see `selection_of` and `field_score`). `parsed` is the JSON
/// reader's outcome on `tool_argument_text` of the first call.
pub fn score_eval_case(
    case: &EvalCaseSpec,
    tool_calls: &Vec<JsonValue>,
    parsed: &Result<JsonValue, String>,
) -> (r: EvalScore)
    requires
        leaf_count(case.args.model()) <= u32::MAX,
        leaf_count(case.expected_action.payload.model()) <= u32::MAX,
    ensures
        ({
            let calls = crate::json::models(tool_calls@);
            let p = match parsed {
                Ok(v) => Ok(v.model()),
                Err(e) => Err(e@),
            };
            let sel = selection_of(
                case.expected_tool@,
                case.args.model(),
                case.expected_action.endpoint@,
                case.expected_action.payload.model(),
                calls,
                p,
            );
            let score = if sel.0 {
                field_score_of(sel.1, sel.2)
            } else {
                (0nat, 0nat)
            };
            &&& match r.called_tool {
                Some(t) => calls.len() > 0 && call_name(calls[0]) == Some(t@),
                None => calls.len() == 0 || call_name(calls[0]) is None,
            }
            &&& r.tool_ok == sel.0
            &&& r.fields_matched == score.0
            &&& r.fields_total == score.1
            &&& r.detail@ == eval_detail(sel.0, sel.3, score.0, score.1)
        }),
{
    proof {
        lemma_models(tool_calls@);
    }
    let null = null_value();
    let name: Option<&String> = if tool_calls.len() == 0 {
        None
    } else {
        match tool_calls[0].get("function") {
            Some(f) => match f.get("name") {
                Some(n) => n.as_str(),
                None => None,
            },
            None => None,
        }
    };
    let name = match name {
        None => {
            return EvalScore {
                called_tool: None,
                tool_ok: false,
                fields_matched: 0,
                fields_total: 0,
                detail: string_of(&chars_of("Model returned no tool call.")),
            };
        },
        Some(n) => n,
    };
    let args = crate::assistant::parse_tool_arguments(&tool_calls[0], parsed);
    let given = match args {
        Ok(v) => v,
        Err(_) => null_value(),
    };
    let propose = "propose_action".to_owned();
    let (tool_ok, expected, actual, tool_detail): (bool, &JsonValue, JsonValue, String) = if *name
        == case.expected_tool {
        (true, &case.args, given, cat(cat("Called expected tool `", name.as_str()).as_str(), "`."))
    } else if *name == propose && !case.expected_action.endpoint.as_str().is_empty() {
        let endpoint: String = match given.get("endpoint") {
            Some(e) => match e.as_str() {
                Some(t) => t.clone(),
                None => String::new(),
            },
            None => String::new(),
        };
        if endpoint == case.expected_action.endpoint {
            let payload = match given.get("payload") {
                Some(p) => p.duplicate(),
                None => null_value(),
            };
            (
                true,
                &case.expected_action.payload,
                payload,
                cat(cat("Called propose_action targeting ", endpoint.as_str()).as_str(), " (equivalent)."),
            )
        } else {
            let a = cat("Called propose_action targeting `", endpoint.as_str());
            let b = cat(a.as_str(), "`, expected `");
            let c = cat(b.as_str(), case.expected_action.endpoint.as_str());
            let d = cat(c.as_str(), "` (or tool `");
            let e = cat(d.as_str(), case.expected_tool.as_str());
            (false, &null, null_value(), cat(e.as_str(), "`)."))
        }
    } else {
        let a = cat("Called `", name.as_str());
        let b = cat(a.as_str(), "`, expected `");
        let c = cat(b.as_str(), case.expected_tool.as_str());
        (false, &null, null_value(), cat(c.as_str(), "`."))
    };
    let (matched, total) = if tool_ok {
        proof {
            lemma_score_total(expected.model(), actual.model());
        }
        field_score(expected, &actual)
    } else {
        (0, 0)
    };
    let detail = if !tool_ok {
        tool_detail
    } else if total == 0 {
        cat(tool_detail.as_str(), " No payload fields to check.")
    } else {
        let m = string_of(&decimal_exec(matched as u64));
        let t = string_of(&decimal_exec(total as u64));
        let a = cat(tool_detail.as_str(), " Payload fields ");
        let b = cat(a.as_str(), m.as_str());
        let c = cat(b.as_str(), "/");
        let d = cat(c.as_str(), t.as_str());
        cat(d.as_str(), " correct.")
    };
    EvalScore { called_tool: Some(name.clone()), tool_ok, fields_matched: matched, fields_total: total, detail }
}

proof fn lemma_lookup_distinct(e: Seq<(Seq<char>, Json)>, i: int)
    requires
        distinct_keys(e),
        0 <= i < e.len(),
    ensures
        lookup(e, e[i].0) == Some(e[i].1),
    decreases i,
{
    if i > 0 {
        assert(e[0].0 != e[i].0);
        let t = e.drop_first();
        assert(distinct_keys(t)) by {
            assert forall|a: int, b: int| 0 <= a < b < t.len() implies #[trigger] t[a].0 != #[trigger] t[b].0 by {
                assert(t[a] == e[a + 1] && t[b] == e[b + 1]);
            }
        }
        assert(t[i - 1] == e[i]);
        lemma_lookup_distinct(t, i - 1);
    }
}

proof fn lemma_entries_self_score(e: Seq<(Seq<char>, Json)>, k: int)
    requires
        distinct_keys(e),
        forall|i: int| 0 <= i < e.len() ==> well_formed(#[trigger] e[i].1),
        0 <= k <= e.len(),
    ensures
        entries_score(e.subrange(0, k), Json::Object(e)).0 == entries_score(e.subrange(0, k), Json::Object(e)).1,
    decreases e, k,
{
    if k > 0 {
        let p = e.subrange(0, k);
        assert(p.drop_last() =~= e.subrange(0, k - 1));
        assert(p.last() == e[k - 1]);
        lemma_entries_self_score(e, k - 1);
        lemma_lookup_distinct(e, k - 1);
        assert(well_formed(e[k - 1].1));
        assert(decreases_to!(e => e[k - 1]));
        assert(decreases_to!(e[k - 1] => e[k - 1].1));
        law_self_score_is_perfect(e[k - 1].1);
    }
}

proof fn lemma_items_self_score(items: Seq<Json>, k: int)
    requires
        forall|i: int| 0 <= i < items.len() ==> well_formed(#[trigger] items[i]),
        0 <= k <= items.len(),
    ensures
        items_score(items.subrange(0, k), Json::Array(items)).0 == items_score(items.subrange(0, k), Json::Array(items)).1,
    decreases items, k,
{
    if k > 0 {
        let p = items.subrange(0, k);
        assert(p.drop_last() =~= items.subrange(0, k - 1));
        assert(p.last() == items[k - 1]);
        lemma_items_self_score(items, k - 1);
        assert(well_formed(items[k - 1]));
        assert(decreases_to!(items => items[k - 1]));
        law_self_score_is_perfect(items[k - 1]);
    }
}

/// An answer that is exactly what was expected gets every field right: a
/// well-formed document scored against itself matches all its leaves.
pub proof fn law_self_score_is_perfect(v: Json)
    requires
        well_formed(v),
    ensures
        field_score_of(v, v).0 == field_score_of(v, v).1,
    decreases v, 0int,
{
    match v {
        Json::Object(e) => {
            lemma_entries_self_score(e, e.len() as int);
            assert(e.subrange(0, e.len() as int) =~= e);
        },
        Json::Array(items) => {
            lemma_items_self_score(items, items.len() as int);
            assert(items.subrange(0, items.len() as int) =~= items);
        },
        _ => {},
    }
}

} // verus!

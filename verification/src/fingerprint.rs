//! Fingerprints of configuration state. An assistant action that was
//! prepared against some state carries the state's fingerprint, and is only
//! applied while the state still has it. The fingerprint is the SHA-256 of
//! the state's canonical JSON text, in lowercase hex; the canonical form
//! orders every object's members by key, so the order in which members were
//! written does not change it.
use vstd::prelude::*;
use sha2::{Digest, Sha256};
use crate::order::{seq_lt, compare_chars, lemma_seq_lt_irreflexive, lemma_seq_lt_asymmetric,
    lemma_seq_lt_transitive, lemma_seq_lt_total};
use crate::text::{chars_of, string_of};
use crate::json::{
    Json, JsonValue, json_text, models, entry_models, lemma_models, lemma_entry_models,
};

verus! {

// ───────────────────────── canonical form ─────────────────────────

/// Inserts `x` into `s` before the first member whose key is greater than
/// `x`'s key.
pub open spec fn insert_by_key(s: Seq<(Seq<char>, Json)>, x: (Seq<char>, Json)) -> Seq<
    (Seq<char>, Json),
>
    decreases s.len(),
{
    if s.len() == 0 {
        seq![x]
    } else if seq_lt(x.0, s[0].0) {
        seq![x] + s
    } else {
        seq![s[0]] + insert_by_key(s.drop_first(), x)
    }
}

/// Members ordered by key (code-point order, which is `String`'s order).
pub open spec fn sort_by_key(s: Seq<(Seq<char>, Json)>) -> Seq<(Seq<char>, Json)>
    decreases s.len(),
{
    if s.len() == 0 {
        s
    } else {
        insert_by_key(sort_by_key(s.drop_last()), s.last())
    }
}

/// The canonical form of a document: every object's members ordered by key,
/// at every depth.
pub open spec fn canonical(v: Json) -> Json
    decreases v,
{
    match v {
        Json::Object(e) => Json::Object(sort_by_key(canonical_entries(e))),
        Json::Array(items) => Json::Array(canonical_items(items)),
        _ => v,
    }
}

/// Members with their values in canonical form, in the same order.
pub open spec fn canonical_entries(e: Seq<(Seq<char>, Json)>) -> Seq<(Seq<char>, Json)>
    decreases e,
{
    if e.len() == 0 {
        Seq::empty()
    } else {
        canonical_entries(e.drop_last()).push((e.last().0, canonical(e.last().1)))
    }
}

/// Items in canonical form, in the same order.
pub open spec fn canonical_items(items: Seq<Json>) -> Seq<Json>
    decreases items,
{
    if items.len() == 0 {
        Seq::empty()
    } else {
        canonical_items(items.drop_last()).push(canonical(items.last()))
    }
}

pub proof fn lemma_canonical_entries(e: Seq<(Seq<char>, Json)>)
    ensures
        canonical_entries(e).len() == e.len(),
        forall|i: int|
            0 <= i < e.len() ==> #[trigger] canonical_entries(e)[i] == (e[i].0, canonical(e[i].1)),
    decreases e.len(),
{
    if e.len() > 0 {
        lemma_canonical_entries(e.drop_last());
    }
}

pub proof fn lemma_canonical_items(items: Seq<Json>)
    ensures
        canonical_items(items).len() == items.len(),
        forall|i: int| 0 <= i < items.len() ==> #[trigger] canonical_items(items)[i] == canonical(items[i]),
    decreases items.len(),
{
    if items.len() > 0 {
        lemma_canonical_items(items.drop_last());
    }
}

/// `insert_by_key` inserts at the first position whose key is greater.
proof fn lemma_insert_at(s: Seq<(Seq<char>, Json)>, x: (Seq<char>, Json), k: int)
    requires
        0 <= k <= s.len(),
        forall|j: int| 0 <= j < k ==> !seq_lt(x.0, #[trigger] s[j].0),
        k < s.len() ==> seq_lt(x.0, s[k].0),
    ensures
        insert_by_key(s, x) == s.insert(k, x),
    decreases k,
{
    if k == 0 {
        if s.len() == 0 {
            assert(seq![x] =~= s.insert(0, x));
        } else {
            assert(seq![x] + s =~= s.insert(0, x));
        }
    } else {
        assert(!seq_lt(x.0, s[0].0));
        let t = s.drop_first();
        assert forall|j: int| 0 <= j < k - 1 implies !seq_lt(x.0, #[trigger] t[j].0) by {
            assert(t[j] == s[j + 1]);
        }
        lemma_insert_at(t, x, k - 1);
        assert(seq![s[0]] + t.insert(k - 1, x) =~= s.insert(k, x));
    }
}

/// Where `insert_by_key` puts `x`.
proof fn lemma_insert_position(s: Seq<(Seq<char>, Json)>, x: (Seq<char>, Json)) -> (k: int)
    ensures
        0 <= k <= s.len(),
        forall|j: int| 0 <= j < k ==> !seq_lt(x.0, #[trigger] s[j].0),
        k < s.len() ==> seq_lt(x.0, s[k].0),
        insert_by_key(s, x) == s.insert(k, x),
    decreases s.len(),
{
    if s.len() == 0 || seq_lt(x.0, s[0].0) {
        lemma_insert_at(s, x, 0);
        0
    } else {
        let t = s.drop_first();
        let k1 = lemma_insert_position(t, x);
        assert forall|j: int| 0 <= j < k1 + 1 implies !seq_lt(x.0, #[trigger] s[j].0) by {
            if j > 0 {
                assert(s[j] == t[j - 1]);
            }
        }
        if k1 + 1 < s.len() {
            assert(s[k1 + 1] == t[k1]);
        }
        lemma_insert_at(s, x, k1 + 1);
        k1 + 1
    }
}

/// Keys strictly increase along the members.
pub open spec fn strictly_sorted(s: Seq<(Seq<char>, Json)>) -> bool {
    forall|i: int, j: int| 0 <= i < j < s.len() ==> seq_lt(#[trigger] s[i].0, #[trigger] s[j].0)
}

/// No key is named twice.
pub open spec fn keys_distinct(s: Seq<(Seq<char>, Json)>) -> bool {
    forall|i: int, j: int| 0 <= i < j < s.len() ==> #[trigger] s[i].0 != #[trigger] s[j].0
}

proof fn lemma_insert_keeps_sorted(s: Seq<(Seq<char>, Json)>, x: (Seq<char>, Json))
    requires
        strictly_sorted(s),
        forall|j: int| 0 <= j < s.len() ==> #[trigger] s[j].0 != x.0,
    ensures
        strictly_sorted(insert_by_key(s, x)),
{
    let k = lemma_insert_position(s, x);
    let r = s.insert(k, x);
    assert forall|j: int| 0 <= j < k implies seq_lt(#[trigger] s[j].0, x.0) by {
        lemma_seq_lt_total(s[j].0, x.0);
    }
    assert forall|j: int| k <= j < s.len() implies seq_lt(x.0, #[trigger] s[j].0) by {
        if j > k {
            lemma_seq_lt_transitive(x.0, s[k].0, s[j].0);
        }
    }
    assert forall|a: int, b: int| 0 <= a < b < r.len() implies seq_lt(
        #[trigger] r[a].0,
        #[trigger] r[b].0,
    ) by {
        if b < k {
            assert(r[a] == s[a] && r[b] == s[b]);
        } else if b == k {
            assert(r[a] == s[a]);
        } else if a < k {
            assert(r[a] == s[a] && r[b] == s[b - 1]);
            lemma_seq_lt_transitive(s[a].0, x.0, s[b - 1].0);
        } else if a == k {
            assert(r[b] == s[b - 1]);
        } else {
            assert(r[a] == s[a - 1] && r[b] == s[b - 1]);
        }
    }
}

/// Sorting keeps the members and, where keys are distinct, orders them
/// strictly.
pub proof fn lemma_sort_by_key(s: Seq<(Seq<char>, Json)>)
    ensures
        sort_by_key(s).len() == s.len(),
        forall|z: (Seq<char>, Json)| #[trigger] sort_by_key(s).contains(z) <==> s.contains(z),
        keys_distinct(s) ==> strictly_sorted(sort_by_key(s)),
    decreases s.len(),
{
    if s.len() > 0 {
        let d = s.drop_last();
        let x = s.last();
        lemma_sort_by_key(d);
        let t = sort_by_key(d);
        let k = lemma_insert_position(t, x);
        let r = t.insert(k, x);
        assert forall|z: (Seq<char>, Json)| #[trigger] r.contains(z) <==> s.contains(z) by {
            if r.contains(z) {
                let i = choose|i: int| 0 <= i < r.len() && r[i] == z;
                if i < k {
                    assert(t[i] == z);
                    assert(t.contains(z));
                    let j = choose|j: int| 0 <= j < d.len() && d[j] == z;
                    assert(s[j] == z);
                } else if i == k {
                    assert(s[s.len() - 1] == z);
                } else {
                    assert(t[i - 1] == z);
                    assert(t.contains(z));
                    let j = choose|j: int| 0 <= j < d.len() && d[j] == z;
                    assert(s[j] == z);
                }
            }
            if s.contains(z) {
                let i = choose|i: int| 0 <= i < s.len() && s[i] == z;
                if i == s.len() - 1 {
                    assert(r[k] == z);
                } else {
                    assert(d[i] == z);
                    assert(d.contains(z));
                    assert(t.contains(z));
                    let j = choose|j: int| 0 <= j < t.len() && t[j] == z;
                    if j < k {
                        assert(r[j] == z);
                    } else {
                        assert(r[j + 1] == z);
                    }
                }
            }
        }
        if keys_distinct(s) {
            assert(keys_distinct(d)) by {
                assert forall|i: int, j: int| 0 <= i < j < d.len() implies #[trigger] d[i].0
                    != #[trigger] d[j].0 by {
                    assert(d[i] == s[i] && d[j] == s[j]);
                }
            }
            assert forall|j: int| 0 <= j < t.len() implies #[trigger] t[j].0 != x.0 by {
                assert(t.contains(t[j]));
                let i = choose|i: int| 0 <= i < d.len() && d[i] == t[j];
                assert(s[i] == d[i]);
            }
            lemma_insert_keeps_sorted(t, x);
        }
    }
}

/// Two strictly sorted member lists with the same members are equal.
pub proof fn lemma_sorted_members_unique(x: Seq<(Seq<char>, Json)>, y: Seq<(Seq<char>, Json)>)
    requires
        strictly_sorted(x),
        strictly_sorted(y),
        forall|z: (Seq<char>, Json)| #[trigger] x.contains(z) <==> y.contains(z),
    ensures
        x == y,
    decreases x.len(),
{
    if x.len() == 0 {
        if y.len() > 0 {
            assert(y.contains(y[0]));
            assert(x.contains(y[0]));
            let j = choose|j: int| 0 <= j < x.len() && x[j] == y[0];
            assert(false);
        }
        assert(x =~= y);
    } else if y.len() == 0 {
        assert(x.contains(x[0]));
    } else {
        assert(x.contains(x[0]));
        assert(y.contains(x[0]));
        let i = choose|i: int| 0 <= i < y.len() && y[i] == x[0];
        assert(y.contains(y[0]));
        assert(x.contains(y[0]));
        let j = choose|j: int| 0 <= j < x.len() && x[j] == y[0];
        if i > 0 {
            if j > 0 {
                lemma_seq_lt_transitive(y[0].0, y[i].0, x[j].0);
                lemma_seq_lt_irreflexive(y[0].0);
            } else {
                lemma_seq_lt_irreflexive(y[0].0);
            }
        }
        assert(x[0] == y[0]);
        let x1 = x.drop_first();
        let y1 = y.drop_first();
        assert forall|z: (Seq<char>, Json)| #[trigger] x1.contains(z) <==> y1.contains(z) by {
            if x1.contains(z) {
                let a = choose|a: int| 0 <= a < x1.len() && x1[a] == z;
                assert(x[a + 1] == z);
                assert(x.contains(z));
                assert(y.contains(z));
                let b = choose|b: int| 0 <= b < y.len() && y[b] == z;
                if b == 0 {
                    lemma_seq_lt_irreflexive(x[0].0);
                }
                assert(y1[b - 1] == z);
            }
            if y1.contains(z) {
                let b = choose|b: int| 0 <= b < y1.len() && y1[b] == z;
                assert(y[b + 1] == z);
                assert(y.contains(z));
                assert(x.contains(z));
                let a = choose|a: int| 0 <= a < x.len() && x[a] == z;
                if a == 0 {
                    lemma_seq_lt_irreflexive(y[0].0);
                }
                assert(x1[a - 1] == z);
            }
        }
        lemma_sorted_members_unique(x1, y1);
        assert(x =~= seq![x[0]] + x1);
        assert(y =~= seq![y[0]] + y1);
    }
}

/// Where to insert a member with key `key` among `out`: after every member
/// whose key is not greater.
fn insert_position(out: &Vec<(String, JsonValue)>, key: &[char]) -> (k: usize)
    ensures
        k <= out.len(),
        forall|j: int| 0 <= j < k ==> !seq_lt(key@, #[trigger] out@[j].0@),
        k < out.len() ==> seq_lt(key@, out@[k as int].0@),
{
    let mut k: usize = 0;
    while k < out.len()
        invariant
            k <= out.len(),
            forall|j: int| 0 <= j < k ==> !seq_lt(key@, #[trigger] out@[j].0@),
        decreases out.len() - k,
    {
        let other = chars_of(out[k].0.as_str());
        if compare_chars(key, &other) == -1 {
            return k;
        }
        k = k + 1;
    }
    k
}

/// The canonical form of a document: objects' members ordered by key at
/// every depth (the order in which a `BTreeMap` holds them).
pub fn canonicalize_value(value: &JsonValue) -> (r: JsonValue)
    ensures
        r.model() == canonical(value.model()),
    decreases value,
{
    match value {
        JsonValue::Object(entries) => {
            let ghost m = entry_models(entries@);
            let ghost c = canonical_entries(m);
            proof {
                lemma_entry_models(entries@);
                lemma_canonical_entries(m);
                assert(c.subrange(0, 0) =~= Seq::<(Seq<char>, Json)>::empty());
            }
            let mut out: Vec<(String, JsonValue)> = Vec::new();
            let ghost mut sm: Seq<(Seq<char>, Json)> = Seq::empty();
            let mut i: usize = 0;
            while i < entries.len()
                invariant
                    0 <= i <= entries.len(),
                    *value == JsonValue::Object(*entries),
                    m == entry_models(entries@),
                    c == canonical_entries(m),
                    m.len() == entries.len(),
                    c.len() == entries.len(),
                    forall|j: int|
                        0 <= j < entries.len() ==> #[trigger] m[j] == (
                            entries@[j].0@,
                            entries@[j].1.model(),
                        ),
                    forall|j: int| 0 <= j < entries.len() ==> #[trigger] c[j] == (m[j].0, canonical(m[j].1)),
                    sm == sort_by_key(c.subrange(0, i as int)),
                    out.len() == sm.len(),
                    forall|j: int| 0 <= j < out.len() ==> (#[trigger] out@[j]).0@ == sm[j].0 && out@[j].1.model() == sm[j].1,
                decreases entries.len() - i,
            {
                proof {
                    assert(decreases_to!(*value => (*value)->Object_0));
                    assert(decreases_to!(*entries => entries@));
                    assert(decreases_to!(entries@ => entries@[i as int]));
                    assert(decreases_to!(entries@[i as int] => entries@[i as int].1));
                }
                let key = entries[i].0.clone();
                let val = canonicalize_value(&entries[i].1);
                let kc = chars_of(key.as_str());
                let k = insert_position(&out, &kc);
                let ghost x = (key@, val.model());
                proof {
                    assert(x == c[i as int]);
                    assert forall|j: int| 0 <= j < k implies !seq_lt(x.0, #[trigger] sm[j].0) by {
                        assert(out@[j].0@ == sm[j].0);
                    }
                    lemma_insert_at(sm, x, k as int);
                    assert(c.subrange(0, i + 1).drop_last() =~= c.subrange(0, i as int));
                    assert(c.subrange(0, i + 1).last() == c[i as int]);
                }
                let ghost old_out = out@;
                out.insert(k, (key, val));
                proof {
                    let nsm = sm.insert(k as int, x);
                    assert forall|j: int| 0 <= j < out.len() implies (#[trigger] out@[j]).0@
                        == nsm[j].0 && out@[j].1.model() == nsm[j].1 by {
                        if j < k {
                            assert(out@[j] == old_out[j]);
                        } else if j > k {
                            assert(out@[j] == old_out[j - 1]);
                        }
                    }
                    sm = nsm;
                }
                i = i + 1;
            }
            proof {
                assert(c.subrange(0, i as int) =~= c);
                lemma_entry_models(out@);
                assert(entry_models(out@) =~= sm);
            }
            JsonValue::Object(out)
        },
        JsonValue::Array(items) => {
            let ghost m = models(items@);
            proof {
                lemma_models(items@);
                lemma_canonical_items(m);
            }
            let mut out: Vec<JsonValue> = Vec::new();
            let mut i: usize = 0;
            while i < items.len()
                invariant
                    0 <= i <= items.len(),
                    *value == JsonValue::Array(*items),
                    m == models(items@),
                    m.len() == items.len(),
                    canonical_items(m).len() == items.len(),
                    forall|j: int| 0 <= j < items.len() ==> #[trigger] m[j] == items@[j].model(),
                    forall|j: int|
                        0 <= j < items.len() ==> #[trigger] canonical_items(m)[j] == canonical(m[j]),
                    out.len() == i,
                    forall|j: int| 0 <= j < i ==> (#[trigger] out@[j]).model() == canonical(m[j]),
                decreases items.len() - i,
            {
                proof {
                    assert(decreases_to!(*value => (*value)->Array_0));
                    assert(decreases_to!(*items => items@));
                    assert(decreases_to!(items@ => items@[i as int]));
                }
                let v = canonicalize_value(&items[i]);
                out.push(v);
                i = i + 1;
            }
            proof {
                lemma_models(out@);
                assert(models(out@) =~= canonical_items(m));
            }
            JsonValue::Array(out)
        },
        _ => value.duplicate(),
    }
}

// ───────────────────────── fingerprints ─────────────────────────

/// The SHA-256 digest of a byte string.
pub uninterp spec fn sha256_of(bytes: Seq<u8>) -> Seq<u8>;

/// `sha2::Sha256::digest`: the digest of `bytes`. The contract names the
/// digest and claims nothing more of it.
#[verifier::external_body]
fn sha256(bytes: &[u8]) -> (r: Vec<u8>)
    ensures
        r@ == sha256_of(bytes@),
{
    Sha256::digest(bytes).to_vec()
}

/// A lowercase hexadecimal digit.
pub open spec fn hex_digit(n: u8) -> char {
    if n < 10 {
        ((48 + n) as u8) as char
    } else {
        ((87 + n) as u8) as char
    }
}

/// Bytes as lowercase hex, two digits each (`{:02x}`).
pub open spec fn hex_text(b: Seq<u8>) -> Seq<char>
    decreases b.len(),
{
    if b.len() == 0 {
        Seq::empty()
    } else {
        hex_text(b.drop_last()) + seq![hex_digit(b.last() / 16), hex_digit(b.last() % 16)]
    }
}

fn hex_digit_exec(n: u8) -> (r: char)
    requires
        n < 16,
    ensures
        r == hex_digit(n),
{
    if n < 10 {
        (48 + n) as char
    } else {
        (87 + n) as char
    }
}

pub(crate) fn hex_of(b: &Vec<u8>) -> (r: Vec<char>)
    ensures
        r@ == hex_text(b@),
{
    let mut out: Vec<char> = Vec::new();
    let mut i: usize = 0;
    while i < b.len()
        invariant
            i <= b.len(),
            out@ == hex_text(b@.subrange(0, i as int)),
        decreases b.len() - i,
    {
        proof {
            assert(b@.subrange(0, i + 1).drop_last() =~= b@.subrange(0, i as int));
        }
        out.push(hex_digit_exec(b[i] / 16));
        out.push(hex_digit_exec(b[i] % 16));
        i = i + 1;
        proof {
            assert(out@ =~= hex_text(b@.subrange(0, i as int)));
        }
    }
    proof {
        assert(b@.subrange(0, i as int) =~= b@);
    }
    out
}

/// The fingerprint of a document: the lowercase hex SHA-256 of the UTF-8
/// bytes of its canonical JSON text.
pub open spec fn fingerprint_of(v: Json) -> Seq<char> {
    hex_text(sha256_of(vstd::utf8::encode_utf8(json_text(canonical(v)))))
}

/// Fingerprints a document.
pub fn stable_value_hash(value: &JsonValue) -> (r: String)
    ensures
        r@ == fingerprint_of(value.model()),
{
    let canon = canonicalize_value(value);
    let text = canon.to_text();
    let digest = sha256(text.as_str().as_bytes());
    string_of(&hex_of(&digest))
}

/// What an action expects of a piece of state when it is applied.
#[derive(Debug, Clone)]
pub struct AssistantActionPrecondition {
    pub resource: String,
    pub expected_hash: String,
    pub message: String,
}

/// The precondition that `resource` still has the state `value`.
pub fn action_state_precondition(resource: &str, value: &JsonValue, message: &str) -> (r:
    AssistantActionPrecondition)
    ensures
        r.resource@ == resource@,
        r.expected_hash@ == fingerprint_of(value.model()),
        r.message@ == message@,
{
    AssistantActionPrecondition {
        resource: resource.to_owned(),
        expected_hash: stable_value_hash(value),
        message: message.to_owned(),
    }
}

// ───────────────────────── laws ─────────────────────────

/// Two objects with the same members (each key named once, and the values
/// under a key of equal canonical form), written in any order, have the
/// same canonical form and so the same fingerprint. Applied at each depth,
/// this makes the fingerprint independent of the order of members anywhere
/// in a document.
pub proof fn law_fingerprint_ignores_member_order(
    e1: Seq<(Seq<char>, Json)>,
    e2: Seq<(Seq<char>, Json)>,
)
    requires
        keys_distinct(e1),
        keys_distinct(e2),
        forall|i: int|
            0 <= i < e1.len() ==> exists|j: int|
                0 <= j < e2.len() && (#[trigger] e2[j]).0 == (#[trigger] e1[i]).0 && canonical(
                    e2[j].1,
                ) == canonical(e1[i].1),
        forall|j: int|
            0 <= j < e2.len() ==> exists|i: int|
                0 <= i < e1.len() && (#[trigger] e1[i]).0 == (#[trigger] e2[j]).0 && canonical(
                    e1[i].1,
                ) == canonical(e2[j].1),
    ensures
        canonical(Json::Object(e1)) == canonical(Json::Object(e2)),
        fingerprint_of(Json::Object(e1)) == fingerprint_of(Json::Object(e2)),
{
    let c1 = canonical_entries(e1);
    let c2 = canonical_entries(e2);
    lemma_canonical_entries(e1);
    lemma_canonical_entries(e2);
    assert(keys_distinct(c1)) by {
        assert forall|i: int, j: int| 0 <= i < j < c1.len() implies #[trigger] c1[i].0
            != #[trigger] c1[j].0 by {
            assert(c1[i].0 == e1[i].0 && c1[j].0 == e1[j].0);
        }
    }
    assert(keys_distinct(c2)) by {
        assert forall|i: int, j: int| 0 <= i < j < c2.len() implies #[trigger] c2[i].0
            != #[trigger] c2[j].0 by {
            assert(c2[i].0 == e2[i].0 && c2[j].0 == e2[j].0);
        }
    }
    assert forall|z: (Seq<char>, Json)| #[trigger] c1.contains(z) <==> c2.contains(z) by {
        if c1.contains(z) {
            let i = choose|i: int| 0 <= i < c1.len() && c1[i] == z;
            assert(e1[i] == e1[i]);
            let j = choose|j: int|
                0 <= j < e2.len() && (#[trigger] e2[j]).0 == e1[i].0 && canonical(e2[j].1)
                    == canonical(e1[i].1);
            assert(c2[j] == z);
        }
        if c2.contains(z) {
            let j = choose|j: int| 0 <= j < c2.len() && c2[j] == z;
            assert(e2[j] == e2[j]);
            let i = choose|i: int|
                0 <= i < e1.len() && (#[trigger] e1[i]).0 == e2[j].0 && canonical(e1[i].1)
                    == canonical(e2[j].1);
            assert(c1[i] == z);
        }
    }
    lemma_sort_by_key(c1);
    lemma_sort_by_key(c2);
    lemma_sorted_members_unique(sort_by_key(c1), sort_by_key(c2));
}

} // verus!

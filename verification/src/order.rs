//! Orderings used for sorting and grouping: lexicographic order on strings
//! (the order of `String::cmp`, which for UTF-8 agrees with code-point order),
//! and a stable sort by `(number, text)` keys.
use vstd::prelude::*;

verus! {

/// `a < b` in lexicographic code-point order.
pub open spec fn seq_lt(a: Seq<char>, b: Seq<char>) -> bool
    decreases a.len(),
{
    if a.len() == 0 {
        b.len() > 0
    } else if b.len() == 0 {
        false
    } else if (a[0] as int) < (b[0] as int) {
        true
    } else if (a[0] as int) > (b[0] as int) {
        false
    } else {
        seq_lt(a.subrange(1, a.len() as int), b.subrange(1, b.len() as int))
    }
}

pub proof fn lemma_seq_lt_irreflexive(a: Seq<char>)
    ensures
        !seq_lt(a, a),
    decreases a.len(),
{
    if a.len() > 0 {
        lemma_seq_lt_irreflexive(a.subrange(1, a.len() as int));
    }
}

pub proof fn lemma_seq_lt_asymmetric(a: Seq<char>, b: Seq<char>)
    requires
        seq_lt(a, b),
    ensures
        !seq_lt(b, a),
    decreases a.len(),
{
    if a.len() > 0 && b.len() > 0 && a[0] == b[0] {
        lemma_seq_lt_asymmetric(a.subrange(1, a.len() as int), b.subrange(1, b.len() as int));
    }
}

pub proof fn lemma_seq_lt_transitive(a: Seq<char>, b: Seq<char>, c: Seq<char>)
    requires
        seq_lt(a, b),
        seq_lt(b, c),
    ensures
        seq_lt(a, c),
    decreases a.len(),
{
    if a.len() > 0 && b.len() > 0 && c.len() > 0 && a[0] == b[0] && b[0] == c[0] {
        lemma_seq_lt_transitive(
            a.subrange(1, a.len() as int),
            b.subrange(1, b.len() as int),
            c.subrange(1, c.len() as int),
        );
    }
}

pub proof fn lemma_seq_lt_total(a: Seq<char>, b: Seq<char>)
    requires
        a != b,
    ensures
        seq_lt(a, b) || seq_lt(b, a),
    decreases a.len(),
{
    if a.len() > 0 && b.len() > 0 && a[0] == b[0] {
        let a1 = a.subrange(1, a.len() as int);
        let b1 = b.subrange(1, b.len() as int);
        if a1 == b1 {
            assert(a =~= seq![a[0]] + a1);
            assert(b =~= seq![b[0]] + b1);
        }
        lemma_seq_lt_total(a1, b1);
    } else if a.len() > 0 && b.len() > 0 {
        assert((a[0] as int) != (b[0] as int));
    } else if a.len() == 0 && b.len() == 0 {
        assert(a =~= b);
    }
}

/// Three-way comparison of two character slices: -1, 0 or 1.
pub fn compare_chars(a: &[char], b: &[char]) -> (r: i8)
    ensures
        r == -1 <==> seq_lt(a@, b@),
        r == 0 <==> a@ == b@,
        r == 1 <==> seq_lt(b@, a@),
        r == -1 || r == 0 || r == 1,
{
    let mut i: usize = 0;
    assert(a@.subrange(0, a.len() as int) =~= a@);
    assert(b@.subrange(0, b.len() as int) =~= b@);
    while i < a.len() && i < b.len()
        invariant
            i <= a.len(),
            i <= b.len(),
            forall|j: int| 0 <= j < i ==> a@[j] == b@[j],
            seq_lt(a@, b@) == seq_lt(a@.subrange(i as int, a.len() as int), b@.subrange(i as int, b.len() as int)),
            seq_lt(b@, a@) == seq_lt(b@.subrange(i as int, b.len() as int), a@.subrange(i as int, a.len() as int)),
        decreases a.len() - i,
    {
        let ghost ra = a@.subrange(i as int, a.len() as int);
        let ghost rb = b@.subrange(i as int, b.len() as int);
        assert(ra.subrange(1, ra.len() as int) =~= a@.subrange(i + 1, a.len() as int));
        assert(rb.subrange(1, rb.len() as int) =~= b@.subrange(i + 1, b.len() as int));
        let x: char = a[i];
        let y: char = b[i];
        if x < y {
            proof {
                lemma_seq_lt_asymmetric(a@, b@);
            }
            assert(a@[i as int] != b@[i as int]);
            return -1;
        }
        if x > y {
            proof {
                lemma_seq_lt_asymmetric(b@, a@);
            }
            assert(a@[i as int] != b@[i as int]);
            return 1;
        }
        assert(a@[i as int] == b@[i as int]);
        i = i + 1;
    }
    let ghost ra = a@.subrange(i as int, a.len() as int);
    let ghost rb = b@.subrange(i as int, b.len() as int);
    if a.len() == b.len() {
        assert(a@ =~= b@);
        proof {
            lemma_seq_lt_irreflexive(a@);
        }
        0
    } else if a.len() < b.len() {
        -1
    } else {
        1
    }
}

// ───────────────────────── keyed stable sort ─────────────────────────

/// A sort key: a number, then a text.
pub struct SortKey {
    pub num: i128,
    pub text: Vec<char>,
}

pub open spec fn key_view(k: SortKey) -> (int, Seq<char>) {
    (k.num as int, k.text@)
}

pub open spec fn keys_view(ks: Seq<SortKey>) -> Seq<(int, Seq<char>)> {
    ks.map_values(|k: SortKey| key_view(k))
}

/// Strict order on keys: by number, then by text.
pub open spec fn key_lt(a: (int, Seq<char>), b: (int, Seq<char>)) -> bool {
    a.0 < b.0 || (a.0 == b.0 && seq_lt(a.1, b.1))
}

/// Strict order on positions: by key (descending when `desc`), ties broken
/// by position, so that a sort by this order is stable.
pub open spec fn entry_lt_dir(keys: Seq<(int, Seq<char>)>, i: int, j: int, desc: bool) -> bool {
    (if desc {
        key_lt(keys[j], keys[i])
    } else {
        key_lt(keys[i], keys[j])
    }) || (keys[i] == keys[j] && i < j)
}

/// `p` lists every position of `keys` exactly once, in stable key order,
/// descending when `desc`.
pub open spec fn is_sorted_perm_dir(keys: Seq<(int, Seq<char>)>, p: Seq<int>, desc: bool) -> bool {
    &&& p.len() == keys.len()
    &&& forall|k: int| 0 <= k < p.len() ==> 0 <= #[trigger] p[k] < keys.len()
    &&& forall|a: int, b: int| 0 <= a < b < p.len() ==> entry_lt_dir(keys, p[a], p[b], desc)
}

/// `p` lists every position of `keys` exactly once, in stable ascending key
/// order.
pub open spec fn is_sorted_perm(keys: Seq<(int, Seq<char>)>, p: Seq<int>) -> bool {
    is_sorted_perm_dir(keys, p, false)
}

proof fn lemma_key_lt_transitive(a: (int, Seq<char>), b: (int, Seq<char>), c: (int, Seq<char>))
    requires
        key_lt(a, b),
        key_lt(b, c),
    ensures
        key_lt(a, c),
{
    if a.0 == b.0 && b.0 == c.0 && seq_lt(a.1, b.1) && seq_lt(b.1, c.1) {
        lemma_seq_lt_transitive(a.1, b.1, c.1);
    }
}

proof fn lemma_key_lt_irreflexive(a: (int, Seq<char>))
    ensures
        !key_lt(a, a),
{
    lemma_seq_lt_irreflexive(a.1);
}

proof fn lemma_key_lt_asymmetric(a: (int, Seq<char>), b: (int, Seq<char>))
    requires
        key_lt(a, b),
    ensures
        !key_lt(b, a),
{
    if a.0 == b.0 && seq_lt(a.1, b.1) {
        lemma_seq_lt_asymmetric(a.1, b.1);
    }
}

proof fn lemma_key_lt_total(a: (int, Seq<char>), b: (int, Seq<char>))
    requires
        a != b,
    ensures
        key_lt(a, b) || key_lt(b, a),
{
    if a.0 == b.0 && a.1 != b.1 {
        lemma_seq_lt_total(a.1, b.1);
    }
    if a.0 == b.0 && a.1 == b.1 {
        assert(a == b);
    }
}

proof fn lemma_entry_lt_transitive(keys: Seq<(int, Seq<char>)>, i: int, j: int, k: int, desc: bool)
    requires
        entry_lt_dir(keys, i, j, desc),
        entry_lt_dir(keys, j, k, desc),
    ensures
        entry_lt_dir(keys, i, k, desc),
{
    if desc {
        if key_lt(keys[j], keys[i]) && key_lt(keys[k], keys[j]) {
            lemma_key_lt_transitive(keys[k], keys[j], keys[i]);
        }
    } else {
        if key_lt(keys[i], keys[j]) && key_lt(keys[j], keys[k]) {
            lemma_key_lt_transitive(keys[i], keys[j], keys[k]);
        }
    }
}

proof fn lemma_entry_lt_total(keys: Seq<(int, Seq<char>)>, i: int, j: int, desc: bool)
    requires
        i != j,
    ensures
        entry_lt_dir(keys, i, j, desc) || entry_lt_dir(keys, j, i, desc),
{
    if keys[i] != keys[j] {
        lemma_key_lt_total(keys[i], keys[j]);
    }
}

proof fn lemma_entry_lt_asymmetric(keys: Seq<(int, Seq<char>)>, i: int, j: int, desc: bool)
    requires
        entry_lt_dir(keys, i, j, desc),
    ensures
        !entry_lt_dir(keys, j, i, desc),
{
    lemma_key_lt_irreflexive(keys[i]);
    if desc {
        if key_lt(keys[j], keys[i]) {
            lemma_key_lt_asymmetric(keys[j], keys[i]);
        }
    } else {
        if key_lt(keys[i], keys[j]) {
            lemma_key_lt_asymmetric(keys[i], keys[j]);
        }
    }
}

fn key_less(a: &SortKey, b: &SortKey) -> (r: bool)
    ensures
        r == key_lt(key_view(*a), key_view(*b)),
{
    if a.num < b.num {
        true
    } else if a.num > b.num {
        false
    } else {
        compare_chars(&a.text, &b.text) == -1
    }
}

fn key_equal(a: &SortKey, b: &SortKey) -> (r: bool)
    ensures
        r == (key_view(*a) == key_view(*b)),
{
    a.num == b.num && compare_chars(&a.text, &b.text) == 0
}

fn entry_less(keys: &Vec<SortKey>, i: usize, j: usize, desc: bool) -> (r: bool)
    requires
        i < keys.len(),
        j < keys.len(),
    ensures
        r == entry_lt_dir(keys_view(keys@), i as int, j as int, desc),
{
    (if desc {
        key_less(&keys[j], &keys[i])
    } else {
        key_less(&keys[i], &keys[j])
    }) || (key_equal(&keys[i], &keys[j]) && i < j)
}

pub open spec fn perm_view(p: Seq<usize>) -> Seq<int> {
    p.map_values(|x: usize| x as int)
}

/// The positions of `keys` in stable key order, descending when `desc`.
pub fn sorted_positions_by(keys: &Vec<SortKey>, desc: bool) -> (p: Vec<usize>)
    ensures
        is_sorted_perm_dir(keys_view(keys@), perm_view(p@), desc),
{
    let ghost kv = keys_view(keys@);
    let mut p: Vec<usize> = Vec::new();
    let mut i: usize = 0;
    while i < keys.len()
        invariant
            i <= keys.len(),
            kv == keys_view(keys@),
            p@.len() == i,
            forall|k: int| 0 <= k < p@.len() ==> #[trigger] p@[k] < i,
            forall|a: int, b: int| 0 <= a < b < p@.len() ==> entry_lt_dir(kv, p@[a] as int, p@[b] as int, desc),
        decreases keys.len() - i,
    {
        // binary search for the first position whose entry is above `i`
        let mut lo: usize = 0;
        let mut hi: usize = p.len();
        while lo < hi
            invariant
                0 <= lo <= hi <= p@.len(),
                i < keys.len(),
                kv == keys_view(keys@),
                p@.len() == i,
                forall|k: int| 0 <= k < p@.len() ==> #[trigger] p@[k] < i,
                forall|a: int, b: int| 0 <= a < b < p@.len() ==> entry_lt_dir(kv, p@[a] as int, p@[b] as int, desc),
                forall|k: int| 0 <= k < lo ==> entry_lt_dir(kv, #[trigger] p@[k] as int, i as int, desc),
                forall|k: int| hi <= k < p@.len() ==> entry_lt_dir(kv, i as int, #[trigger] p@[k] as int, desc),
            decreases hi - lo,
        {
            let mid = lo + (hi - lo) / 2;
            let pm = p[mid];
            if entry_less(keys, i, pm, desc) {
                proof {
                    assert forall|k: int| mid <= k < p@.len() implies entry_lt_dir(kv, i as int, #[trigger] p@[k] as int, desc) by {
                        if k > mid {
                            lemma_entry_lt_transitive(kv, i as int, p@[mid as int] as int, p@[k] as int, desc);
                        }
                    }
                }
                hi = mid;
            } else {
                proof {
                    lemma_entry_lt_total(kv, i as int, pm as int, desc);
                    assert forall|k: int| 0 <= k <= mid implies entry_lt_dir(kv, #[trigger] p@[k] as int, i as int, desc) by {
                        if k < mid {
                            lemma_entry_lt_transitive(kv, p@[k] as int, p@[mid as int] as int, i as int, desc);
                        }
                    }
                }
                lo = mid + 1;
            }
        }
        let ghost old_p = p@;
        p.insert(lo, i);
        proof {
            assert forall|k: int| 0 <= k < p@.len() implies #[trigger] p@[k] < i + 1 by {
                if k < lo {
                    assert(p@[k] == old_p[k]);
                } else if k > lo {
                    assert(p@[k] == old_p[k - 1]);
                }
            }
            assert forall|a: int, b: int| 0 <= a < b < p@.len() implies entry_lt_dir(kv, p@[a] as int, p@[b] as int, desc) by {
                if a < lo && b < lo {
                    assert(p@[a] == old_p[a] && p@[b] == old_p[b]);
                } else if a < lo && b == lo {
                    assert(p@[a] == old_p[a]);
                } else if a < lo && b > lo {
                    assert(p@[a] == old_p[a] && p@[b] == old_p[b - 1]);
                } else if a == lo {
                    assert(p@[b] == old_p[b - 1]);
                } else {
                    assert(p@[a] == old_p[a - 1] && p@[b] == old_p[b - 1]);
                }
            }
        }
        i = i + 1;
    }
    assert(perm_view(p@).len() == p@.len());
    assert forall|k: int| 0 <= k < perm_view(p@).len() implies 0 <= #[trigger] perm_view(p@)[k] < kv.len() by {
        assert(perm_view(p@)[k] == p@[k] as int);
    }
    assert forall|a: int, b: int| 0 <= a < b < perm_view(p@).len() implies entry_lt_dir(kv, perm_view(p@)[a], perm_view(p@)[b], desc) by {
        assert(perm_view(p@)[a] == p@[a] as int);
        assert(perm_view(p@)[b] == p@[b] as int);
    }
    p
}

/// The positions of `keys` in stable ascending key order.
pub fn sorted_positions(keys: &Vec<SortKey>) -> (p: Vec<usize>)
    ensures
        is_sorted_perm(keys_view(keys@), perm_view(p@)),
{
    sorted_positions_by(keys, false)
}

/// A sorted permutation lists each position exactly once.
pub proof fn lemma_sorted_perm_distinct(keys: Seq<(int, Seq<char>)>, p: Seq<int>, a: int, b: int, desc: bool)
    requires
        is_sorted_perm_dir(keys, p, desc),
        0 <= a < p.len(),
        0 <= b < p.len(),
        a != b,
    ensures
        p[a] != p[b],
{
    if a < b {
        if p[a] == p[b] {
            lemma_entry_lt_asymmetric(keys, p[a], p[b], desc);
        }
    } else {
        if p[a] == p[b] {
            lemma_entry_lt_asymmetric(keys, p[b], p[a], desc);
        }
    }
}

// ───────────────────────── sorted tallies ─────────────────────────

/// How many times `k` occurs in `labels`.
pub open spec fn count_label(labels: Seq<Seq<char>>, k: Seq<char>) -> nat
    decreases labels.len(),
{
    if labels.len() == 0 {
        0
    } else {
        count_label(labels.drop_last(), k) + if labels.last() == k {
            1nat
        } else {
            0nat
        }
    }
}

/// `t` is the tally of `labels` as a sorted map: keys strictly ascending,
/// each key with its (positive) number of occurrences, every label a key.
pub open spec fn is_tally(labels: Seq<Seq<char>>, t: Seq<(Seq<char>, nat)>) -> bool {
    &&& forall|a: int, b: int| 0 <= a < b < t.len() ==> seq_lt(#[trigger] t[a].0, #[trigger] t[b].0)
    &&& forall|a: int| 0 <= a < t.len() ==> #[trigger] t[a].1 == count_label(labels, t[a].0) && t[a].1 > 0
    &&& forall|i: int| 0 <= i < labels.len() ==> exists|a: int| 0 <= a < t.len() && #[trigger] t[a].0 == #[trigger] labels[i]
}

proof fn lemma_count_label_le(labels: Seq<Seq<char>>, k: Seq<char>)
    ensures
        count_label(labels, k) <= labels.len(),
    decreases labels.len(),
{
    if labels.len() > 0 {
        lemma_count_label_le(labels.drop_last(), k);
    }
}

proof fn lemma_count_label_occurs(labels: Seq<Seq<char>>, k: Seq<char>)
    requires
        count_label(labels, k) > 0,
    ensures
        exists|i: int| 0 <= i < labels.len() && labels[i] == k,
    decreases labels.len(),
{
    if labels.last() != k {
        lemma_count_label_occurs(labels.drop_last(), k);
        let i = choose|i: int| 0 <= i < labels.drop_last().len() && labels.drop_last()[i] == k;
        assert(labels[i] == k);
    } else {
        assert(labels[labels.len() - 1] == k);
    }
}

/// Tally of a list of labels, keys in ascending order.
pub fn tally(labels: &Vec<Vec<char>>) -> (r: (Vec<Vec<char>>, Vec<usize>))
    ensures
        r.0@.len() == r.1@.len(),
        is_tally(
            labels@.map_values(|l: Vec<char>| l@),
            Seq::new(r.0@.len(), |a: int| (r.0@[a]@, r.1@[a] as nat)),
        ),
{
    let ghost all = labels@.map_values(|l: Vec<char>| l@);
    let mut keys: Vec<Vec<char>> = Vec::new();
    let mut counts: Vec<usize> = Vec::new();
    let mut i: usize = 0;
    while i < labels.len()
        invariant
            i <= labels.len(),
            all == labels@.map_values(|l: Vec<char>| l@),
            keys@.len() == counts@.len(),
            forall|a: int, b: int| 0 <= a < b < keys@.len() ==> seq_lt(#[trigger] keys@[a]@, #[trigger] keys@[b]@),
            forall|a: int| 0 <= a < keys@.len() ==> #[trigger] counts@[a] == count_label(all.subrange(0, i as int), keys@[a]@) && counts@[a] > 0,
            forall|x: int| 0 <= x < i ==> exists|a: int| 0 <= a < keys@.len() && #[trigger] keys@[a]@ == #[trigger] all[x],
        decreases labels.len() - i,
    {
        let ghost prefix = all.subrange(0, i as int);
        let ghost next = all.subrange(0, i + 1);
        assert(next.drop_last() =~= prefix);
        assert(next.last() == labels@[i as int]@);
        let label = &labels[i];
        let mut j: usize = 0;
        while j < keys.len() && compare_chars(&keys[j], label) == -1
            invariant
                j <= keys@.len(),
                forall|a: int| 0 <= a < j ==> seq_lt(#[trigger] keys@[a]@, label@),
            decreases keys.len() - j,
        {
            j = j + 1;
        }
        if j < keys.len() && compare_chars(&keys[j], label) == 0 {
            proof {
                lemma_count_label_le(prefix, keys@[j as int]@);
            }
            let c = counts[j];
            counts.set(j, c + 1);
            proof {
                assert forall|a: int| 0 <= a < keys@.len() implies #[trigger] counts@[a] == count_label(next, keys@[a]@) && counts@[a] > 0 by {
                    if a < j {
                        lemma_seq_lt_irreflexive(keys@[j as int]@);
                    } else if a > j {
                        lemma_seq_lt_irreflexive(keys@[j as int]@);
                    }
                }
                assert forall|x: int| 0 <= x < i + 1 implies exists|a: int| 0 <= a < keys@.len() && #[trigger] keys@[a]@ == #[trigger] all[x] by {
                    if x == i {
                        assert(keys@[j as int]@ == all[x]);
                    }
                }
            }
        } else {
            let ghost old_keys = keys@;
            let ghost old_counts = counts@;
            proof {
                if j < keys.len() {
                    lemma_seq_lt_total(keys@[j as int]@, label@);
                    assert(seq_lt(label@, keys@[j as int]@));
                }
                // the label is not a key yet, so it has not occurred
                if count_label(prefix, label@) > 0 {
                    lemma_count_label_occurs(prefix, label@);
                    let x = choose|x: int| 0 <= x < prefix.len() && prefix[x] == label@;
                    assert(all[x] == prefix[x]);
                    let a = choose|a: int| 0 <= a < keys@.len() && #[trigger] keys@[a]@ == all[x];
                    if a < j {
                        lemma_seq_lt_irreflexive(label@);
                    } else if a == j {
                    } else {
                        lemma_seq_lt_transitive(label@, keys@[j as int]@, keys@[a]@);
                        lemma_seq_lt_irreflexive(label@);
                    }
                }
            }
            keys.insert(j, label.clone());
            counts.insert(j, 1);
            proof {
                assert(keys@[j as int]@ == label@);
                assert forall|a: int, b: int| 0 <= a < b < keys@.len() implies seq_lt(#[trigger] keys@[a]@, #[trigger] keys@[b]@) by {
                    if b < j {
                        assert(keys@[a] == old_keys[a] && keys@[b] == old_keys[b]);
                    } else if b == j {
                        assert(keys@[a] == old_keys[a]);
                    } else if a < j {
                        assert(keys@[a] == old_keys[a] && keys@[b] == old_keys[b - 1]);
                        if b - 1 > j {
                            lemma_seq_lt_transitive(label@, old_keys[j as int]@, old_keys[b - 1]@);
                        }
                        lemma_seq_lt_transitive(old_keys[a]@, label@, old_keys[b - 1]@);
                    } else if a == j {
                        assert(keys@[b] == old_keys[b - 1]);
                        if b - 1 > j {
                            lemma_seq_lt_transitive(label@, old_keys[j as int]@, old_keys[b - 1]@);
                        }
                    } else {
                        assert(keys@[a] == old_keys[a - 1] && keys@[b] == old_keys[b - 1]);
                    }
                }
                assert forall|a: int| 0 <= a < keys@.len() implies #[trigger] counts@[a] == count_label(next, keys@[a]@) && counts@[a] > 0 by {
                    if a < j {
                        assert(keys@[a] == old_keys[a] && counts@[a] == old_counts[a]);
                        lemma_seq_lt_irreflexive(label@);
                    } else if a > j {
                        assert(keys@[a] == old_keys[a - 1] && counts@[a] == old_counts[a - 1]);
                        if a - 1 > j {
                            lemma_seq_lt_transitive(label@, old_keys[j as int]@, old_keys[a - 1]@);
                        }
                        lemma_seq_lt_irreflexive(label@);
                    }
                }
                assert forall|x: int| 0 <= x < i + 1 implies exists|a: int| 0 <= a < keys@.len() && #[trigger] keys@[a]@ == #[trigger] all[x] by {
                    if x == i {
                        assert(keys@[j as int]@ == all[x]);
                    } else {
                        let a = choose|a: int| 0 <= a < old_keys.len() && #[trigger] old_keys[a]@ == all[x];
                        if a < j {
                            assert(keys@[a] == old_keys[a]);
                        } else {
                            assert(keys@[a + 1] == old_keys[a]);
                        }
                    }
                }
            }
        }
        i = i + 1;
    }
    assert(all.subrange(0, labels.len() as int) =~= all);
    let ghost t = Seq::new(keys@.len(), |a: int| (keys@[a]@, counts@[a] as nat));
    assert forall|a: int, b: int| 0 <= a < b < t.len() implies seq_lt(#[trigger] t[a].0, #[trigger] t[b].0) by {
        assert(t[a].0 == keys@[a]@ && t[b].0 == keys@[b]@);
    }
    assert forall|x: int| 0 <= x < all.len() implies exists|a: int| 0 <= a < t.len() && #[trigger] t[a].0 == #[trigger] all[x] by {
        let a = choose|a: int| 0 <= a < keys@.len() && #[trigger] keys@[a]@ == all[x];
        assert(t[a].0 == keys@[a]@);
    }
    assert forall|a: int| 0 <= a < t.len() implies #[trigger] t[a].1 == count_label(all, t[a].0) && t[a].1 > 0 by {
        assert(t[a].0 == keys@[a]@ && t[a].1 == counts@[a] as nat);
    }
    assert(forall|a: int, b: int| 0 <= a < b < t.len() ==> seq_lt(#[trigger] t[a].0, #[trigger] t[b].0));
    assert(forall|a: int| 0 <= a < t.len() ==> #[trigger] t[a].1 == count_label(all, t[a].0) && t[a].1 > 0);
    assert(forall|i: int| 0 <= i < all.len() ==> exists|a: int| 0 <= a < t.len() && #[trigger] t[a].0 == #[trigger] all[i]);
    assert(is_tally(all, t));
    (keys, counts)
}

/// A tally has one entry per distinct label.
pub proof fn lemma_tally_distinct(labels: Seq<Seq<char>>, t: Seq<(Seq<char>, nat)>)
    requires
        is_tally(labels, t),
    ensures
        t.len() == labels.to_set().len(),
{
    let keys = t.map_values(|e: (Seq<char>, nat)| e.0);
    assert(keys.no_duplicates()) by {
        assert forall|a: int, b: int| 0 <= a < keys.len() && 0 <= b < keys.len() && a != b implies keys[a] != keys[b] by {
            if a < b {
                assert(seq_lt(t[a].0, t[b].0));
                if keys[a] == keys[b] {
                    lemma_seq_lt_irreflexive(t[a].0);
                }
            } else {
                assert(seq_lt(t[b].0, t[a].0));
                if keys[a] == keys[b] {
                    lemma_seq_lt_irreflexive(t[b].0);
                }
            }
        }
    }
    keys.unique_seq_to_set();
    assert(keys.to_set() =~= labels.to_set()) by {
        assert forall|x: Seq<char>| keys.to_set().contains(x) implies labels.to_set().contains(x) by {
            let a = choose|a: int| 0 <= a < keys.len() && keys[a] == x;
            assert(t[a].1 == count_label(labels, t[a].0) && t[a].1 > 0);
            lemma_count_label_occurs(labels, x);
        }
        assert forall|x: Seq<char>| labels.to_set().contains(x) implies keys.to_set().contains(x) by {
            let i = choose|i: int| 0 <= i < labels.len() && labels[i] == x;
            let a = choose|a: int| 0 <= a < t.len() && #[trigger] t[a].0 == #[trigger] labels[i];
            assert(keys[a] == x);
        }
    }
}

} // verus!

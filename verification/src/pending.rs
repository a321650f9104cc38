//! Actions the assistant proposed and the user has yet to confirm.
//!
//! A proposed action waits under its id with a confirmation token for ten
//! minutes. Applying or cancelling it needs the id and the token: an
//! unknown or expired id is not found, a wrong token is refused and leaves
//! the action waiting, and the right token takes the action out, so it
//! runs at most once. At most fifty actions wait; registering one more
//! drops the oldest.
use vstd::prelude::*;
use crate::actions::{
    AssistantActionRisk, DirectActionRoute, CollectionRoute, action_route_risk, collection_route,
    route_risk_spec, direct_route_spec, collection_route_spec,
};
use crate::assistant::constant_time_eq;
use crate::fingerprint::AssistantActionPrecondition;
use crate::json::{Json, JsonValue};
use crate::fingerprint::{fingerprint_of, stable_value_hash};
use crate::text::{chars_of, eq_chars, eq_str, string_of};

verus! {

/// How long a proposed action waits for confirmation, in milliseconds.
pub const ASSISTANT_ACTION_TTL_MS: u64 = 600000u64;

/// Most actions that wait for confirmation at once.
pub const MAX_PENDING_ACTIONS: usize = 50;

/// An action the assistant proposed: the admin request it makes, its risk,
/// what it expects of the state it changes, and the id and token under
/// which it waits for confirmation.
#[derive(Debug)]
pub struct AssistantAction {
    pub action_id: String,
    pub confirmation_token: String,
    pub kind: String,
    pub summary: String,
    pub risk: AssistantActionRisk,
    pub endpoint: String,
    pub method: String,
    pub payload: JsonValue,
    pub requires_confirmation: bool,
    pub preconditions: Vec<AssistantActionPrecondition>,
}

impl AssistantAction {
    /// A copy of this action.
    pub fn duplicate(&self) -> (r: AssistantAction)
        ensures
            r.action_id == self.action_id,
            r.confirmation_token == self.confirmation_token,
            r.kind == self.kind,
            r.summary == self.summary,
            r.risk == self.risk,
            r.endpoint == self.endpoint,
            r.method == self.method,
            r.payload.model() == self.payload.model(),
            r.requires_confirmation == self.requires_confirmation,
            r.preconditions@ == self.preconditions@,
    {
        let mut preconditions: Vec<AssistantActionPrecondition> = Vec::new();
        let mut i: usize = 0;
        while i < self.preconditions.len()
            invariant
                i <= self.preconditions@.len(),
                preconditions@ == self.preconditions@.subrange(0, i as int),
            decreases self.preconditions.len() - i,
        {
            let p = &self.preconditions[i];
            preconditions.push(
                AssistantActionPrecondition {
                    resource: p.resource.clone(),
                    expected_hash: p.expected_hash.clone(),
                    message: p.message.clone(),
                },
            );
            assert(preconditions@ =~= self.preconditions@.subrange(0, i + 1));
            i = i + 1;
        }
        assert(self.preconditions@.subrange(0, self.preconditions@.len() as int) =~= self.preconditions@);
        AssistantAction {
            action_id: self.action_id.clone(),
            confirmation_token: self.confirmation_token.clone(),
            kind: self.kind.clone(),
            summary: self.summary.clone(),
            risk: self.risk,
            endpoint: self.endpoint.clone(),
            method: self.method.clone(),
            payload: self.payload.duplicate(),
            requires_confirmation: self.requires_confirmation,
            preconditions,
        }
    }
}

/// A waiting action, its token, and when it expires (milliseconds).
#[derive(Debug)]
pub struct PendingAction {
    pub action: AssistantAction,
    pub confirmation_token: String,
    pub expires_at_ms: u64,
}

/// Why an action could not be confirmed or cancelled.
#[derive(Debug, Clone, Copy, PartialEq, Eq, Structural)]
pub enum PendingError {
    /// No action waits under the id, or it expired.
    NotFound,
    /// The confirmation token does not match.
    Forbidden,
}

impl PendingError {
    /// The HTTP status of the refusal.
    pub fn status(self) -> (r: u16)
        ensures
            r == match self {
                PendingError::NotFound => 404u16,
                PendingError::Forbidden => 403u16,
            },
    {
        match self {
            PendingError::NotFound => 404,
            PendingError::Forbidden => 403,
        }
    }

    /// The message of the refusal.
    pub fn message(self) -> (r: &'static str)
        ensures
            r@ == match self {
                PendingError::NotFound => "assistant action not found or expired"@,
                PendingError::Forbidden => "assistant action confirmation failed"@,
            },
    {
        match self {
            PendingError::NotFound => "assistant action not found or expired",
            PendingError::Forbidden => "assistant action confirmation failed",
        }
    }
}

/// The id an entry waits under.
pub open spec fn id_of(p: PendingAction) -> Seq<char> {
    p.action.action_id@
}

/// The entry has not expired at `now_ms`.
pub open spec fn live_at(p: PendingAction, now_ms: u64) -> bool {
    p.expires_at_ms > now_ms
}

/// The entries still waiting at `now_ms`, in order.
pub open spec fn live_entries(items: Seq<PendingAction>, now_ms: u64) -> Seq<PendingAction> {
    items.filter(|p: PendingAction| live_at(p, now_ms))
}

/// No two entries wait under the same id.
pub open spec fn ids_distinct(items: Seq<PendingAction>) -> bool {
    forall|i: int, j: int|
        0 <= i < items.len() && 0 <= j < items.len() && i != j ==> id_of(#[trigger] items[i])
            != id_of(#[trigger] items[j])
}

/// The first entry waiting under `id`.
pub open spec fn index_of(items: Seq<PendingAction>, id: Seq<char>) -> Option<int>
    decreases items.len(),
{
    if items.len() == 0 {
        None
    } else if id_of(items.last()) == id && index_of(items.drop_last(), id) is None {
        Some(items.len() - 1)
    } else {
        index_of(items.drop_last(), id)
    }
}

/// The waiting entries after registering `action` at `now_ms`: the expired
/// ones go, the oldest goes when the store is full, an entry under the same
/// id is replaced, and the new one waits last.
pub open spec fn register_spec(items: Seq<PendingAction>, action: AssistantAction, now_ms: u64) -> Seq<
    PendingAction,
> {
    let live = live_entries(items, now_ms);
    let kept = if live.len() >= MAX_PENDING_ACTIONS {
        live.drop_first()
    } else {
        live
    };
    kept.filter(|p: PendingAction| id_of(p) != action.action_id@).push(
        PendingAction {
            action,
            confirmation_token: action.confirmation_token,
            expires_at_ms: (now_ms + ASSISTANT_ACTION_TTL_MS) as u64,
        },
    )
}

/// The outcome of confirming `id` with `token` at `now_ms`, and the entries
/// that wait afterwards.
pub open spec fn take_spec(items: Seq<PendingAction>, id: Seq<char>, token: Seq<char>, now_ms: u64) -> (
    Result<AssistantAction, PendingError>,
    Seq<PendingAction>,
) {
    let live = live_entries(items, now_ms);
    match index_of(live, id) {
        None => (Err(PendingError::NotFound), live),
        Some(i) => if live[i].confirmation_token@ != token {
            (Err(PendingError::Forbidden), live)
        } else {
            (Ok(live[i].action), live.remove(i))
        },
    }
}

/// The actions waiting for confirmation.
#[derive(Debug)]
pub struct PendingActions {
    entries: Vec<PendingAction>,
}

impl PendingActions {
    /// The waiting entries, oldest first.
    pub closed spec fn items(self) -> Seq<PendingAction> {
        self.entries@
    }

    /// At most `MAX_PENDING_ACTIONS` entries, each under its own id.
    pub closed spec fn wf(self) -> bool {
        &&& self.entries@.len() <= MAX_PENDING_ACTIONS
        &&& ids_distinct(self.entries@)
    }

    /// A well-formed store is a valid store, so the laws below apply to
    /// the entries of any store these methods keep.
    pub proof fn lemma_wf_is_valid_store(self)
        requires
            self.wf(),
        ensures
            valid_store(self.items()),
    {
    }

    /// No action waits.
    pub fn new() -> (r: Self)
        ensures
            r.wf(),
            r.items() == Seq::<PendingAction>::empty(),
    {
        PendingActions { entries: Vec::new() }
    }

    /// The number of waiting entries.
    pub fn len(&self) -> (r: usize)
        ensures
            r == self.items().len(),
    {
        self.entries.len()
    }

    /// Drops the entries that expired by `now_ms`.
    pub fn prune_expired(&mut self, now_ms: u64)
        requires
            old(self).wf(),
        ensures
            final(self).wf(),
            final(self).items() == live_entries(old(self).items(), now_ms),
    {
        let mut kept: Vec<PendingAction> = Vec::new();
        let ghost all = self.entries@;
        while self.entries.len() > 0
            invariant
                all.len() <= MAX_PENDING_ACTIONS,
                ids_distinct(all),
                self.entries@.len() <= all.len(),
                self.entries@ == all.subrange(all.len() - self.entries@.len(), all.len() as int),
                kept@ == live_entries(all.subrange(0, all.len() - self.entries@.len()), now_ms),
                kept@.len() <= all.len() - self.entries@.len(),
                ids_distinct(kept@),
                forall|a: int, b: int|
                    0 <= a < kept@.len() && 0 <= b < self.entries@.len() ==> id_of(#[trigger] kept@[a])
                        != id_of(#[trigger] self.entries@[b]),
            decreases self.entries.len(),
        {
            let ghost k = all.len() - self.entries@.len();
            let ghost rest = self.entries@;
            assert(ids_distinct(rest)) by {
                assert forall|i: int, j: int|
                    0 <= i < rest.len() && 0 <= j < rest.len() && i != j implies id_of(#[trigger] rest[i])
                    != id_of(#[trigger] rest[j]) by {
                    assert(rest[i] == all[k + i]);
                    assert(rest[j] == all[k + j]);
                }
            }
            let p = self.entries.remove(0);
            assert(p == all[k]);
            assert(all.subrange(0, k + 1).drop_last() =~= all.subrange(0, k));
            assert(all.subrange(0, k + 1).last() == all[k]);
            assert(self.entries@ =~= all.subrange(k + 1, all.len() as int));
            assert forall|b: int| 0 <= b < self.entries@.len() implies self.entries@[b] == rest[b + 1] by {}
            proof {
                reveal(Seq::filter);
            }
            if p.expires_at_ms > now_ms {
                let ghost before = kept@;
                kept.push(p);
                assert forall|i: int, j: int|
                    0 <= i < kept@.len() && 0 <= j < kept@.len() && i != j implies id_of(
                    #[trigger] kept@[i],
                ) != id_of(#[trigger] kept@[j]) by {
                    if i == before.len() {
                        assert(id_of(before[j]) != id_of(rest[0]));
                    } else if j == before.len() {
                        assert(id_of(before[i]) != id_of(rest[0]));
                    }
                }
                assert forall|a: int, b: int|
                    0 <= a < kept@.len() && 0 <= b < self.entries@.len() implies id_of(
                    #[trigger] kept@[a],
                ) != id_of(#[trigger] self.entries@[b]) by {
                    assert(self.entries@[b] == rest[b + 1]);
                    if a == before.len() {
                        assert(kept@[a] == rest[0]);
                    }
                }
            } else {
                assert forall|a: int, b: int|
                    0 <= a < kept@.len() && 0 <= b < self.entries@.len() implies id_of(
                    #[trigger] kept@[a],
                ) != id_of(#[trigger] self.entries@[b]) by {
                    assert(self.entries@[b] == rest[b + 1]);
                }
            }
        }
        assert(all.subrange(0, all.len() as int) =~= all);
        self.entries = kept;
    }

    /// Registers a proposed action, which carries its id and confirmation
    /// token, at `now_ms` (see `register_spec`).
    pub fn register(&mut self, action: AssistantAction, now_ms: u64)
        requires
            old(self).wf(),
            now_ms <= u64::MAX - ASSISTANT_ACTION_TTL_MS,
        ensures
            final(self).wf(),
            final(self).items() == register_spec(old(self).items(), action, now_ms),
    {
        self.prune_expired(now_ms);
        let ghost live = self.entries@;
        if self.entries.len() >= MAX_PENDING_ACTIONS {
            self.entries.remove(0);
            assert(self.entries@ =~= live.drop_first());
        }
        let ghost kept = self.entries@;
        let want = chars_of(action.action_id.as_str());
        let mut i: usize = 0;
        let mut found: Option<usize> = None;
        while i < self.entries.len()
            invariant
                i <= self.entries@.len(),
                self.entries@ == kept,
                want@ == action.action_id@,
                match found {
                    Some(j) => j < self.entries@.len() && id_of(kept[j as int]) == want@,
                    None => forall|j: int| 0 <= j < i ==> id_of(#[trigger] kept[j]) != want@,
                },
            decreases self.entries.len() - i,
        {
            if found.is_none() && eq_chars(&chars_of(self.entries[i].action.action_id.as_str()), &want) {
                found = Some(i);
            }
            i = i + 1;
        }
        proof {
            lemma_kept_distinct(live, self.entries@);
        }
        match found {
            Some(j) => {
                self.entries.remove(j);
                proof {
                    lemma_filter_out_unique(kept, j as int, action.action_id@);
                }
            },
            None => {
                proof {
                    lemma_filter_out_absent(kept, action.action_id@);
                }
            },
        }
        let ghost without = self.entries@;
        let token = action.confirmation_token.clone();
        self.entries.push(
            PendingAction { action, confirmation_token: token, expires_at_ms: now_ms + ASSISTANT_ACTION_TTL_MS },
        );
        assert(self.entries@.drop_last() =~= without);
        proof {
            lemma_push_fresh_distinct(without, action.action_id@, self.entries@);
        }
    }

    /// Confirms the action waiting under `action_id` with `token` at
    /// `now_ms` (see `take_spec`): a found action with the right token is
    /// taken out and returned.
    pub fn take(&mut self, action_id: &str, token: &str, now_ms: u64) -> (r: Result<
        AssistantAction,
        PendingError,
    >)
        requires
            old(self).wf(),
        ensures
            final(self).wf(),
            r == take_spec(old(self).items(), action_id@, token@, now_ms).0,
            final(self).items() == take_spec(old(self).items(), action_id@, token@, now_ms).1,
    {
        self.prune_expired(now_ms);
        let ghost live = self.entries@;
        let want = chars_of(action_id);
        let mut i: usize = 0;
        while i < self.entries.len()
            invariant
                i <= self.entries@.len(),
                self.entries@ == live,
                live == live_entries(old(self).items(), now_ms),
                want@ == action_id@,
                live.len() <= MAX_PENDING_ACTIONS,
                ids_distinct(live),
                forall|j: int| 0 <= j < i ==> id_of(#[trigger] live[j]) != action_id@,
            decreases self.entries.len() - i,
        {
            if eq_chars(&chars_of(self.entries[i].action.action_id.as_str()), &want) {
                proof {
                    lemma_index_of_unique(live, i as int, action_id@);
                }
                if !constant_time_eq(self.entries[i].confirmation_token.as_str(), token) {
                    return Err(PendingError::Forbidden);
                }
                let p = self.entries.remove(i);
                proof {
                    lemma_remove_keeps_distinct(live, i as int);
                }
                return Ok(p.action);
            }
            i = i + 1;
        }
        proof {
            lemma_index_of_absent(live, action_id@);
        }
        Err(PendingError::NotFound)
    }

    /// Cancels the action waiting under `action_id` with `token` at
    /// `now_ms`: the same checks as confirming it, without running it.
    pub fn cancel(&mut self, action_id: &str, token: &str, now_ms: u64) -> (r: Result<(), PendingError>)
        requires
            old(self).wf(),
        ensures
            final(self).wf(),
            final(self).items() == take_spec(old(self).items(), action_id@, token@, now_ms).1,
            match take_spec(old(self).items(), action_id@, token@, now_ms).0 {
                Ok(_) => r is Ok,
                Err(e) => r == Err::<(), PendingError>(e),
            },
    {
        match self.take(action_id, token, now_ms) {
            Ok(_) => Ok(()),
            Err(e) => Err(e),
        }
    }
}

/// The status of a confirmed action whose execution failed: a failed
/// precondition is a conflict, anything else an unprocessable action.
pub fn action_failure_status(error: &str) -> (r: u16)
    ensures
        r == if crate::text::starts_with(error@, "assistant action precondition failed"@) {
            409u16
        } else {
            422u16
        },
{
    if crate::text::has_prefix_str(&chars_of(error), "assistant action precondition failed") {
        409
    } else {
        422
    }
}

// ───────────────────────── lemmas ─────────────────────────

proof fn lemma_kept_distinct(live: Seq<PendingAction>, kept: Seq<PendingAction>)
    requires
        ids_distinct(live),
        kept == live || (live.len() > 0 && kept == live.drop_first()),
    ensures
        ids_distinct(kept),
{
    if kept != live {
        assert forall|i: int, j: int|
            0 <= i < kept.len() && 0 <= j < kept.len() && i != j implies id_of(#[trigger] kept[i])
            != id_of(#[trigger] kept[j]) by {
            assert(kept[i] == live[i + 1]);
            assert(kept[j] == live[j + 1]);
        }
    }
}

proof fn lemma_filter_out_unique(items: Seq<PendingAction>, j: int, id: Seq<char>)
    requires
        ids_distinct(items),
        0 <= j < items.len(),
        id_of(items[j]) == id,
    ensures
        items.remove(j) == items.filter(|p: PendingAction| id_of(p) != id),
        ids_distinct(items.remove(j)),
        forall|k: int| 0 <= k < items.remove(j).len() ==> id_of(#[trigger] items.remove(j)[k]) != id,
    decreases items.len(),
{
    reveal(Seq::filter);
    let f = |p: PendingAction| id_of(p) != id;
    if j == items.len() - 1 {
        assert(items.remove(j) =~= items.drop_last());
        lemma_filter_out_absent(items.drop_last(), id);
    } else {
        let prev = items.drop_last();
        assert(ids_distinct(prev));
        lemma_filter_out_unique(prev, j, id);
        assert(id_of(items.last()) != id);
        assert(items.remove(j) =~= prev.remove(j).push(items.last()));
    }
    assert forall|a: int, b: int|
        0 <= a < items.remove(j).len() && 0 <= b < items.remove(j).len() && a != b implies id_of(
        #[trigger] items.remove(j)[a],
    ) != id_of(#[trigger] items.remove(j)[b]) by {
        let r = items.remove(j);
        let ia = if a < j {
            a
        } else {
            a + 1
        };
        let ib = if b < j {
            b
        } else {
            b + 1
        };
        assert(r[a] == items[ia]);
        assert(r[b] == items[ib]);
    }
    assert forall|k: int| 0 <= k < items.remove(j).len() implies id_of(#[trigger] items.remove(j)[k]) != id by {
        let ik = if k < j {
            k
        } else {
            k + 1
        };
        assert(items.remove(j)[k] == items[ik]);
    }
}

proof fn lemma_filter_out_absent(items: Seq<PendingAction>, id: Seq<char>)
    requires
        forall|k: int| 0 <= k < items.len() ==> id_of(#[trigger] items[k]) != id,
    ensures
        items.filter(|p: PendingAction| id_of(p) != id) == items,
    decreases items.len(),
{
    reveal(Seq::filter);
    if items.len() > 0 {
        lemma_filter_out_absent(items.drop_last(), id);
        assert(items.drop_last().push(items.last()) =~= items);
    } else {
        assert(items.filter(|p: PendingAction| id_of(p) != id) =~= items);
    }
}

proof fn lemma_push_fresh_distinct(without: Seq<PendingAction>, id: Seq<char>, after: Seq<PendingAction>)
    requires
        ids_distinct(without),
        forall|k: int| 0 <= k < without.len() ==> id_of(#[trigger] without[k]) != id,
        after.len() == without.len() + 1,
        after.drop_last() == without,
        id_of(after.last()) == id,
    ensures
        ids_distinct(after),
{
    assert forall|i: int, j: int|
        0 <= i < after.len() && 0 <= j < after.len() && i != j implies id_of(#[trigger] after[i])
        != id_of(#[trigger] after[j]) by {
        if i < without.len() {
            assert(after[i] == without[i]);
        }
        if j < without.len() {
            assert(after[j] == without[j]);
        }
    }
}

proof fn lemma_index_of_unique(items: Seq<PendingAction>, i: int, id: Seq<char>)
    requires
        ids_distinct(items),
        0 <= i < items.len(),
        id_of(items[i]) == id,
    ensures
        index_of(items, id) == Some(i),
    decreases items.len(),
{
    let prev = items.drop_last();
    assert(ids_distinct(prev));
    if i == items.len() - 1 {
        assert forall|k: int| 0 <= k < prev.len() implies id_of(#[trigger] prev[k]) != id by {
            assert(prev[k] == items[k]);
        }
        lemma_index_of_absent(prev, id);
    } else {
        lemma_index_of_unique(prev, i, id);
    }
}

proof fn lemma_index_of_absent(items: Seq<PendingAction>, id: Seq<char>)
    requires
        forall|k: int| 0 <= k < items.len() ==> id_of(#[trigger] items[k]) != id,
    ensures
        index_of(items, id) is None,
    decreases items.len(),
{
    if items.len() > 0 {
        let prev = items.drop_last();
        assert forall|k: int| 0 <= k < prev.len() implies id_of(#[trigger] prev[k]) != id by {
            assert(prev[k] == items[k]);
        }
        lemma_index_of_absent(prev, id);
    }
}

proof fn lemma_remove_keeps_distinct(items: Seq<PendingAction>, i: int)
    requires
        ids_distinct(items),
        0 <= i < items.len(),
    ensures
        ids_distinct(items.remove(i)),
{
    let r = items.remove(i);
    assert forall|a: int, b: int|
        0 <= a < r.len() && 0 <= b < r.len() && a != b implies id_of(#[trigger] r[a]) != id_of(
        #[trigger] r[b],
    ) by {
        let ia = if a < i {
            a
        } else {
            a + 1
        };
        let ib = if b < i {
            b
        } else {
            b + 1
        };
        assert(r[a] == items[ia]);
        assert(r[b] == items[ib]);
    }
}


// ───────────────────────── laws ─────────────────────────

/// A store of waiting actions as its invariant allows.
pub open spec fn valid_store(items: Seq<PendingAction>) -> bool {
    items.len() <= MAX_PENDING_ACTIONS && ids_distinct(items)
}

proof fn lemma_filter_push(s: Seq<PendingAction>, p: spec_fn(PendingAction) -> bool, x: PendingAction)
    ensures
        s.push(x).filter(p) == if p(x) {
            s.filter(p).push(x)
        } else {
            s.filter(p)
        },
{
    reveal(Seq::filter);
    assert(s.push(x).drop_last() =~= s);
}

proof fn lemma_filter_all(s: Seq<PendingAction>, p: spec_fn(PendingAction) -> bool, q: spec_fn(PendingAction) -> bool)
    requires
        forall|i: int| 0 <= i < s.len() ==> q(#[trigger] s[i]),
    ensures
        forall|i: int| 0 <= i < s.filter(p).len() ==> q(#[trigger] s.filter(p)[i]),
        s.filter(p).len() <= s.len(),
    decreases s.len(),
{
    reveal(Seq::filter);
    if s.len() > 0 {
        let prev = s.drop_last();
        assert forall|i: int| 0 <= i < prev.len() implies q(#[trigger] prev[i]) by {
            assert(prev[i] == s[i]);
        }
        lemma_filter_all(prev, p, q);
        assert(q(s[s.len() - 1]));
    }
}

proof fn lemma_filter_identity(s: Seq<PendingAction>, p: spec_fn(PendingAction) -> bool)
    requires
        forall|i: int| 0 <= i < s.len() ==> p(#[trigger] s[i]),
    ensures
        s.filter(p) == s,
    decreases s.len(),
{
    reveal(Seq::filter);
    if s.len() > 0 {
        let prev = s.drop_last();
        assert forall|i: int| 0 <= i < prev.len() implies p(#[trigger] prev[i]) by {
            assert(prev[i] == s[i]);
        }
        lemma_filter_identity(prev, p);
        assert(prev.push(s.last()) =~= s);
    } else {
        assert(s.filter(p) =~= s);
    }
}

/// What waits right after registering `action` at `now_ms`, seen at
/// `later`: the new entry is last, and no other entry has its id.
proof fn lemma_registered_last(items: Seq<PendingAction>, action: AssistantAction, now_ms: u64, later: u64)
    requires
        now_ms <= u64::MAX - ASSISTANT_ACTION_TTL_MS,
        later < now_ms + ASSISTANT_ACTION_TTL_MS,
    ensures
        ({
            let live = live_entries(register_spec(items, action, now_ms), later);
            &&& live.len() > 0
            &&& live.last().action == action
            &&& live.last().confirmation_token == action.confirmation_token
            &&& forall|k: int| 0 <= k < live.len() - 1 ==> id_of(#[trigger] live[k]) != action.action_id@
            &&& index_of(live, action.action_id@) == Some(live.len() - 1)
            &&& forall|k: int| 0 <= k < live.len() ==> live_at(#[trigger] live[k], later)
        }),
{
    let l0 = live_entries(items, now_ms);
    let kept = if l0.len() >= MAX_PENDING_ACTIONS {
        l0.drop_first()
    } else {
        l0
    };
    let idf = |p: PendingAction| id_of(p) != action.action_id@;
    let without = kept.filter(idf);
    let entry = PendingAction {
        action,
        confirmation_token: action.confirmation_token,
        expires_at_ms: (now_ms + ASSISTANT_ACTION_TTL_MS) as u64,
    };
    let after = without.push(entry);
    assert(after == register_spec(items, action, now_ms));
    let lf = |p: PendingAction| live_at(p, later);
    lemma_filter_push(without, lf, entry);
    let live = live_entries(after, later);
    assert(live == without.filter(lf).push(entry));
    broadcast use vstd::seq_lib::group_filter_ensures;
    assert forall|i: int| 0 <= i < without.len() implies idf(#[trigger] without[i]) by {}
    lemma_filter_all(without, lf, idf);
    let lw = without.filter(lf);
    assert forall|k: int| 0 <= k < live.len() - 1 implies id_of(#[trigger] live[k]) != action.action_id@ by {
        assert(live[k] == lw[k]);
        assert(idf(lw[k]));
    }
    assert forall|k: int| 0 <= k < lw.len() implies id_of(#[trigger] lw[k]) != action.action_id@ by {
        assert(idf(lw[k]));
    }
    lemma_index_of_absent(lw, action.action_id@);
    assert(live.drop_last() =~= lw);
    assert forall|k: int| 0 <= k < live.len() implies live_at(#[trigger] live[k], later) by {
        if k < lw.len() {
            assert(live[k] == lw[k]);
        }
    }
}

/// A registered action is applied with its own token, before it expires,
/// exactly once: the first confirmation hands back the action, and a
/// second one finds nothing.
pub proof fn law_confirmed_action_runs_once(
    items: Seq<PendingAction>,
    action: AssistantAction,
    now_ms: u64,
    later: u64,
)
    requires
        valid_store(items),
        now_ms <= u64::MAX - ASSISTANT_ACTION_TTL_MS,
        later < now_ms + ASSISTANT_ACTION_TTL_MS,
    ensures
        ({
            let first = take_spec(
                register_spec(items, action, now_ms),
                action.action_id@,
                action.confirmation_token@,
                later,
            );
            &&& first.0 == Ok::<AssistantAction, PendingError>(action)
            &&& take_spec(first.1, action.action_id@, action.confirmation_token@, later).0
                == Err::<AssistantAction, PendingError>(PendingError::NotFound)
        }),
{
    lemma_registered_last(items, action, now_ms, later);
    let live = live_entries(register_spec(items, action, now_ms), later);
    let rest = live.remove(live.len() - 1);
    assert(rest =~= live.drop_last());
    assert forall|k: int| 0 <= k < rest.len() implies live_at(#[trigger] rest[k], later) by {
        assert(rest[k] == live[k]);
    }
    lemma_filter_identity(rest, |p: PendingAction| live_at(p, later));
    assert forall|k: int| 0 <= k < rest.len() implies id_of(#[trigger] rest[k]) != action.action_id@ by {
        assert(rest[k] == live[k]);
    }
    lemma_index_of_absent(rest, action.action_id@);
}

/// A confirmation with a wrong token is refused and leaves the action
/// waiting: the right token still applies it.
pub proof fn law_wrong_token_leaves_action_waiting(
    items: Seq<PendingAction>,
    action: AssistantAction,
    now_ms: u64,
    later: u64,
    token: Seq<char>,
)
    requires
        valid_store(items),
        now_ms <= u64::MAX - ASSISTANT_ACTION_TTL_MS,
        later < now_ms + ASSISTANT_ACTION_TTL_MS,
        token != action.confirmation_token@,
    ensures
        ({
            let refused = take_spec(register_spec(items, action, now_ms), action.action_id@, token, later);
            &&& refused.0 == Err::<AssistantAction, PendingError>(PendingError::Forbidden)
            &&& take_spec(refused.1, action.action_id@, action.confirmation_token@, later).0
                == Ok::<AssistantAction, PendingError>(action)
        }),
{
    lemma_registered_last(items, action, now_ms, later);
    let live = live_entries(register_spec(items, action, now_ms), later);
    lemma_filter_identity(live, |p: PendingAction| live_at(p, later));
}

/// An action that was not applied within its time to live is gone.
pub proof fn law_expired_action_is_not_found(
    items: Seq<PendingAction>,
    action: AssistantAction,
    now_ms: u64,
    later: u64,
    token: Seq<char>,
)
    requires
        valid_store(items),
        now_ms <= u64::MAX - ASSISTANT_ACTION_TTL_MS,
        later >= now_ms + ASSISTANT_ACTION_TTL_MS,
    ensures
        take_spec(register_spec(items, action, now_ms), action.action_id@, token, later).0
            == Err::<AssistantAction, PendingError>(PendingError::NotFound),
{
    let l0 = live_entries(items, now_ms);
    let kept = if l0.len() >= MAX_PENDING_ACTIONS {
        l0.drop_first()
    } else {
        l0
    };
    let idf = |p: PendingAction| id_of(p) != action.action_id@;
    let without = kept.filter(idf);
    let entry = PendingAction {
        action,
        confirmation_token: action.confirmation_token,
        expires_at_ms: (now_ms + ASSISTANT_ACTION_TTL_MS) as u64,
    };
    let lf = |p: PendingAction| live_at(p, later);
    lemma_filter_push(without, lf, entry);
    broadcast use vstd::seq_lib::group_filter_ensures;
    assert forall|i: int| 0 <= i < without.len() implies idf(#[trigger] without[i]) by {}
    lemma_filter_all(without, lf, idf);
    let lw = without.filter(lf);
    assert forall|k: int| 0 <= k < lw.len() implies id_of(#[trigger] lw[k]) != action.action_id@ by {
        assert(idf(lw[k]));
    }
    lemma_index_of_absent(lw, action.action_id@);
}

/// However many actions are registered, at most fifty wait, each under
/// its own id.
pub proof fn law_waiting_actions_are_bounded(items: Seq<PendingAction>, action: AssistantAction, now_ms: u64)
    requires
        valid_store(items),
        now_ms <= u64::MAX - ASSISTANT_ACTION_TTL_MS,
    ensures
        valid_store(register_spec(items, action, now_ms)),
{
    let l0 = live_entries(items, now_ms);
    let lf = |p: PendingAction| live_at(p, now_ms);
    lemma_filter_all(items, lf, |p: PendingAction| true);
    lemma_filter_distinct(items, lf);
    let kept = if l0.len() >= MAX_PENDING_ACTIONS {
        l0.drop_first()
    } else {
        l0
    };
    lemma_kept_distinct(l0, kept);
    let idf = |p: PendingAction| id_of(p) != action.action_id@;
    lemma_filter_all(kept, idf, |p: PendingAction| true);
    lemma_filter_distinct(kept, idf);
    let without = kept.filter(idf);
    broadcast use vstd::seq_lib::group_filter_ensures;
    let after = register_spec(items, action, now_ms);
    assert(after.drop_last() =~= without);
    assert forall|k: int| 0 <= k < without.len() implies id_of(#[trigger] without[k]) != action.action_id@ by {
        assert(idf(without[k]));
    }
    lemma_push_fresh_distinct(without, action.action_id@, after);
}

proof fn lemma_filter_distinct(s: Seq<PendingAction>, p: spec_fn(PendingAction) -> bool)
    requires
        ids_distinct(s),
    ensures
        ids_distinct(s.filter(p)),
        forall|i: int| #![trigger s.filter(p)[i]] 0 <= i < s.filter(p).len() ==> exists|j: int| 0 <= j < s.len() && s.filter(p)[i] == #[trigger] s[j],
    decreases s.len(),
{
    reveal(Seq::filter);
    if s.len() > 0 {
        let prev = s.drop_last();
        assert(ids_distinct(prev));
        lemma_filter_distinct(prev, p);
        let fp = prev.filter(p);
        let f = s.filter(p);
        assert forall|i: int| #![trigger fp[i]] 0 <= i < fp.len() implies exists|j: int| 0 <= j < s.len() && fp[i] == #[trigger] s[j] by {
            let j = choose|j: int| 0 <= j < prev.len() && fp[i] == prev[j];
            assert(s[j] == prev[j]);
        }
        if p(s.last()) {
            assert(f == fp.push(s.last()));
            assert forall|i: int, j: int|
                0 <= i < f.len() && 0 <= j < f.len() && i != j implies id_of(#[trigger] f[i]) != id_of(
                #[trigger] f[j],
            ) by {
                if i == fp.len() && j < fp.len() {
                    let k = choose|k: int| 0 <= k < prev.len() && fp[j] == prev[k];
                    assert(s[k] == prev[k]);
                } else if j == fp.len() && i < fp.len() {
                    let k = choose|k: int| 0 <= k < prev.len() && fp[i] == prev[k];
                    assert(s[k] == prev[k]);
                } else {
                    assert(f[i] == fp[i]);
                    assert(f[j] == fp[j]);
                }
            }
            assert forall|i: int| #![trigger f[i]] 0 <= i < f.len() implies exists|j: int| 0 <= j < s.len() && f[i] == #[trigger] s[j] by {
                if i == fp.len() {
                    assert(f[i] == s[s.len() - 1]);
                } else {
                    assert(f[i] == fp[i]);
                }
            }
        }
    }
}


// ───────────────────────── preconditions ─────────────────────────

/// The state that an action's preconditions speak of, each piece as the
/// document it is fingerprinted as.
#[derive(Debug)]
pub struct WorkspaceSnapshot {
    pub capture_filter: JsonValue,
    pub dns: JsonValue,
    pub throttling: JsonValue,
    pub upstream_proxy: JsonValue,
}

/// The piece of state a precondition names, if it names one.
pub open spec fn resource_state(state: WorkspaceSnapshot, resource: Seq<char>) -> Option<Json> {
    if resource == "capture_filter"@ {
        Some(state.capture_filter.model())
    } else if resource == "dns"@ {
        Some(state.dns.model())
    } else if resource == "throttling"@ {
        Some(state.throttling.model())
    } else if resource == "upstream_proxy"@ {
        Some(state.upstream_proxy.model())
    } else {
        None
    }
}

/// The outcome of checking preconditions in order: the first that names
/// an unknown resource, or whose resource's fingerprint is not the
/// expected one, fails the action.
pub open spec fn preconditions_spec(ps: Seq<AssistantActionPrecondition>, state: WorkspaceSnapshot) -> Result<
    (),
    Seq<char>,
>
    decreases ps.len(),
{
    if ps.len() == 0 {
        Ok(())
    } else {
        let p = ps[0];
        match resource_state(state, p.resource@) {
            None => Err(
                "assistant action precondition references unsupported resource '"@ + p.resource@
                    + "'"@,
            ),
            Some(current) => if fingerprint_of(current) != p.expected_hash@ {
                Err("assistant action precondition failed: "@ + p.message@)
            } else {
                preconditions_spec(ps.subrange(1, ps.len() as int), state)
            },
        }
    }
}

/// Checks an action's preconditions against the current state (see
/// `preconditions_spec`) before the action runs.
pub fn check_action_preconditions(
    preconditions: &Vec<AssistantActionPrecondition>,
    state: &WorkspaceSnapshot,
) -> (r: Result<(), String>)
    ensures
        match r {
            Ok(()) => preconditions_spec(preconditions@, *state) == Ok::<(), Seq<char>>(()),
            Err(e) => preconditions_spec(preconditions@, *state) == Err::<(), Seq<char>>(e@),
        },
{
    let mut i: usize = 0;
    assert(preconditions@.subrange(0, preconditions@.len() as int) =~= preconditions@);
    while i < preconditions.len()
        invariant
            i <= preconditions@.len(),
            preconditions_spec(preconditions@, *state) == preconditions_spec(
                preconditions@.subrange(i as int, preconditions@.len() as int),
                *state,
            ),
        decreases preconditions.len() - i,
    {
        let ghost rest = preconditions@.subrange(i as int, preconditions@.len() as int);
        assert(rest[0] == preconditions@[i as int]);
        assert(rest.subrange(1, rest.len() as int) =~= preconditions@.subrange(
            i + 1,
            preconditions@.len() as int,
        ));
        let p = &preconditions[i];
        let r = chars_of(p.resource.as_str());
        let current: &JsonValue = if eq_str(&r, "capture_filter") {
            &state.capture_filter
        } else if eq_str(&r, "dns") {
            &state.dns
        } else if eq_str(&r, "throttling") {
            &state.throttling
        } else if eq_str(&r, "upstream_proxy") {
            &state.upstream_proxy
        } else {
            let mut m = chars_of("assistant action precondition references unsupported resource '");
            m.extend_from_slice(r.as_slice());
            m.push('\'');
            proof {
                reveal_strlit("'");
            }
            let msg = string_of(&m);
            assert(msg@ =~= "assistant action precondition references unsupported resource '"@ + p.resource@ + "'"@);
            return Err(msg);
        };
        let h = stable_value_hash(current);
        if !eq_chars(&chars_of(h.as_str()), &chars_of(p.expected_hash.as_str())) {
            let mut m = chars_of("assistant action precondition failed: ");
            m.extend_from_slice(chars_of(p.message.as_str()).as_slice());
            let msg = string_of(&m);
            assert(msg@ =~= "assistant action precondition failed: "@ + p.message@);
            return Err(msg);
        }
        i = i + 1;
    }
    Ok(())
}


/// Where a confirmed action goes once it has passed its checks.
#[derive(Debug, Clone, Copy, PartialEq, Eq, Structural)]
pub enum ActionTarget {
    Direct(DirectActionRoute),
    Collection(CollectionRoute),
}

/// The checks a confirmed action passes before it runs, in order: its
/// route must be one an action can take (see `route_risk_spec`; the
/// route's own error otherwise), a payload is required but for `DELETE`,
/// and its preconditions must hold (see `preconditions_spec`). It then goes
/// to a direct route or to the collection it works on.
pub open spec fn action_plan_spec(
    method: Seq<char>,
    endpoint: Seq<char>,
    payload: Json,
    preconditions: Seq<AssistantActionPrecondition>,
    state: WorkspaceSnapshot,
) -> Result<ActionTarget, Seq<char>> {
    if route_risk_spec(method, endpoint) is None {
        Err("assistant action endpoint is not executable"@)
    } else if method != "DELETE"@ && payload == Json::Null {
        Err("assistant action payload is required"@)
    } else {
        match preconditions_spec(preconditions, state) {
            Err(e) => Err(e),
            Ok(()) => match direct_route_spec(method, endpoint) {
                Some(d) => Ok(ActionTarget::Direct(d)),
                None => match collection_route_spec(method, endpoint) {
                    Ok(c) => Ok(ActionTarget::Collection(c)),
                    Err(e) => Err(e),
                },
            },
        }
    }
}

/// Checks a confirmed action against the current state and finds where it
/// goes (see `action_plan_spec`). A failed precondition fails the action
/// with `assistant action precondition failed: ` and that precondition's
/// message.
pub fn plan_action(action: &AssistantAction, state: &WorkspaceSnapshot) -> (r: Result<ActionTarget, String>)
    ensures
        match r {
            Ok(t) => action_plan_spec(
                action.method@,
                action.endpoint@,
                action.payload.model(),
                action.preconditions@,
                *state,
            ) == Ok::<ActionTarget, Seq<char>>(t),
            Err(e) => action_plan_spec(
                action.method@,
                action.endpoint@,
                action.payload.model(),
                action.preconditions@,
                *state,
            ) == Err::<ActionTarget, Seq<char>>(e@),
        },
{
    let method = action.method.as_str();
    let endpoint = action.endpoint.as_str();
    if action_route_risk(method, endpoint).is_none() {
        return Err("assistant action endpoint is not executable".to_owned());
    }
    if !eq_str(&chars_of(method), "DELETE") && action.payload.is_null() {
        return Err("assistant action payload is required".to_owned());
    }
    match check_action_preconditions(&action.preconditions, state) {
        Ok(()) => {},
        Err(e) => {
            return Err(e);
        },
    }
    match DirectActionRoute::classify(method, endpoint) {
        Some(d) => Ok(ActionTarget::Direct(d)),
        None => match collection_route(method, endpoint) {
            Ok(c) => Ok(ActionTarget::Collection(c)),
            Err(e) => Err(e),
        },
    }
}

} // verus!

use vstd::prelude::*;
use crate::models::{Content, TurnView, turns_view, user_turn, model_turn, user_role, model_role};

verus! {

/// A history made only of (user, model) pairs, each turn holding one part.
pub open spec fn is_paired(h: Seq<TurnView>) -> bool {
    &&& h.len() % 2 == 0
    &&& forall|i: int| 0 <= i < h.len() ==> (#[trigger] h[i]).texts.len() == 1
    &&& forall|i: int| 0 <= i < h.len() ==> (#[trigger] h[i]).role == Some(
        if i % 2 == 0 { user_role() } else { model_role() })
}

/// A session's history with one more exchange at its end.
pub open spec fn with_exchange(h: Seq<TurnView>, user: Seq<char>, reply: Seq<char>) -> Seq<TurnView> {
    h.push(user_turn(user)).push(model_turn(reply))
}

/// The history of a session in a store's view: empty when it is unknown.
pub open spec fn history_of(m: Map<Seq<char>, Seq<TurnView>>, id: Seq<char>) -> Seq<TurnView> {
    if m.contains_key(id) { m[id] } else { Seq::empty() }
}

/// The turns that a sequence of (message, reply) exchanges appends, in order.
pub open spec fn exchange_turns(ex: Seq<(Seq<char>, Seq<char>)>) -> Seq<TurnView>
    decreases ex.len(),
{
    if ex.len() == 0 {
        Seq::empty()
    } else {
        let last = ex.last();
        with_exchange(exchange_turns(ex.drop_last()), last.0, last.1)
    }
}

/// A store's view after `append_exchange` on `id` for each exchange of `ex`, in order.
pub open spec fn apply_exchanges(
    m: Map<Seq<char>, Seq<TurnView>>,
    id: Seq<char>,
    ex: Seq<(Seq<char>, Seq<char>)>,
) -> Map<Seq<char>, Seq<TurnView>>
    decreases ex.len(),
{
    if ex.len() == 0 {
        m
    } else {
        let before = apply_exchanges(m, id, ex.drop_last());
        let last = ex.last();
        before.insert(id, with_exchange(history_of(before, id), last.0, last.1))
    }
}

/// Exchange `i` stands at positions `2i` (the user turn) and `2i + 1` (the model turn).
pub proof fn lemma_exchange_turns_index(ex: Seq<(Seq<char>, Seq<char>)>)
    ensures
        exchange_turns(ex).len() == 2 * ex.len(),
        forall|i: int| 0 <= i < ex.len() ==> {
            &&& exchange_turns(ex)[2 * i] == user_turn((#[trigger] ex[i]).0)
            &&& exchange_turns(ex)[2 * i + 1] == model_turn(ex[i].1)
        },
    decreases ex.len(),
{
    if ex.len() > 0 {
        lemma_exchange_turns_index(ex.drop_last());
        let prev = ex.drop_last();
        assert forall|i: int| 0 <= i < ex.len() implies {
            &&& exchange_turns(ex)[2 * i] == user_turn((#[trigger] ex[i]).0)
            &&& exchange_turns(ex)[2 * i + 1] == model_turn(ex[i].1)
        } by {
            if i < prev.len() {
                assert(prev[i] == ex[i]);
            }
        }
    }
}

/// Turns are returned in the order they were appended, one (user, model) pair per
/// exchange, and never as an odd-length fragment: after any sequence of appends to a
/// session, its history is the earlier history followed by those exchanges' turns, and
/// a paired history stays paired. Other sessions are untouched.
pub proof fn lemma_history_keeps_append_order(
    m: Map<Seq<char>, Seq<TurnView>>,
    id: Seq<char>,
    ex: Seq<(Seq<char>, Seq<char>)>,
)
    ensures
        history_of(apply_exchanges(m, id, ex), id) == history_of(m, id) + exchange_turns(ex),
        is_paired(history_of(m, id)) ==> is_paired(history_of(apply_exchanges(m, id, ex), id)),
        forall|k: Seq<char>| k != id ==> #[trigger] history_of(apply_exchanges(m, id, ex), k)
            == history_of(m, k),
    decreases ex.len(),
{
    let h0 = history_of(m, id);
    if ex.len() > 0 {
        lemma_history_keeps_append_order(m, id, ex.drop_last());
        assert(h0 + exchange_turns(ex) =~= with_exchange(h0 + exchange_turns(ex.drop_last()),
            ex.last().0, ex.last().1));
        let before = apply_exchanges(m, id, ex.drop_last());
        assert forall|k: Seq<char>| k != id implies #[trigger] history_of(apply_exchanges(m, id, ex), k)
            == history_of(m, k) by {
            assert(history_of(before, k) == history_of(m, k));
        }
    } else {
        assert(h0 + exchange_turns(ex) =~= h0);
    }
    lemma_exchange_turns_index(ex);
    if is_paired(h0) {
        let h = h0 + exchange_turns(ex);
        let e = exchange_turns(ex);
        assert forall|k: int| 0 <= k < h.len() implies {
            &&& (#[trigger] h[k]).texts.len() == 1
            &&& h[k].role == Some(if k % 2 == 0 { user_role() } else { model_role() })
        } by {
            if k >= h0.len() {
                let d = k - h0.len();
                let i = d / 2;
                assert(ex[i] == ex[i]);
                if d % 2 == 0 {
                    assert(e[2 * i] == user_turn(ex[i].0));
                    assert(h[k] == e[2 * i]);
                } else {
                    assert(e[2 * i + 1] == model_turn(ex[i].1));
                    assert(h[k] == e[2 * i + 1]);
                }
            }
        }
    }
}

/// Any number of exchanges on one new session, however their calls were scheduled,
/// leave exactly two turns per exchange, each exchange's user and model turns adjacent
/// and holding exactly that exchange's texts.
pub proof fn lemma_every_exchange_kept_whole(
    m: Map<Seq<char>, Seq<TurnView>>,
    id: Seq<char>,
    ex: Seq<(Seq<char>, Seq<char>)>,
)
    requires
        !m.contains_key(id),
    ensures
        history_of(apply_exchanges(m, id, ex), id).len() == 2 * ex.len(),
        forall|i: int| 0 <= i < ex.len() ==> {
            &&& history_of(apply_exchanges(m, id, ex), id)[2 * i] == user_turn((#[trigger] ex[i]).0)
            &&& history_of(apply_exchanges(m, id, ex), id)[2 * i + 1] == model_turn(ex[i].1)
        },
{
    lemma_history_keeps_append_order(m, id, ex);
    lemma_exchange_turns_index(ex);
    assert(history_of(m, id) =~= Seq::<TurnView>::empty());
    assert(history_of(apply_exchanges(m, id, ex), id) =~= exchange_turns(ex));
}

/// One session of the store.
pub struct SessionEntry {
    pub session_id: String,
    pub history: Vec<Content>,
}

/// The conversation histories of all sessions, keyed by session identifier.
pub struct ConversationStore {
    entries: Vec<SessionEntry>,
}

impl ConversationStore {
    spec fn key_at(&self, i: int) -> Seq<char> {
        self.entries@[i].session_id@
    }

    /// Each session identifier stands in at most one entry, and each history is paired.
    pub closed spec fn wf(&self) -> bool {
        &&& forall|i: int, j: int|
            0 <= i < j < self.entries@.len() ==> self.key_at(i) != self.key_at(j)
        &&& forall|i: int|
            0 <= i < self.entries@.len() ==> is_paired(turns_view(#[trigger] self.entries@[i].history@))
    }

    /// The store as a map from session identifier to history.
    pub closed spec fn view(&self) -> Map<Seq<char>, Seq<TurnView>> {
        Map::new(
            |k: Seq<char>| exists|i: int| 0 <= i < self.entries@.len() && self.key_at(i) == k,
            |k: Seq<char>| {
                let i = choose|i: int| 0 <= i < self.entries@.len() && self.key_at(i) == k;
                turns_view(self.entries@[i].history@)
            },
        )
    }

    proof fn lemma_view_at(&self, i: int)
        requires
            self.wf(),
            0 <= i < self.entries@.len(),
        ensures
            self.view().contains_key(self.key_at(i)),
            self.view()[self.key_at(i)] == turns_view(self.entries@[i].history@),
    {
        let k = self.key_at(i);
        assert(self.view().contains_key(k));
        let j = choose|j: int| 0 <= j < self.entries@.len() && self.key_at(j) == k;
        assert(j == i);
    }

    /// An empty store.
    pub fn new() -> (r: ConversationStore)
        ensures
            r.wf(),
            r.view() == Map::<Seq<char>, Seq<TurnView>>::empty(),
    {
        let r = ConversationStore { entries: Vec::new() };
        assert(r.view() =~= Map::<Seq<char>, Seq<TurnView>>::empty());
        r
    }

    /// The index of the entry for `session_id`, if there is one.
    fn find(&self, session_id: &String) -> (r: Option<usize>)
        requires
            self.wf(),
        ensures
            match r {
                Some(i) => i < self.entries@.len() && self.key_at(i as int) == session_id@,
                None => !self.view().contains_key(session_id@),
            },
    {
        let mut i: usize = 0;
        while i < self.entries.len()
            invariant
                i <= self.entries@.len(),
                forall|j: int| 0 <= j < i ==> self.key_at(j) != session_id@,
            decreases self.entries@.len() - i,
        {
            if self.entries[i].session_id == *session_id {
                return Some(i);
            }
            i = i + 1;
        }
        None
    }

    /// A copy of the session's history, in the order its turns were appended; empty
    /// when the session is unknown.
    pub fn get_history(&self, session_id: &String) -> (r: Vec<Content>)
        requires
            self.wf(),
        ensures
            turns_view(r@) == history_of(self.view(), session_id@),
            is_paired(turns_view(r@)),
    {
        match self.find(session_id) {
            Some(i) => {
                proof { self.lemma_view_at(i as int); }
                crate::models::copy_turns(&self.entries[i].history)
            },
            None => {
                let r: Vec<Content> = Vec::new();
                assert(turns_view(r@) =~= Seq::<TurnView>::empty());
                r
            },
        }
    }

    /// The view after entry `i` got history `h`, keys unchanged.
    proof fn lemma_view_replace(a: &Self, b: &Self, i: int, h: Seq<TurnView>)
        requires
            a.wf(),
            0 <= i < a.entries@.len(),
            b.entries@.len() == a.entries@.len(),
            forall|j: int| 0 <= j < a.entries@.len() ==> #[trigger] b.key_at(j) == a.key_at(j),
            forall|j: int| 0 <= j < a.entries@.len() && j != i ==> #[trigger] b.entries@[j] == a.entries@[j],
            turns_view(b.entries@[i].history@) == h,
            is_paired(h),
        ensures
            b.wf(),
            b.view() == a.view().insert(a.key_at(i), h),
    {
        assert forall|j: int| 0 <= j < b.entries@.len() implies
            is_paired(turns_view(#[trigger] b.entries@[j].history@)) by {
            if j != i {
                assert(b.entries@[j] == a.entries@[j]);
            }
        }
        assert forall|j1: int, j2: int| 0 <= j1 < j2 < b.entries@.len() implies b.key_at(j1) != b.key_at(j2) by {
            assert(b.key_at(j1) == a.key_at(j1));
            assert(b.key_at(j2) == a.key_at(j2));
        }
        let m = a.view().insert(a.key_at(i), h);
        assert forall|k: Seq<char>| #[trigger] b.view().contains_key(k) == m.contains_key(k) by {
            if a.view().contains_key(k) {
                let j = choose|j: int| 0 <= j < a.entries@.len() && a.key_at(j) == k;
                assert(b.key_at(j) == k);
            }
            if k == a.key_at(i) {
                assert(b.key_at(i) == k);
            }
            if b.view().contains_key(k) {
                let j = choose|j: int| 0 <= j < b.entries@.len() && b.key_at(j) == k;
                assert(a.key_at(j) == k);
            }
        }
        assert forall|k: Seq<char>| b.view().contains_key(k) implies #[trigger] b.view()[k] == m[k] by {
            let j = choose|j: int| 0 <= j < b.entries@.len() && b.key_at(j) == k;
            b.lemma_view_at(j);
            a.lemma_view_at(j);
            assert(a.key_at(j) == k);
        }
        assert(b.view() =~= m);
    }

    /// The view after a new entry with key `k` and history `h` was pushed.
    proof fn lemma_view_push(a: &Self, b: &Self, k: Seq<char>, h: Seq<TurnView>)
        requires
            a.wf(),
            !a.view().contains_key(k),
            b.entries@.len() == a.entries@.len() + 1,
            forall|j: int| 0 <= j < a.entries@.len() ==> #[trigger] b.entries@[j] == a.entries@[j],
            b.key_at(a.entries@.len() as int) == k,
            turns_view(b.entries@[a.entries@.len() as int].history@) == h,
            is_paired(h),
        ensures
            b.wf(),
            b.view() == a.view().insert(k, h),
    {
        let n = a.entries@.len() as int;
        assert forall|j: int| 0 <= j < n implies #[trigger] a.key_at(j) != k by {
            if a.key_at(j) == k {
                assert(a.view().contains_key(k));
            }
        }
        assert forall|j: int| 0 <= j < b.entries@.len() implies
            is_paired(turns_view(#[trigger] b.entries@[j].history@)) by {
            if j < n {
                assert(b.entries@[j] == a.entries@[j]);
            }
        }
        assert forall|j1: int, j2: int| 0 <= j1 < j2 < b.entries@.len() implies b.key_at(j1) != b.key_at(j2) by {
            assert(b.entries@[j1] == a.entries@[j1]);
            if j2 < n {
                assert(b.entries@[j2] == a.entries@[j2]);
                assert(a.key_at(j1) != a.key_at(j2));
            } else {
                assert(a.key_at(j1) != k);
            }
        }
        let m = a.view().insert(k, h);
        assert forall|k2: Seq<char>| #[trigger] b.view().contains_key(k2) == m.contains_key(k2) by {
            if a.view().contains_key(k2) {
                let j = choose|j: int| 0 <= j < a.entries@.len() && a.key_at(j) == k2;
                assert(b.entries@[j] == a.entries@[j]);
                assert(b.key_at(j) == k2);
            }
            if k2 == k {
                assert(b.key_at(n) == k2);
            }
            if b.view().contains_key(k2) && k2 != k {
                let j = choose|j: int| 0 <= j < b.entries@.len() && b.key_at(j) == k2;
                assert(b.entries@[j] == a.entries@[j]);
                assert(a.key_at(j) == k2);
            }
        }
        assert forall|k2: Seq<char>| b.view().contains_key(k2) implies #[trigger] b.view()[k2] == m[k2] by {
            let j = choose|j: int| 0 <= j < b.entries@.len() && b.key_at(j) == k2;
            b.lemma_view_at(j);
            if j < n {
                assert(b.entries@[j] == a.entries@[j]);
                a.lemma_view_at(j);
            }
        }
        assert(b.view() =~= m);
    }

    /// Appends a user turn holding `user_text` and then a model turn holding
    /// `model_text` to the session's history, creating the session if it is unknown.
    /// No other session changes.
    pub fn append_exchange(&mut self, session_id: &String, user_text: String, model_text: String)
        requires
            old(self).wf(),
        ensures
            final(self).wf(),
            final(self).view() == old(self).view().insert(
                session_id@,
                with_exchange(history_of(old(self).view(), session_id@), user_text@, model_text@),
            ),
    {
        let ghost user_v = user_text@;
        let ghost model_v = model_text@;
        let user = Content::single("user", user_text);
        let model = Content::single("model", model_text);
        proof {
            reveal_strlit("user");
            reveal_strlit("model");
            assert("user"@ =~= user_role());
            assert("model"@ =~= model_role());
        }
        let ghost a: ConversationStore = *self;
        match self.find(session_id) {
            Some(i) => {
                proof { self.lemma_view_at(i as int); }
                let mut entry = self.entries.remove(i);
                let ghost h0 = turns_view(entry.history@);
                entry.history.push(user);
                entry.history.push(model);
                let ghost h = with_exchange(h0, user_v, model_v);
                assert(turns_view(entry.history@) =~= h);
                self.entries.insert(i, entry);
                proof {
                    assert(forall|k: int| 0 <= k < h0.len() ==> h[k] == h0[k]);
                    assert(is_paired(h));
                    assert(forall|j: int| 0 <= j < a.entries@.len() && j != i ==> self.entries@[j] == a.entries@[j]);
                    Self::lemma_view_replace(&a, self, i as int, h);
                }
            },
            None => {
                let mut history: Vec<Content> = Vec::new();
                history.push(user);
                history.push(model);
                let ghost h = turns_view(history@);
                assert(h =~= with_exchange(Seq::empty(), user_v, model_v));
                self.entries.push(SessionEntry { session_id: session_id.clone(), history });
                proof {
                    assert(forall|k: int| 0 <= k < 2 ==> h[k] == turns_view(history@)[k]);
                    assert(is_paired(h));
                    Self::lemma_view_push(&a, self, session_id@, h);
                }
            },
        }
    }
}

/// What the request handlers share: the conversation store.
pub struct AppState {
    pub conversations: ConversationStore,
}

impl AppState {
    /// A state with no session.
    pub fn new() -> (r: AppState)
        ensures
            r.conversations.wf(),
            r.conversations.view() == Map::<Seq<char>, Seq<TurnView>>::empty(),
    {
        AppState { conversations: ConversationStore::new() }
    }
}

} // verus!

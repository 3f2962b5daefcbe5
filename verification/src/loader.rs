//! The batch loader: many lookups by key, asked for while one query is
//! evaluated, become few round trips to the store, and what was loaded once
//! is remembered for as long as the loader lives.
//!
//! A loader belongs to one request. `load` either answers from what is
//! remembered or queues the key; `next_batch` hands out the keys of the next
//! round trip; `resolve` takes the rows that came back, or the failure, and
//! settles every key of that round trip.

use crate::ddb::schema::{
    contains_id, owned_by, owned_by_any, user_among, user_is, Store, StoreView,
};
use crate::ddb::select::{
    lemma_filter_all, lemma_filter_contains, lemma_filter_keeps_order, lemma_filter_step,
    lemma_filter_twice,
};
use crate::ddb::{Dao, DaoErrorView, DaoResult};
use crate::domain::photo::{Photo, PhotoView};
use crate::domain::user::{User, UserView};
use vstd::prelude::*;

verus! {

/// The largest number of keys that one round trip covers.
pub const MAX_BATCH_SIZE: usize = 100;

/// A value that can be loaded in batches: it is grouped under a key, and the
/// store can fetch the values of many keys in one round trip.
pub trait Loadable: DeepView + Sized {
    /// The rows of the table that the values are loaded from.
    spec fn table(store: StoreView) -> Seq<Self::V>;

    /// Selects the values grouped under `key`.
    spec fn grouped_under(key: Seq<char>) -> spec_fn(Self::V) -> bool;

    /// Selects the values grouped under one of `keys`.
    spec fn grouped_under_any(keys: Seq<Seq<char>>) -> spec_fn(Self::V) -> bool;

    /// A value grouped under one of `keys` is among those selected for
    /// `keys`.
    proof fn lemma_grouping(keys: Seq<Seq<char>>, key: Seq<char>, v: Self::V)
        requires
            keys.contains(key),
            Self::grouped_under(key)(v),
        ensures
            Self::grouped_under_any(keys)(v),
    ;

    fn has_key(&self, key: &String) -> (b: bool)
        ensures
            b == Self::grouped_under(key@)(self.deep_view()),
    ;

    fn duplicate(&self) -> (copy: Self)
        ensures
            copy.deep_view() == self.deep_view(),
    ;

    /// The values grouped under one of `keys`, in table order, fetched in
    /// one round trip.
    fn fetch(conn: &Store, keys: &Vec<String>) -> (res: DaoResult<Vec<Self>>)
        requires
            conn@.wf(),
        ensures
            res matches Ok(rows) && rows.deep_view() == Self::table(conn@).filter(
                Self::grouped_under_any(keys.deep_view()),
            ),
    ;
}

/// What a lookup settled with, as plain values.
pub open spec fn outcome_view<V: Loadable>(outcome: DaoResult<Vec<V>>) -> Result<
    Seq<V::V>,
    DaoErrorView,
> {
    match outcome {
        Ok(rows) => Ok(rows.deep_view()),
        Err(e) => Err(e@),
    }
}

/// What the key `key` settles with when its round trip came back with
/// `outcome`: the rows grouped under it, in the order they came, or the
/// failure of the round trip.
pub open spec fn share_of<V: Loadable>(outcome: DaoResult<Vec<V>>, key: Seq<char>) -> Result<
    Seq<V::V>,
    DaoErrorView,
> {
    match outcome {
        Ok(rows) => Ok(rows.deep_view().filter(V::grouped_under(key))),
        Err(e) => Err(e@),
    }
}

/// The number of round trips that `pending` keys take.
pub open spec fn round_trips(pending: nat) -> nat {
    ((pending + MAX_BATCH_SIZE - 1) / (MAX_BATCH_SIZE as int)) as nat
}

/// The number of round trips is the number of waiting keys over the batch
/// size, rounded up: enough for every key, and not one more.
pub proof fn lemma_round_trips_is_ceiling(pending: nat)
    ensures
        round_trips(pending) * MAX_BATCH_SIZE >= pending,
        pending > 0 ==> (round_trips(pending) - 1) * MAX_BATCH_SIZE < pending,
        pending == 0 ==> round_trips(pending) == 0,
{
}

/// Selects the keys that are not among `keys`.
pub open spec fn not_among(keys: Seq<Seq<char>>) -> spec_fn(Seq<char>) -> bool {
    |key: Seq<char>| !keys.contains(key)
}

/// A batching and caching loader of values of type `V`.
pub struct BatchLoader<V> {
    pending: Vec<String>,
    resolved: Vec<(String, DaoResult<Vec<V>>)>,
}

/// What a loader holds: the keys that wait for a round trip, in the order
/// they were first asked for, and the keys that are settled, each with what
/// it settled with.
#[verifier::ext_equal]
pub struct LoaderView<T> {
    pub pending: Seq<Seq<char>>,
    pub resolved: Seq<(Seq<char>, Result<Seq<T>, DaoErrorView>)>,
}

impl<T> LoaderView<T> {
    pub open spec fn settled_at(self, key: Seq<char>, i: int) -> bool {
        0 <= i < self.resolved.len() && self.resolved[i].0 == key
    }

    /// Whether `key` is settled.
    pub open spec fn is_settled(self, key: Seq<char>) -> bool {
        exists|i: int| self.settled_at(key, i)
    }

    /// What `key` settled with, where it is settled.
    pub open spec fn outcome(self, key: Seq<char>) -> Result<Seq<T>, DaoErrorView> {
        self.resolved[choose|i: int| self.settled_at(key, i)].1
    }

    /// No key waits twice, no key is settled twice, and no settled key
    /// waits.
    pub open spec fn wf(self) -> bool {
        &&& forall|i: int, j: int|
            #![trigger self.pending[i], self.pending[j]]
            0 <= i < j < self.pending.len() ==> self.pending[i] != self.pending[j]
        &&& forall|i: int, j: int|
            #![trigger self.resolved[i], self.resolved[j]]
            0 <= i < j < self.resolved.len() ==> self.resolved[i].0 != self.resolved[j].0
        &&& forall|i: int|
            0 <= i < self.pending.len() ==> !self.is_settled(#[trigger] self.pending[i])
    }

    /// What asking for `key` and running the round trips comes to: what
    /// the loader remembers of `key`, if it is settled, and else `direct`,
    /// what a lookup of that key alone returns.
    pub open spec fn answer(self, key: Seq<char>, direct: Seq<T>) -> Result<Seq<T>, DaoErrorView> {
        if self.is_settled(key) {
            self.outcome(key)
        } else {
            Ok(direct)
        }
    }

    /// The loader after `key` was asked for: a key that is neither settled
    /// nor waiting joins the end of the queue.
    pub open spec fn asked(self, key: Seq<char>) -> LoaderView<T> {
        if self.is_settled(key) || self.pending.contains(key) {
            self
        } else {
            LoaderView { pending: self.pending.push(key), ..self }
        }
    }

    /// The loader after each of `keys` was asked for, in order.
    pub open spec fn asked_all(self, keys: Seq<Seq<char>>) -> LoaderView<T>
        decreases keys.len(),
    {
        if keys.len() == 0 {
            self
        } else {
            self.asked_all(keys.drop_last()).asked(keys.last())
        }
    }

    /// The loader after `key`, which was not settled, settled with `share`.
    pub open spec fn settled_with(self, key: Seq<char>, share: Result<Seq<T>, DaoErrorView>)
        -> LoaderView<T> {
        LoaderView { resolved: self.resolved.push((key, share)), ..self }
    }

    /// Asking for a key keeps the loader well formed and settles nothing.
    pub proof fn lemma_asked(self, key: Seq<char>)
        requires
            self.wf(),
        ensures
            self.asked(key).wf(),
            self.asked(key).resolved == self.resolved,
    {
        let next = self.asked(key);
        if !(self.is_settled(key) || self.pending.contains(key)) {
            assert forall|i: int| 0 <= i < next.pending.len() implies !next.is_settled(
                #[trigger] next.pending[i],
            ) by {
                let k = next.pending[i];
                if i < self.pending.len() {
                    assert(!self.is_settled(self.pending[i]));
                }
                if next.is_settled(k) {
                    let w = choose|w: int| next.settled_at(k, w);
                    assert(self.settled_at(k, w));
                }
            }
            assert forall|i: int, j: int| 0 <= i < j < next.pending.len() implies next.pending[i]
                != next.pending[j] by {
                if j < self.pending.len() {
                    assert(self.pending[i] != self.pending[j]);
                } else {
                    assert(self.pending[i] != key);
                }
            }
        }
    }

    /// After each of `keys` was asked for, the loader is well formed and has
    /// settled nothing new; the keys that wait are those that waited before
    /// and those of `keys` that are not settled.
    pub proof fn lemma_asked_all(self, keys: Seq<Seq<char>>)
        requires
            self.wf(),
        ensures
            self.asked_all(keys).wf(),
            self.asked_all(keys).resolved == self.resolved,
            forall|key: Seq<char>|
                #[trigger] self.asked_all(keys).pending.contains(key) <==> self.pending.contains(
                    key,
                ) || (keys.contains(key) && !self.is_settled(key)),
        decreases keys.len(),
    {
        if keys.len() > 0 {
            let front = keys.drop_last();
            let last = keys.last();
            self.lemma_asked_all(front);
            let mid = self.asked_all(front);
            mid.lemma_asked(last);
            let next = mid.asked(last);
            assert forall|key: Seq<char>| mid.is_settled(key) <==> self.is_settled(key) by {
                if mid.is_settled(key) {
                    let w = choose|w: int| mid.settled_at(key, w);
                    assert(self.settled_at(key, w));
                }
                if self.is_settled(key) {
                    let w = choose|w: int| self.settled_at(key, w);
                    assert(mid.settled_at(key, w));
                }
            }
            assert forall|key: Seq<char>| keys.contains(key) <==> front.contains(key) || key
                == last by {
                if front.contains(key) {
                    let w = choose|w: int| 0 <= w < front.len() && front[w] == key;
                    assert(keys[w] == key);
                }
                if key == last {
                    assert(keys[keys.len() - 1] == key);
                }
                if keys.contains(key) {
                    let w = choose|w: int| 0 <= w < keys.len() && keys[w] == key;
                    if w < front.len() {
                        assert(front[w] == key);
                    }
                }
            }
            assert forall|key: Seq<char>|
                next.pending.contains(key) <==> mid.pending.contains(key) || (key == last
                    && !mid.is_settled(last)) by {
                if mid.pending.contains(key) {
                    let w = choose|w: int| 0 <= w < mid.pending.len() && mid.pending[w] == key;
                    assert(next.pending[w] == key);
                }
                if key == last && !mid.is_settled(last) && !mid.pending.contains(last) {
                    assert(next.pending[mid.pending.len() as int] == key);
                }
                if next.pending.contains(key) {
                    let w = choose|w: int| 0 <= w < next.pending.len() && next.pending[w] == key;
                    if w < mid.pending.len() {
                        assert(mid.pending[w] == key);
                    }
                }
            }
            assert forall|key: Seq<char>|
                next.pending.contains(key) <==> self.pending.contains(key) || (keys.contains(key)
                    && !self.is_settled(key)) by {
                assert(mid.pending.contains(key) <==> self.pending.contains(key) || (
                front.contains(key) && !self.is_settled(key)));
                assert(mid.is_settled(last) <==> self.is_settled(last));
            }
        } else {
            assert forall|key: Seq<char>| !keys.contains(key) by {}
        }
    }

    /// Settling a key that is neither settled nor waiting keeps the loader
    /// well formed, settles that key with its share and leaves every other
    /// key as it was.
    pub proof fn lemma_settled_with(self, key: Seq<char>, share: Result<Seq<T>, DaoErrorView>)
        requires
            self.wf(),
            !self.is_settled(key),
            !self.pending.contains(key),
        ensures
            self.settled_with(key, share).wf(),
            self.settled_with(key, share).is_settled(key),
            self.settled_with(key, share).outcome(key) == share,
            forall|k: Seq<char>|
                k != key ==> (self.settled_with(key, share).is_settled(k) <==> self.is_settled(k)),
            forall|k: Seq<char>|
                self.is_settled(k) ==> self.settled_with(key, share).outcome(k) == self.outcome(k),
    {
        let next = self.settled_with(key, share);
        let n = self.resolved.len() as int;
        assert forall|i: int, j: int| 0 <= i < j < next.resolved.len() implies next.resolved[i].0
            != next.resolved[j].0 by {
            if j < n {
                assert(self.resolved[i].0 != self.resolved[j].0);
            } else {
                assert(!self.settled_at(key, i));
            }
        }
        assert forall|k: Seq<char>| k != key implies (next.is_settled(k) <==> self.is_settled(
            k,
        )) by {
            if next.is_settled(k) {
                let w = choose|w: int| next.settled_at(k, w);
                assert(self.settled_at(k, w));
            }
            if self.is_settled(k) {
                let w = choose|w: int| self.settled_at(k, w);
                assert(next.settled_at(k, w));
            }
        }
        assert forall|i: int| 0 <= i < next.pending.len() implies !next.is_settled(
            #[trigger] next.pending[i],
        ) by {
            assert(!self.is_settled(self.pending[i]));
            assert(self.pending.contains(self.pending[i]));
        }
        assert(next.settled_at(key, n));
        next.lemma_settled_at(key, n);
        assert forall|k: Seq<char>| self.is_settled(k) implies next.outcome(k) == self.outcome(
            k,
        ) by {
            let w = choose|w: int| self.settled_at(k, w);
            self.lemma_settled_at(k, w);
            assert(next.settled_at(k, w));
            next.lemma_settled_at(k, w);
        }
    }

    /// Asking for keys that are all settled changes nothing: none of them
    /// waits, so that answering them takes no round trip.
    pub proof fn lemma_settled_keys_do_not_wait(self, keys: Seq<Seq<char>>)
        requires
            forall|i: int| 0 <= i < keys.len() ==> self.is_settled(#[trigger] keys[i]),
        ensures
            self.asked_all(keys) == self,
            self.pending.len() == 0 ==> round_trips(self.asked_all(keys).pending.len()) == 0,
        decreases keys.len(),
    {
        if keys.len() > 0 {
            let front = keys.drop_last();
            assert forall|i: int| 0 <= i < front.len() implies self.is_settled(
                #[trigger] front[i],
            ) by {
                assert(front[i] == keys[i]);
            }
            self.lemma_settled_keys_do_not_wait(front);
            assert(self.is_settled(keys[keys.len() - 1]));
        }
    }

    /// Keys that are all different, asked of a loader that waits for nothing
    /// and has settled none of them, all wait, in the order they were asked.
    pub proof fn lemma_distinct_keys_all_wait(self, keys: Seq<Seq<char>>)
        requires
            self.pending.len() == 0,
            keys.no_duplicates(),
            forall|i: int| 0 <= i < keys.len() ==> !self.is_settled(#[trigger] keys[i]),
        ensures
            self.asked_all(keys).pending == keys,
            self.asked_all(keys).resolved == self.resolved,
        decreases keys.len(),
    {
        if keys.len() == 0 {
            assert(self.pending =~= keys);
        } else {
            let front = keys.drop_last();
            assert forall|i: int| 0 <= i < front.len() implies !self.is_settled(
                #[trigger] front[i],
            ) by {
                assert(front[i] == keys[i]);
            }
            self.lemma_distinct_keys_all_wait(front);
            let mid = self.asked_all(front);
            let key = keys.last();
            assert(!mid.pending.contains(key)) by {
                if mid.pending.contains(key) {
                    let i = choose|i: int| 0 <= i < front.len() && front[i] == key;
                    assert(keys[i] == keys[keys.len() - 1]);
                }
            }
            assert(!mid.is_settled(key)) by {
                assert(!self.is_settled(keys[keys.len() - 1]));
                if mid.is_settled(key) {
                    let w = choose|w: int| mid.settled_at(key, w);
                    assert(self.settled_at(key, w));
                }
            }
            assert(front.push(key) =~= keys);
        }
    }

    /// With `wf`, a key is settled at one position only.
    pub proof fn lemma_settled_at(self, key: Seq<char>, i: int)
        requires
            self.wf(),
            self.settled_at(key, i),
        ensures
            self.is_settled(key),
            self.outcome(key) == self.resolved[i].1,
    {
        let k = choose|k: int| self.settled_at(key, k);
        if k < i {
            assert(self.resolved[k].0 != self.resolved[i].0);
        } else if i < k {
            assert(self.resolved[i].0 != self.resolved[k].0);
        }
    }
}

impl<V: Loadable> View for BatchLoader<V> {
    type V = LoaderView<V::V>;

    closed spec fn view(&self) -> LoaderView<V::V> {
        LoaderView {
            pending: self.pending.deep_view(),
            resolved: Seq::new(
                self.resolved@.len(),
                |i: int| (self.resolved@[i].0@, outcome_view(self.resolved@[i].1)),
            ),
        }
    }
}

/// A copy of what a lookup settled with.
fn copy_outcome<V: Loadable>(outcome: &DaoResult<Vec<V>>) -> (copy: DaoResult<Vec<V>>)
    ensures
        outcome_view(copy) == outcome_view(*outcome),
{
    match outcome {
        Ok(rows) => {
            let mut out: Vec<V> = Vec::new();
            let mut i: usize = 0;
            while i < rows.len()
                invariant
                    i <= rows.len(),
                    out.len() == i,
                    forall|j: int| 0 <= j < i ==> (#[trigger] out[j]).deep_view() == rows[j].deep_view(),
                decreases rows.len() - i,
            {
                out.push(rows[i].duplicate());
                i += 1;
            }
            assert(out.deep_view() =~= rows.deep_view());
            Ok(out)
        },
        Err(e) => Err(e.clone()),
    }
}

/// The rows grouped under `key`, in the order they came.
fn select<V: Loadable>(rows: &Vec<V>, key: &String) -> (out: Vec<V>)
    ensures
        out.deep_view() == rows.deep_view().filter(V::grouped_under(key@)),
{
    let mut out: Vec<V> = Vec::new();
    let mut i: usize = 0;
    assert(rows.deep_view().take(0).filter(V::grouped_under(key@)) =~= Seq::empty()) by {
        reveal(Seq::filter);
    }
    while i < rows.len()
        invariant
            i <= rows.len(),
            out.deep_view() =~= rows.deep_view().take(i as int).filter(V::grouped_under(key@)),
        decreases rows.len() - i,
    {
        proof {
            lemma_filter_step(rows.deep_view(), V::grouped_under(key@), i as int);
        }
        if rows[i].has_key(key) {
            out.push(rows[i].duplicate());
        }
        i += 1;
    }
    assert(rows.deep_view().take(i as int) =~= rows.deep_view());
    out
}

impl<V: Loadable> BatchLoader<V> {
    /// A loader that remembers nothing and waits for nothing.
    pub fn new() -> (loader: Self)
        ensures
            loader@.pending.len() == 0,
            loader@.resolved.len() == 0,
            loader@.wf(),
    {
        BatchLoader { pending: Vec::new(), resolved: Vec::new() }
    }

    fn find(&self, key: &String) -> (found: Option<usize>)
        ensures
            match found {
                Some(i) => self@.settled_at(key@, i as int),
                None => !self@.is_settled(key@),
            },
    {
        let mut i: usize = 0;
        while i < self.resolved.len()
            invariant
                i <= self.resolved.len(),
                forall|j: int| 0 <= j < i ==> !self@.settled_at(key@, j),
            decreases self.resolved.len() - i,
        {
            if self.resolved[i].0 == *key {
                return Some(i);
            }
            i += 1;
        }
        None
    }

    /// What `key` settled with, if it is settled.
    pub fn peek(&self, key: &String) -> (res: Option<DaoResult<Vec<V>>>)
        requires
            self@.wf(),
        ensures
            match res {
                Some(outcome) => self@.is_settled(key@) && outcome_view(outcome) == self@.outcome(
                    key@,
                ),
                None => !self@.is_settled(key@),
            },
    {
        match self.find(key) {
            Some(i) => {
                proof {
                    self@.lemma_settled_at(key@, i as int);
                }
                Some(copy_outcome(&self.resolved[i].1))
            },
            None => None,
        }
    }

    /// Asks for the values of `key`. A settled key is answered at once, from
    /// what is remembered, and nothing changes; any other key waits for the
    /// next round trip, once however often it is asked for.
    pub fn load(&mut self, key: String) -> (res: Option<DaoResult<Vec<V>>>)
        requires
            old(self)@.wf(),
        ensures
            final(self)@.wf(),
            final(self)@ == old(self)@.asked(key@),
            match res {
                Some(outcome) => old(self)@.is_settled(key@) && outcome_view(outcome) == old(
                    self,
                )@.outcome(key@),
                None => !old(self)@.is_settled(key@),
            },
    {
        proof {
            self@.lemma_asked(key@);
        }
        match self.peek(&key) {
            Some(outcome) => Some(outcome),
            None => {
                if !contains_id(&self.pending, &key) {
                    let ghost before = self@;
                    self.pending.push(key);
                    assert(self@.pending =~= before.pending.push(key@));
                    assert(self@.resolved =~= before.resolved);
                }
                None
            },
        }
    }

    /// Takes the keys of the next round trip out of the queue: the keys that
    /// have waited longest, at most `MAX_BATCH_SIZE` of them, none if none
    /// wait.
    pub fn next_batch(&mut self) -> (batch: Vec<String>)
        requires
            old(self)@.wf(),
        ensures
            final(self)@.wf(),
            final(self)@.resolved == old(self)@.resolved,
            batch.len() == if old(self)@.pending.len() <= MAX_BATCH_SIZE {
                old(self)@.pending.len()
            } else {
                MAX_BATCH_SIZE as nat
            },
            batch.deep_view() == old(self)@.pending.take(batch.len() as int),
            final(self)@.pending == old(self)@.pending.skip(batch.len() as int),
    {
        let n: usize = if self.pending.len() <= MAX_BATCH_SIZE {
            self.pending.len()
        } else {
            MAX_BATCH_SIZE
        };
        let ghost before = self@;
        let mut batch = self.pending.split_off(n);
        std::mem::swap(&mut self.pending, &mut batch);
        assert(batch.deep_view() =~= before.pending.take(n as int));
        assert(self@.pending =~= before.pending.skip(n as int));
        assert(self@.resolved =~= before.resolved);
        assert forall|i: int| 0 <= i < self@.pending.len() implies !self@.is_settled(
            #[trigger] self@.pending[i],
        ) by {
            let k = self@.pending[i];
            assert(!before.is_settled(before.pending[i + n]));
            if self@.is_settled(k) {
                let w = choose|w: int| self@.settled_at(k, w);
                assert(before.settled_at(k, w));
            }
        }
        assert forall|i: int, j: int| 0 <= i < j < self@.pending.len() implies self@.pending[i]
            != self@.pending[j] by {
            assert(before.pending[i + n] != before.pending[j + n]);
        }
        batch
    }

    /// Settles the keys of a round trip with what came back. Where rows came
    /// back, each key gets the rows grouped under it, in the order they came,
    /// and none if there are none; where the round trip failed, each key
    /// gets that same failure. A key that was settled before keeps what it
    /// had, and no key of the round trip waits any longer.
    pub fn resolve(&mut self, batch: Vec<String>, outcome: DaoResult<Vec<V>>)
        requires
            old(self)@.wf(),
        ensures
            final(self)@.wf(),
            final(self)@.pending == old(self)@.pending.filter(not_among(batch.deep_view())),
            forall|key: Seq<char>|
                final(self)@.is_settled(key) <==> old(self)@.is_settled(key)
                    || batch.deep_view().contains(key),
            forall|key: Seq<char>|
                old(self)@.is_settled(key) ==> final(self)@.outcome(key) == old(self)@.outcome(key),
            forall|key: Seq<char>|
                batch.deep_view().contains(key) && !old(self)@.is_settled(key) ==> final(self)@.outcome(key) == share_of(outcome, key),
    {
        let ghost before = self@;
        let ghost keys = batch.deep_view();
        let mut kept: Vec<String> = Vec::new();
        let mut j: usize = 0;
        assert(before.pending.take(0).filter(not_among(keys)) =~= Seq::empty()) by {
            reveal(Seq::filter);
        }
        while j < self.pending.len()
            invariant
                self@ == before,
                keys == batch.deep_view(),
                j <= self.pending.len(),
                kept.deep_view() =~= before.pending.take(j as int).filter(not_among(keys)),
            decreases self.pending.len() - j,
        {
            proof {
                lemma_filter_step(before.pending, not_among(keys), j as int);
            }
            if !contains_id(&batch, &self.pending[j]) {
                kept.push(self.pending[j].clone());
            }
            j += 1;
        }
        assert(before.pending.take(j as int) =~= before.pending);
        self.pending = kept;
        let ghost start = self@;
        proof {
            assert(start.resolved =~= before.resolved);
            lemma_filter_keeps_order(
                before.pending,
                not_among(keys),
                |a: Seq<char>, b: Seq<char>| a != b,
            );
            assert forall|i: int| 0 <= i < start.pending.len() implies !start.is_settled(
                #[trigger] start.pending[i],
            ) && !keys.contains(start.pending[i]) by {
                let k = start.pending[i];
                assert(start.pending.contains(k));
                lemma_filter_contains(before.pending, not_among(keys), k);
                let w = choose|w: int| 0 <= w < before.pending.len() && before.pending[w] == k;
                assert(!before.is_settled(before.pending[w]));
                if start.is_settled(k) {
                    let x = choose|x: int| start.settled_at(k, x);
                    assert(before.settled_at(k, x));
                }
            }
            assert forall|key: Seq<char>| start.is_settled(key) <==> before.is_settled(key) by {
                if start.is_settled(key) {
                    let x = choose|x: int| start.settled_at(key, x);
                    assert(before.settled_at(key, x));
                }
                if before.is_settled(key) {
                    let x = choose|x: int| before.settled_at(key, x);
                    assert(start.settled_at(key, x));
                }
            }
        }
        let mut i: usize = 0;
        while i < batch.len()
            invariant
                i <= batch.len(),
                keys == batch.deep_view(),
                self@.wf(),
                self@.pending == start.pending,
                forall|k: int| 0 <= k < start.pending.len() ==> !keys.contains(
                    #[trigger] start.pending[k],
                ),
                forall|key: Seq<char>|
                    self@.is_settled(key) <==> start.is_settled(key) || keys.take(
                        i as int,
                    ).contains(key),
                forall|key: Seq<char>|
                    start.is_settled(key) ==> self@.outcome(key) == start.outcome(key),
                forall|key: Seq<char>|
                    keys.take(i as int).contains(key) && !start.is_settled(key) ==> self@.outcome(
                        key,
                    ) == share_of(outcome, key),
            decreases batch.len() - i,
        {
            let ghost key = keys[i as int];
            let ghost cur = self@;
            let ghost head = keys.take(i as int);
            let ghost more = keys.take(i as int + 1);
            assert(forall|k: Seq<char>|
                cur.is_settled(k) <==> start.is_settled(k) || head.contains(k));
            assert(keys.take(i as int + 1) =~= keys.take(i as int).push(key));
            assert forall|k: Seq<char>| more.contains(k) <==> head.contains(k) || k == key by {
                if head.contains(k) {
                    let w = choose|w: int| 0 <= w < head.len() && head[w] == k;
                    assert(more[w] == k);
                }
                if k == key {
                    assert(more[i as int] == k);
                }
                if more.contains(k) {
                    let w = choose|w: int| 0 <= w < more.len() && more[w] == k;
                    if w < i {
                        assert(head[w] == k);
                    }
                }
            }
            let found = self.find(&batch[i]);
            assert(batch[i as int]@ == key);
            if found.is_none() {
                let share = match &outcome {
                    Ok(rows) => Ok(select(rows, &batch[i])),
                    Err(e) => Err(e.clone()),
                };
                proof {
                    assert(!cur.pending.contains(key)) by {
                        if cur.pending.contains(key) {
                            let w = choose|w: int| 0 <= w < cur.pending.len() && cur.pending[w] == key;
                            assert(keys.contains(start.pending[w]));
                        }
                    }
                    cur.lemma_settled_with(key, outcome_view(share));
                }
                self.resolved.push((batch[i].clone(), share));
                assert(self@.resolved =~= cur.settled_with(key, outcome_view(share)).resolved);
                assert(self@ == cur.settled_with(key, outcome_view(share)));
            } else {
                assert(cur.settled_at(key, found.unwrap() as int));
            }
            proof {
                assert(self@.is_settled(key));
                assert forall|k: Seq<char>|
                    self@.is_settled(k) <==> start.is_settled(k) || more.contains(k) by {
                    if k != key {
                        assert(self@.is_settled(k) <==> cur.is_settled(k));
                    }
                }
            }
            i += 1;
        }
        assert(keys.take(i as int) =~= keys);
    }

    /// Runs the round trips that the waiting keys take, oldest keys first,
    /// and settles each key with what a lookup of that key alone returns.
    /// Returns the number of round trips.
    pub fn dispatch_all(&mut self, conn: &Store) -> (trips: usize)
        requires
            old(self)@.wf(),
            conn@.wf(),
        ensures
            final(self)@.wf(),
            final(self)@.pending.len() == 0,
            trips == round_trips(old(self)@.pending.len()),
            forall|key: Seq<char>|
                final(self)@.is_settled(key) <==> old(self)@.is_settled(key) || old(
                    self,
                )@.pending.contains(key),
            forall|key: Seq<char>|
                old(self)@.is_settled(key) ==> final(self)@.outcome(key) == old(self)@.outcome(key),
            forall|key: Seq<char>|
                old(self)@.pending.contains(key) ==> final(self)@.outcome(key) == Ok::<
                    Seq<V::V>,
                    DaoErrorView,
                >(V::table(conn@).filter(V::grouped_under(key))),
    {
        let ghost before = self@;
        let ghost mut done: int = 0;
        let mut trips: usize = 0;
        assert(before.pending.skip(0) =~= before.pending);
        assert(before.pending.take(0) =~= Seq::<Seq<char>>::empty());
        assert(before.pending.len() == self.pending.len());
        while self.pending.len() > 0
            invariant
                conn@.wf(),
                before.pending.len() <= usize::MAX,
                before.wf(),
                self@.wf(),
                0 <= done <= before.pending.len(),
                self@.pending == before.pending.skip(done),
                trips <= done,
                trips == round_trips(done as nat),
                self@.pending.len() > 0 ==> done == trips * MAX_BATCH_SIZE,
                forall|key: Seq<char>|
                    self@.is_settled(key) <==> before.is_settled(key) || before.pending.take(
                        done,
                    ).contains(key),
                forall|key: Seq<char>|
                    before.is_settled(key) ==> self@.outcome(key) == before.outcome(key),
                forall|key: Seq<char>|
                    before.pending.take(done).contains(key) ==> self@.outcome(key) == Ok::<
                        Seq<V::V>,
                        DaoErrorView,
                    >(V::table(conn@).filter(V::grouped_under(key))),
            decreases before.pending.len() - done,
        {
            let ghost cur = self@;
            let batch = self.next_batch();
            let ghost keys = batch.deep_view();
            let ghost taken = self@;
            let outcome = V::fetch(conn, &batch);
            proof {
                let b = keys.len() as int;
                assert(1 <= b <= MAX_BATCH_SIZE);
                assert forall|i: int| 0 <= i < taken.pending.len() implies not_among(keys)(
                    #[trigger] taken.pending[i],
                ) by {
                    if keys.contains(taken.pending[i]) {
                        let w = choose|w: int| 0 <= w < keys.len() && keys[w] == taken.pending[i];
                        assert(cur.pending[w] != cur.pending[i + b]);
                    }
                }
                lemma_filter_all(taken.pending, not_among(keys));
                assert(before.pending.skip(done).skip(b) =~= before.pending.skip(done + b));
                assert(before.pending.take(done + b) =~= before.pending.take(done) + keys);
                let head = before.pending.take(done);
                let more = before.pending.take(done + b);
                assert forall|key: Seq<char>|
                    more.contains(key) <==> head.contains(key) || keys.contains(key) by {
                    if head.contains(key) {
                        let w = choose|w: int| 0 <= w < head.len() && head[w] == key;
                        assert(more[w] == key);
                    }
                    if keys.contains(key) {
                        let w = choose|w: int| 0 <= w < keys.len() && keys[w] == key;
                        assert(more[done + w] == key);
                    }
                    if more.contains(key) {
                        let w = choose|w: int| 0 <= w < more.len() && more[w] == key;
                        if w < done {
                            assert(head[w] == key);
                        } else {
                            assert(keys[w - done] == key);
                        }
                    }
                }
                assert forall|key: Seq<char>| keys.contains(key) implies !taken.is_settled(key)
                    && share_of(outcome, key) == Ok::<Seq<V::V>, DaoErrorView>(
                    V::table(conn@).filter(V::grouped_under(key)),
                ) by {
                    let w = choose|w: int| 0 <= w < keys.len() && keys[w] == key;
                    assert(!cur.is_settled(cur.pending[w]));
                    assert(taken.resolved == cur.resolved);
                    if taken.is_settled(key) {
                        let x = choose|x: int| taken.settled_at(key, x);
                        assert(cur.settled_at(key, x));
                    }
                    assert forall|v: V::V| #[trigger]
                        V::grouped_under(key)(v) implies V::grouped_under_any(keys)(v) by {
                        V::lemma_grouping(keys, key, v);
                    }
                    lemma_filter_twice(
                        V::table(conn@),
                        V::grouped_under_any(keys),
                        V::grouped_under(key),
                    );
                }
                assert forall|key: Seq<char>| taken.is_settled(key) <==> cur.is_settled(key) by {
                    if taken.is_settled(key) {
                        let x = choose|x: int| taken.settled_at(key, x);
                        assert(cur.settled_at(key, x));
                    }
                    if cur.is_settled(key) {
                        let x = choose|x: int| cur.settled_at(key, x);
                        assert(taken.settled_at(key, x));
                    }
                }
                assert forall|key: Seq<char>| cur.is_settled(key) implies taken.outcome(key)
                    == cur.outcome(key) by {
                    let x = choose|x: int| cur.settled_at(key, x);
                    cur.lemma_settled_at(key, x);
                    assert(taken.settled_at(key, x));
                    taken.lemma_settled_at(key, x);
                }
                done = done + b;
            }
            self.resolve(batch, outcome);
            trips += 1;
        }
        assert(before.pending.take(done) =~= before.pending);
        trips
    }

    /// Asks for each of `keys`, runs the round trips that this takes, and
    /// returns what each key settled with, in the order of `keys`, together
    /// with the number of round trips. A key that was settled before is
    /// answered from what is remembered; every other key gets what a lookup
    /// of that key alone returns. Afterwards the loader remembers each of
    /// `keys`, and each key that waited before, with what it settled with,
    /// and everything that it remembered before.
    pub fn load_many(&mut self, conn: &Store, keys: &Vec<String>) -> (res: (
        Vec<DaoResult<Vec<V>>>,
        usize,
    ))
        requires
            old(self)@.wf(),
            conn@.wf(),
        ensures
            final(self)@.wf(),
            final(self)@.pending.len() == 0,
            res.1 == round_trips(old(self)@.asked_all(keys.deep_view()).pending.len()),
            res.0.len() == keys.len(),
            forall|i: int|
                0 <= i < keys.len() ==> outcome_view(#[trigger] res.0[i]) == if old(
                    self,
                )@.is_settled(keys[i]@) {
                    old(self)@.outcome(keys[i]@)
                } else {
                    Ok(V::table(conn@).filter(V::grouped_under(keys[i]@)))
                },
            forall|i: int|
                0 <= i < keys.len() ==> final(self)@.is_settled(keys[i]@) && final(self)@.outcome(
                    keys[i]@,
                ) == outcome_view(#[trigger] res.0[i]),
            forall|key: Seq<char>|
                #[trigger] final(self)@.is_settled(key) <==> old(self)@.is_settled(key) || old(
                    self,
                )@.pending.contains(key) || keys.deep_view().contains(key),
            forall|key: Seq<char>|
                old(self)@.is_settled(key) ==> #[trigger] final(self)@.outcome(key) == old(
                    self,
                )@.outcome(key),
            forall|key: Seq<char>|
                final(self)@.is_settled(key) && !old(self)@.is_settled(key)
                    ==> #[trigger] final(self)@.outcome(key) == Ok::<Seq<V::V>, DaoErrorView>(
                    V::table(conn@).filter(V::grouped_under(key)),
                ),
    {
        let ghost before = self@;
        let ghost all = keys.deep_view();
        proof {
            before.lemma_asked_all(all);
        }
        let mut i: usize = 0;
        while i < keys.len()
            invariant
                i <= keys.len(),
                all == keys.deep_view(),
                before.wf(),
                self@.wf(),
                self@ == before.asked_all(all.take(i as int)),
                self@.resolved == before.resolved,
                forall|j: int|
                    0 <= j < i ==> before.is_settled(#[trigger] all[j]) || self@.pending.contains(
                        all[j],
                    ),
            decreases keys.len() - i,
        {
            let ghost cur = self@;
            assert(all.take(i as int + 1).drop_last() =~= all.take(i as int));
            assert(all[i as int] == keys[i as int]@);
            proof {
                cur.lemma_asked(all[i as int]);
            }
            let _ = self.load(keys[i].clone());
            proof {
                assert forall|key: Seq<char>| cur.is_settled(key) <==> before.is_settled(key) by {
                    if cur.is_settled(key) {
                        let x = choose|x: int| cur.settled_at(key, x);
                        assert(before.settled_at(key, x));
                    }
                    if before.is_settled(key) {
                        let x = choose|x: int| before.settled_at(key, x);
                        assert(cur.settled_at(key, x));
                    }
                }
                assert forall|j: int| 0 <= j <= i implies before.is_settled(#[trigger] all[j])
                    || self@.pending.contains(all[j]) by {
                    if j < i {
                        if cur.pending.contains(all[j]) {
                            let w = choose|w: int|
                                0 <= w < cur.pending.len() && cur.pending[w] == all[j];
                            assert(self@.pending[w] == all[j]);
                        }
                    } else {
                        if !cur.is_settled(all[j]) && !cur.pending.contains(all[j]) {
                            assert(self@.pending[cur.pending.len() as int] == all[j]);
                        }
                        if cur.pending.contains(all[j]) {
                            let w = choose|w: int|
                                0 <= w < cur.pending.len() && cur.pending[w] == all[j];
                            assert(self@.pending[w] == all[j]);
                        }
                    }
                }
            }
            i += 1;
        }
        assert(all.take(i as int) =~= all);
        let ghost queued = self@;
        let trips = self.dispatch_all(conn);
        proof {
            assert forall|key: Seq<char>| queued.is_settled(key) <==> before.is_settled(key) by {
                if queued.is_settled(key) {
                    let x = choose|x: int| queued.settled_at(key, x);
                    assert(before.settled_at(key, x));
                }
                if before.is_settled(key) {
                    let x = choose|x: int| before.settled_at(key, x);
                    assert(queued.settled_at(key, x));
                }
            }
            assert forall|key: Seq<char>| before.is_settled(key) implies queued.outcome(key)
                == before.outcome(key) by {
                let x = choose|x: int| before.settled_at(key, x);
                before.lemma_settled_at(key, x);
                assert(queued.settled_at(key, x));
                queued.lemma_settled_at(key, x);
            }
        }
        let mut out: Vec<DaoResult<Vec<V>>> = Vec::new();
        let mut k: usize = 0;
        while k < keys.len()
            invariant
                k <= keys.len(),
                out.len() == k,
                all == keys.deep_view(),
                self@.wf(),
                forall|j: int|
                    0 <= j < keys.len() ==> before.is_settled(#[trigger] all[j])
                        || queued.pending.contains(all[j]),
                forall|key: Seq<char>|
                    self@.is_settled(key) <==> queued.is_settled(key) || queued.pending.contains(
                        key,
                    ),
                forall|key: Seq<char>| queued.is_settled(key) <==> before.is_settled(key),
                forall|key: Seq<char>|
                    before.is_settled(key) ==> self@.outcome(key) == before.outcome(key),
                forall|key: Seq<char>|
                    queued.pending.contains(key) ==> self@.outcome(key) == Ok::<
                        Seq<V::V>,
                        DaoErrorView,
                    >(V::table(conn@).filter(V::grouped_under(key))),
                forall|j: int|
                    0 <= j < k ==> outcome_view(#[trigger] out[j]) == if before.is_settled(
                        keys[j]@,
                    ) {
                        before.outcome(keys[j]@)
                    } else {
                        Ok(V::table(conn@).filter(V::grouped_under(keys[j]@)))
                    },
            decreases keys.len() - k,
        {
            assert(all[k as int] == keys[k as int]@);
            assert(before.is_settled(all[k as int]) || queued.pending.contains(all[k as int]));
            if let Some(outcome) = self.peek(&keys[k]) {
                out.push(outcome);
            }
            k += 1;
        }
        proof {
            assert forall|i: int| 0 <= i < keys.len() implies self@.is_settled(keys[i]@)
                && self@.outcome(keys[i]@) == outcome_view(#[trigger] out[i]) by {
                assert(all[i] == keys[i]@);
                assert(all.contains(all[i]));
            }
            assert forall|key: Seq<char>|
                self@.is_settled(key) <==> before.is_settled(key) || before.pending.contains(key)
                    || all.contains(key) by {
                assert(queued.pending.contains(key) <==> before.pending.contains(key) || (
                all.contains(key) && !before.is_settled(key)));
                assert(self@.is_settled(key) <==> queued.is_settled(key)
                    || queued.pending.contains(key));
            }
            assert forall|key: Seq<char>|
                self@.is_settled(key) && !before.is_settled(key) implies self@.outcome(key) == Ok::<
                    Seq<V::V>,
                    DaoErrorView,
                >(V::table(conn@).filter(V::grouped_under(key))) by {
                assert(self@.is_settled(key) <==> queued.is_settled(key)
                    || queued.pending.contains(key));
            }
        }
        (out, trips)
    }
}

/// Photos are loaded by owner.
impl Loadable for Photo {
    open spec fn table(store: StoreView) -> Seq<PhotoView> {
        store.photos
    }

    open spec fn grouped_under(key: Seq<char>) -> spec_fn(PhotoView) -> bool {
        owned_by(key)
    }

    open spec fn grouped_under_any(keys: Seq<Seq<char>>) -> spec_fn(PhotoView) -> bool {
        owned_by_any(keys)
    }

    proof fn lemma_grouping(keys: Seq<Seq<char>>, key: Seq<char>, v: PhotoView) {
    }

    fn has_key(&self, key: &String) -> (b: bool) {
        self.user_id == *key
    }

    fn duplicate(&self) -> (copy: Self) {
        self.clone()
    }

    fn fetch(conn: &Store, keys: &Vec<String>) -> (res: DaoResult<Vec<Self>>) {
        Dao::<Photo>::new().get_all_by_users(conn, keys)
    }
}

/// Users are loaded by their own identifier.
impl Loadable for User {
    open spec fn table(store: StoreView) -> Seq<UserView> {
        store.users
    }

    open spec fn grouped_under(key: Seq<char>) -> spec_fn(UserView) -> bool {
        user_is(key)
    }

    open spec fn grouped_under_any(keys: Seq<Seq<char>>) -> spec_fn(UserView) -> bool {
        user_among(keys)
    }

    proof fn lemma_grouping(keys: Seq<Seq<char>>, key: Seq<char>, v: UserView) {
    }

    fn has_key(&self, key: &String) -> (b: bool) {
        self.id == *key
    }

    fn duplicate(&self) -> (copy: Self) {
        self.clone()
    }

    fn fetch(conn: &Store, keys: &Vec<String>) -> (res: DaoResult<Vec<Self>>) {
        Dao::<User>::new().get_all_by_ids(conn, keys)
    }
}

} // verus!

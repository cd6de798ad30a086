//! The expiring key-value store.
//!
//! Entries live in a list with unique keys. Beside it, an expiry index holds
//! `(timestamp, key)` pairs: one is added for every `set` with an expiry and
//! none is ever retracted, so the index may hold stale pairs. A sweep re-reads
//! the key's current expiry before it deletes anything.
use vstd::prelude::*;
use crate::utils::now_millis;

verus! {

/// What the store holds: for each key, its value and optional absolute expiry.
pub type StoreModel = Map<Seq<char>, (Seq<char>, Option<u64>)>;

/// One record of the store.
#[derive(Debug, Clone)]
pub struct StoreEntry {
    pub key: String,
    pub value: String,
    pub expires_at: Option<u64>,
}

/// Whether an entry with expiry `e` has expired at time `now`.
pub open spec fn expired(e: Option<u64>, now: u64) -> bool {
    e is Some && e->0 <= now
}

/// The store after a read of `key` at `now`: an expired entry is removed.
pub open spec fn after_get(m: StoreModel, key: Seq<char>, now: u64) -> StoreModel {
    if m.contains_key(key) && expired(m[key].1, now) {
        m.remove(key)
    } else {
        m
    }
}

/// What a read of `key` at `now` returns.
pub open spec fn get_result(m: StoreModel, key: Seq<char>, now: u64) -> Option<Seq<char>> {
    if m.contains_key(key) && !expired(m[key].1, now) {
        Some(m[key].0)
    } else {
        None
    }
}

/// The entries of `m` that have not expired at `now`.
pub open spec fn unexpired(m: StoreModel, now: u64) -> StoreModel {
    Map::new(|k: Seq<char>| m.contains_key(k) && !expired(m[k].1, now), |k: Seq<char>| m[k])
}

pub open spec fn index_has(index: Seq<(u64, Seq<char>)>, t: u64, k: Seq<char>) -> bool {
    exists|j: int| 0 <= j < index.len() && #[trigger] index[j] == (t, k)
}

pub open spec fn pair_views(v: Seq<(u64, String)>) -> Seq<(u64, Seq<char>)> {
    v.map_values(|e: (u64, String)| (e.0, e.1@))
}

/// The pairs of `index` that are not yet due at `now`, in order.
pub open spec fn pending(index: Seq<(u64, Seq<char>)>, now: u64) -> Seq<(u64, Seq<char>)>
    decreases index.len(),
{
    if index.len() == 0 {
        index
    } else if index.last().0 > now {
        pending(index.drop_last(), now).push(index.last())
    } else {
        pending(index.drop_last(), now)
    }
}

/// Whether a pair for `k` due by `now` stands among the first `i` of `index`.
pub open spec fn popped(index: Seq<(u64, Seq<char>)>, i: int, k: Seq<char>, now: u64) -> bool {
    exists|j: int| 0 <= j < i && (#[trigger] index[j]).1 == k && index[j].0 <= now
}

proof fn lemma_pending_has(index: Seq<(u64, Seq<char>)>, now: u64, j: int)
    requires
        0 <= j < index.len(),
        index[j].0 > now,
    ensures
        index_has(pending(index, now), index[j].0, index[j].1),
    decreases index.len(),
{
    let p = pending(index, now);
    if j == index.len() - 1 {
        assert(p[p.len() - 1] == index[j]);
    } else {
        lemma_pending_has(index.drop_last(), now, j);
        let q = pending(index.drop_last(), now);
        let w = choose|w: int| 0 <= w < q.len() && #[trigger] q[w] == (index[j].0, index[j].1);
        assert(p[w] == q[w]);
    }
}

pub open spec fn option_view(v: Option<String>) -> Option<Seq<char>> {
    match v {
        Some(s) => Some(s@),
        None => None,
    }
}

/// The key-value store with its expiry index.
pub struct RedisStore {
    entries: Vec<StoreEntry>,
    expirations: Vec<(u64, String)>,
    model: Ghost<StoreModel>,
}

impl View for RedisStore {
    type V = StoreModel;

    /// The key-value map that the store holds.
    closed spec fn view(&self) -> StoreModel {
        self.model@
    }
}

impl RedisStore {
    /// The expiry index, in the order of its entries.
    pub closed spec fn index(&self) -> Seq<(u64, Seq<char>)> {
        pair_views(self.expirations@)
    }

    /// The list of entries agrees with the map, keys are unique, and every
    /// recorded expiry has its pair in the index.
    pub closed spec fn wf(&self) -> bool {
        &&& self.entries_agree()
        &&& forall|k: Seq<char>|
            #[trigger] self.model@.contains_key(k) && self.model@[k].1 is Some ==> index_has(
                self.index(),
                self.model@[k].1->0,
                k,
            )
    }

    closed spec fn entries_agree(&self) -> bool {
        &&& forall|i: int|
            0 <= i < self.entries@.len() ==> {
                let e = #[trigger] self.entries@[i];
                &&& self.model@.contains_key(e.key@)
                &&& self.model@[e.key@] == (e.value@, e.expires_at)
            }
        &&& forall|i: int, j: int|
            0 <= i < self.entries@.len() && 0 <= j < self.entries@.len() && i != j
                ==> #[trigger] self.entries@[i].key@ != #[trigger] self.entries@[j].key@
        &&& forall|k: Seq<char>|
            #[trigger] self.model@.contains_key(k) ==> exists|i: int|
                0 <= i < self.entries@.len() && #[trigger] self.entries@[i].key@ == k
    }

    /// An empty store.
    pub fn new() -> (r: Self)
        ensures
            r.wf(),
            r@ == Map::<Seq<char>, (Seq<char>, Option<u64>)>::empty(),
            r.index().len() == 0,
    {
        RedisStore { entries: Vec::new(), expirations: Vec::new(), model: Ghost(Map::empty()) }
    }

    fn find(&self, key: &String) -> (r: Option<usize>)
        requires
            self.entries_agree(),
        ensures
            match r {
                Some(i) => i < self.entries@.len() && self.entries@[i as int].key@ == key@,
                None => !self@.contains_key(key@),
            },
    {
        let mut i: usize = 0;
        while i < self.entries.len()
            invariant
                self.entries_agree(),
                i <= self.entries@.len(),
                forall|j: int| 0 <= j < i ==> self.entries@[j].key@ != key@,
            decreases self.entries@.len() - i,
        {
            if self.entries[i].key == *key {
                return Some(i);
            }
            i = i + 1;
        }
        None
    }

    /// Reads `key` at time `now`; an entry whose expiry has come is deleted
    /// and reads as absent.
    pub fn get_at(&mut self, key: &str, now: u64) -> (r: Option<String>)
        requires
            old(self).wf(),
        ensures
            final(self).wf(),
            option_view(r) == get_result(old(self)@, key@, now),
            final(self)@ == after_get(old(self)@, key@, now),
            final(self).index() == old(self).index(),
    {
        let k = key.to_owned();
        match self.find(&k) {
            None => None,
            Some(i) => {
                let expiry = self.entries[i].expires_at;
                if let Some(t) = expiry {
                    if now >= t {
                        self.remove_at(i);
                        return None;
                    }
                }
                Some(self.entries[i].value.clone())
            },
        }
    }

    /// Reads `key` against the clock; see `get_at`.
    pub fn get(&mut self, key: &str) -> (r: Option<String>)
        requires
            old(self).wf(),
        ensures
            final(self).wf(),
            exists|now: u64|
                option_view(r) == get_result(old(self)@, key@, now) && final(self)@ == after_get(
                    old(self)@,
                    key@,
                    now,
                ),
            final(self).index() == old(self).index(),
    {
        let now = now_millis();
        self.get_at(key, now)
    }

    /// Deletes the entry at position `i`.
    fn remove_at(&mut self, i: usize)
        requires
            old(self).entries_agree(),
            i < old(self).entries@.len(),
        ensures
            final(self).entries_agree(),
            old(self).wf() ==> final(self).wf(),
            final(self).expirations == old(self).expirations,
            final(self)@ == old(self)@.remove(old(self).entries@[i as int].key@),
            final(self).index() == old(self).index(),
    {
        let ghost k = self.entries@[i as int].key@;
        let ghost old_entries = self.entries@;
        self.entries.remove(i);
        self.model = Ghost(self.model@.remove(k));
        assert forall|kk: Seq<char>| #[trigger] self.model@.contains_key(kk) implies exists|j: int|
            0 <= j < self.entries@.len() && #[trigger] self.entries@[j].key@ == kk by {
            let j0 = choose|j: int| 0 <= j < old_entries.len() && #[trigger] old_entries[j].key@ == kk;
            if j0 < i {
                assert(self.entries@[j0].key@ == kk);
            } else {
                assert(j0 != i);
                assert(self.entries@[j0 - 1].key@ == kk);
            }
        }
        assert forall|a: int, b: int|
            0 <= a < self.entries@.len() && 0 <= b < self.entries@.len() && a != b
                implies #[trigger] self.entries@[a].key@ != #[trigger] self.entries@[b].key@ by {
            let oa = if a < i { a } else { a + 1 };
            let ob = if b < i { b } else { b + 1 };
            assert(self.entries@[a] == old_entries[oa]);
            assert(self.entries@[b] == old_entries[ob]);
        }
        assert forall|a: int| 0 <= a < self.entries@.len() implies {
            let e = #[trigger] self.entries@[a];
            &&& self.model@.contains_key(e.key@)
            &&& self.model@[e.key@] == (e.value@, e.expires_at)
        } by {
            let oa = if a < i { a } else { a + 1 };
            assert(self.entries@[a] == old_entries[oa]);
            assert(oa != i);
        }
    }

    /// Stores `value` under `key`, replacing any earlier entry; an expiry adds
    /// its pair to the index, and earlier pairs stay.
    pub fn set(&mut self, key: &str, value: &str, expiry: Option<u64>)
        requires
            old(self).wf(),
        ensures
            final(self).wf(),
            final(self)@ == old(self)@.insert(key@, (value@, expiry)),
            final(self).index() == match expiry {
                Some(t) => old(self).index().push((t, key@)),
                None => old(self).index(),
            },
    {
        let k = key.to_owned();
        let found = self.find(&k);
        let ghost old_index = self.index();
        if let Some(t) = expiry {
            self.expirations.push((t, key.to_owned()));
            assert(self.index() =~= old_index.push((t, key@)));
        }
        let entry = StoreEntry { key: key.to_owned(), value: value.to_owned(), expires_at: expiry };
        let ghost old_entries = self.entries@;
        let ghost old_model = self.model@;
        let pos: usize = match found {
            Some(i) => {
                self.entries.set(i, entry);
                i
            },
            None => {
                self.entries.push(entry);
                self.entries.len() - 1
            },
        };
        assert(self.entries@[pos as int].key@ == key@);
        self.model = Ghost(self.model@.insert(key@, (value@, expiry)));
        proof {
            assert forall|kk: Seq<char>|
                #[trigger] self.model@.contains_key(kk) && self.model@[kk].1 is Some implies index_has(
                self.index(),
                self.model@[kk].1->0,
                kk,
            ) by {
                if kk == key@ {
                    let n = self.index().len() - 1;
                    assert(self.index()[n] == (expiry->0, key@));
                } else {
                    assert(old_model.contains_key(kk));
                    let j = choose|j: int|
                        0 <= j < old_index.len() && #[trigger] old_index[j] == (
                            old_model[kk].1->0,
                            kk,
                        );
                    assert(self.index()[j] == old_index[j]);
                }
            }
            assert forall|kk: Seq<char>| #[trigger] self.model@.contains_key(kk) implies exists|j: int|
                0 <= j < self.entries@.len() && #[trigger] self.entries@[j].key@ == kk by {
                if kk == key@ {
                    assert(self.entries@[pos as int].key@ == kk);
                } else {
                    let j0 = choose|j: int|
                        0 <= j < old_entries.len() && #[trigger] old_entries[j].key@ == kk;
                    assert(self.entries@[j0].key@ == kk);
                }
            }
        }
    }

    /// Deletes `key`, whatever its expiry; the index is left as it is.
    pub fn remove(&mut self, key: &str)
        requires
            old(self).wf(),
        ensures
            final(self).wf(),
            final(self)@ == old(self)@.remove(key@),
            final(self).index() == old(self).index(),
    {
        let k = key.to_owned();
        match self.find(&k) {
            Some(i) => self.remove_at(i),
            None => {
                assert(self.model@.remove(key@) =~= self.model@);
            },
        }
    }

    /// Takes every pair due by `now` out of the index and deletes its key
    /// where the key's current expiry has come too. Afterwards the store holds
    /// exactly the entries that have not expired at `now`.
    pub fn clean_expired_keys_at(&mut self, now: u64)
        requires
            old(self).wf(),
        ensures
            final(self).wf(),
            final(self)@ == unexpired(old(self)@, now),
            final(self).index() == pending(old(self).index(), now),
    {
        let ghost m0 = self.model@;
        let ghost i0 = self.index();
        let mut due: Vec<(u64, String)> = Vec::new();
        std::mem::swap(&mut due, &mut self.expirations);
        let mut kept: Vec<(u64, String)> = Vec::new();
        let mut i: usize = 0;
        assert(i0 =~= pair_views(due@));
        assert(pair_views(kept@) =~= pending(i0.take(0), now));
        while i < due.len()
            invariant
                i <= due@.len(),
                i0 == pair_views(due@),
                pair_views(kept@) == pending(i0.take(i as int), now),
                self.entries_agree(),
                forall|k: Seq<char>|
                    #[trigger] self.model@.contains_key(k) <==> m0.contains_key(k) && !(expired(
                        m0[k].1,
                        now,
                    ) && popped(i0, i as int, k, now)),
                forall|k: Seq<char>| #[trigger] self.model@.contains_key(k) ==> self.model@[k] == m0[k],
            decreases due@.len() - i,
        {
            let t = due[i].0;
            let ghost k = due@[i as int].1@;
            assert(i0[i as int] == (t, k));
            let ghost before = kept@;
            if t <= now {
                match self.find(&due[i].1) {
                    Some(j) => {
                        if let Some(e) = self.entries[j].expires_at {
                            if e <= now {
                                self.remove_at(j);
                            }
                        }
                    },
                    None => {},
                }
            } else {
                kept.push((t, due[i].1.clone()));
            }
            proof {
                assert(i0.take(i + 1).drop_last() =~= i0.take(i as int));
                if t > now {
                    assert(pair_views(kept@) =~= pair_views(before).push((t, k)));
                } else {
                    assert(kept@ == before);
                }
                assert forall|kk: Seq<char>| popped(i0, i + 1, kk, now) <==> popped(
                    i0,
                    i as int,
                    kk,
                    now,
                ) || (kk == k && t <= now) by {
                    if popped(i0, i + 1, kk, now) && !popped(i0, i as int, kk, now) {
                        let j = choose|j: int|
                            0 <= j < i + 1 && (#[trigger] i0[j]).1 == kk && i0[j].0 <= now;
                        assert(j == i);
                    }
                    if kk == k && t <= now {
                        assert(i0[i as int].1 == kk);
                    }
                }
            }
            i = i + 1;
        }
        self.expirations = kept;
        proof {
            assert(i0.take(i as int) =~= i0);
            assert forall|k: Seq<char>|
                #[trigger] m0.contains_key(k) && expired(m0[k].1, now) implies popped(
                i0,
                i as int,
                k,
                now,
            ) by {
                let j = choose|j: int| 0 <= j < i0.len() && #[trigger] i0[j] == (m0[k].1->0, k);
                assert(i0[j].1 == k);
            }
            assert(self.model@ =~= unexpired(m0, now));
            assert forall|k: Seq<char>|
                #[trigger] self.model@.contains_key(k) && self.model@[k].1 is Some implies index_has(
                self.index(),
                self.model@[k].1->0,
                k,
            ) by {
                let j = choose|j: int| 0 <= j < i0.len() && #[trigger] i0[j] == (m0[k].1->0, k);
                lemma_pending_has(i0, now, j);
            }
        }
    }

    /// Sweeps against the clock; see `clean_expired_keys_at`.
    pub fn clean_expired_keys(&mut self)
        requires
            old(self).wf(),
        ensures
            final(self).wf(),
            exists|now: u64|
                final(self)@ == unexpired(old(self)@, now) && #[trigger] pending(
                    old(self).index(),
                    now,
                ) == final(self).index(),
    {
        let now = now_millis();
        self.clean_expired_keys_at(now);
    }

    /// The earliest timestamp in the index, without taking it out.
    pub fn next_expiration(&self) -> (r: Option<u64>)
        ensures
            r is None <==> self.index().len() == 0,
            r matches Some(t) ==> (exists|j: int|
                0 <= j < self.index().len() && #[trigger] self.index()[j].0 == t) && forall|j: int|
                0 <= j < self.index().len() ==> t <= #[trigger] self.index()[j].0,
    {
        if self.expirations.len() == 0 {
            return None;
        }
        let mut best: u64 = self.expirations[0].0;
        let mut i: usize = 1;
        assert(self.index()[0].0 == best);
        while i < self.expirations.len()
            invariant
                1 <= i <= self.index().len(),
                self.index().len() == self.expirations@.len(),
                exists|j: int| 0 <= j < i && #[trigger] self.index()[j].0 == best,
                forall|j: int| 0 <= j < i ==> best <= #[trigger] self.index()[j].0,
            decreases self.expirations@.len() - i,
        {
            assert(self.index()[i as int].0 == self.expirations@[i as int].0);
            if self.expirations[i].0 < best {
                best = self.expirations[i].0;
            }
            i = i + 1;
        }
        Some(best)
    }
}

/// A key set without expiry reads back as the value it was set to, at any time.
pub proof fn lemma_set_then_get(m: StoreModel, k: Seq<char>, v: Seq<char>, now: u64)
    ensures
        get_result(m.insert(k, (v, None)), k, now) == Some(v),
        after_get(m.insert(k, (v, None)), k, now) == m.insert(k, (v, None)),
{
}

/// A key whose entry has no expiry keeps it through everything that does not
/// name it: reads at any time (of it or of other keys), sweeps at any time,
/// and sets and removals of other keys. Stale index pairs left by earlier
/// sets of the key play no part.
pub proof fn lemma_unexpiring_entry_survives(
    m: StoreModel,
    k: Seq<char>,
    other: Seq<char>,
    e: (Seq<char>, Option<u64>),
    now: u64,
)
    requires
        m.contains_key(k),
        m[k].1 is None,
        other != k,
    ensures
        get_result(m, k, now) == Some(m[k].0),
        after_get(m, k, now) == m,
        after_get(m, other, now).contains_key(k) && after_get(m, other, now)[k] == m[k],
        unexpired(m, now).contains_key(k) && unexpired(m, now)[k] == m[k],
        m.insert(other, e).contains_key(k) && m.insert(other, e)[k] == m[k],
        m.remove(other).contains_key(k) && m.remove(other)[k] == m[k],
{
}

/// A key set at time `set_at` to expire `delta` milliseconds later reads
/// back as its value before that time and as absent from then on.
pub proof fn lemma_set_with_expiry_then_get(
    m: StoreModel,
    k: Seq<char>,
    v: Seq<char>,
    set_at: u64,
    delta: u64,
    now: u64,
)
    requires
        set_at + delta <= u64::MAX,
    ensures
        now < set_at + delta ==> get_result(
            m.insert(k, (v, Some((set_at + delta) as u64))),
            k,
            now,
        ) == Some(v),
        now >= set_at + delta ==> get_result(
            m.insert(k, (v, Some((set_at + delta) as u64))),
            k,
            now,
        ) is None,
        now >= set_at + delta ==> !after_get(
            m.insert(k, (v, Some((set_at + delta) as u64))),
            k,
            now,
        ).contains_key(k),
{
}

/// However often a key is set, a sweep keeps it, with its latest value, as
/// long as its latest expiry has not come, whatever pairs earlier sets left in
/// the index.
pub proof fn lemma_sweep_keeps_refreshed_key(
    m: StoreModel,
    k: Seq<char>,
    v1: Seq<char>,
    e1: Option<u64>,
    v2: Seq<char>,
    e2: Option<u64>,
    now: u64,
)
    requires
        !expired(e2, now),
    ensures
        unexpired(m.insert(k, (v1, e1)).insert(k, (v2, e2)), now).contains_key(k),
        unexpired(m.insert(k, (v1, e1)).insert(k, (v2, e2)), now)[k] == (v2, e2),
{
}

} // verus!

//! Cache of open repository handles, keyed by canonical path.
//!
//! The cache is bounded two ways: entries idle longer than the TTL are
//! evicted, and when the cache is at capacity the least recently used
//! entry is evicted before an insertion. Both happen at the start of
//! every access, so the cache never exceeds its capacity.
//!
//! The bookkeeping is specified over a model: the sequence of
//! (key, last-used) pairs of the slots, in insertion order.

use vstd::prelude::*;

use crate::gitext::{repo_discover, repo_open};
use crate::host::canonicalize_path;
use crate::strutil::str_eq;

verus! {

/// How long an entry may stay unused, in milliseconds.
pub const REPO_CACHE_TTL_MS: u64 = 30000;

/// The most entries the cache may hold.
pub const REPO_CACHE_MAX_SIZE: usize = 16;

/// An entry is fresh at `now` when it was used within the TTL.
pub open spec fn fresh_at(entry: (Seq<char>, u64), now: u64) -> bool {
    now - entry.1 < REPO_CACHE_TTL_MS
}

/// Some entry carries this key.
pub open spec fn key_in(m: Seq<(Seq<char>, u64)>, key: Seq<char>) -> bool {
    exists|i: int| 0 <= i < m.len() && (#[trigger] m[i]).0 == key
}

/// No two entries carry the same key.
pub open spec fn keys_distinct(m: Seq<(Seq<char>, u64)>) -> bool {
    forall|i: int, j: int| 0 <= i < j < m.len() ==> (#[trigger] m[i]).0 != (#[trigger] m[j]).0
}

/// The entries that are fresh at `now`, in order.
pub open spec fn stale_filtered(m: Seq<(Seq<char>, u64)>, now: u64) -> Seq<(Seq<char>, u64)>
    decreases m.len(),
{
    if m.len() == 0 {
        Seq::empty()
    } else if fresh_at(m.first(), now) {
        seq![m.first()] + stale_filtered(m.drop_first(), now)
    } else {
        stale_filtered(m.drop_first(), now)
    }
}

/// The index of the first entry with the smallest last-used stamp.
pub open spec fn first_min_idx(m: Seq<(Seq<char>, u64)>) -> int
    decreases m.len(),
{
    if m.len() <= 1 {
        0
    } else {
        let r = first_min_idx(m.drop_last());
        if m.last().1 < m[r].1 {
            m.len() - 1
        } else {
            r
        }
    }
}

/// The model after evicting the oldest entry; empty stays empty.
pub open spec fn remove_first_min(m: Seq<(Seq<char>, u64)>) -> Seq<(Seq<char>, u64)> {
    if m.len() == 0 {
        m
    } else {
        m.remove(first_min_idx(m))
    }
}

/// The model after evicting oldest entries until below capacity.
pub open spec fn evict_full(m: Seq<(Seq<char>, u64)>) -> Seq<(Seq<char>, u64)>
    decreases m.len(),
    via evict_full_decreases
{
    if m.len() < REPO_CACHE_MAX_SIZE {
        m
    } else {
        evict_full(remove_first_min(m))
    }
}

#[via_fn]
proof fn evict_full_decreases(m: Seq<(Seq<char>, u64)>) {
    if m.len() >= REPO_CACHE_MAX_SIZE {
        lemma_first_min_props(m);
    }
}

/// The model after stamping the entry keyed `key` with `now`.
pub open spec fn touch_model(m: Seq<(Seq<char>, u64)>, key: Seq<char>, now: u64) -> Seq<
    (Seq<char>, u64),
> {
    m.map_values(|e: (Seq<char>, u64)| if e.0 == key { (e.0, now) } else { e })
}

/// The model after an access to `key` at `now`, once eviction has run:
/// a cached key is stamped, a fresh key is appended.
pub open spec fn access_model(m: Seq<(Seq<char>, u64)>, key: Seq<char>, now: u64) -> Seq<
    (Seq<char>, u64),
> {
    if key_in(m, key) {
        touch_model(m, key, now)
    } else {
        m.push((key, now))
    }
}

/// The model a whole `get_or_open` at `now` leaves behind when it
/// reaches the open: evict stale, evict while full, then access.
pub open spec fn cache_after_access(
    m: Seq<(Seq<char>, u64)>,
    key: Seq<char>,
    now: u64,
) -> Seq<(Seq<char>, u64)> {
    access_model(evict_full(stale_filtered(m, now)), key, now)
}

proof fn lemma_first_min_props(m: Seq<(Seq<char>, u64)>)
    requires
        m.len() > 0,
    ensures
        0 <= first_min_idx(m) < m.len(),
        forall|i: int| 0 <= i < m.len() ==> m[first_min_idx(m)].1 <= (#[trigger] m[i]).1,
        forall|i: int| 0 <= i < first_min_idx(m) ==> (#[trigger] m[i]).1 > m[first_min_idx(m)].1,
    decreases m.len(),
{
    if m.len() > 1 {
        let d = m.drop_last();
        lemma_first_min_props(d);
        let r = first_min_idx(d);
        assert(forall|i: int| 0 <= i < d.len() ==> (#[trigger] d[i]) == m[i]);
        if m.last().1 < m[r].1 {
            assert(first_min_idx(m) == m.len() - 1);
            assert forall|i: int| 0 <= i < m.len() implies m[first_min_idx(m)].1 <= (
            #[trigger] m[i]).1 by {
                if i < m.len() - 1 {
                    assert(d[r].1 <= d[i].1);
                }
            }
            assert forall|i: int| 0 <= i < first_min_idx(m) implies (#[trigger] m[i]).1
                > m[first_min_idx(m)].1 by {
                assert(d[r].1 <= d[i].1);
            }
        } else {
            assert(first_min_idx(m) == r);
            assert forall|i: int| 0 <= i < m.len() implies m[first_min_idx(m)].1 <= (
            #[trigger] m[i]).1 by {
                if i < m.len() - 1 {
                    assert(d[r].1 <= d[i].1);
                }
            }
            assert forall|i: int| 0 <= i < first_min_idx(m) implies (#[trigger] m[i]).1
                > m[first_min_idx(m)].1 by {
                assert(d[i].1 > d[r].1);
            }
        }
    }
}

proof fn lemma_stale_filtered_sub(m: Seq<(Seq<char>, u64)>, now: u64, key: Seq<char>)
    ensures
        key_in(stale_filtered(m, now), key) ==> key_in(m, key),
    decreases m.len(),
{
    if m.len() > 0 {
        lemma_stale_filtered_sub(m.drop_first(), now, key);
        if key_in(stale_filtered(m, now), key) && !fresh_at(m.first(), now) {
            assert(key_in(m.drop_first(), key) ==> key_in(m, key)) by {
                if key_in(m.drop_first(), key) {
                    let i = choose|i: int|
                        0 <= i < m.drop_first().len() && (#[trigger] m.drop_first()[i]).0 == key;
                    assert(m[i + 1].0 == key);
                }
            }
        } else if key_in(stale_filtered(m, now), key) {
            let f = stale_filtered(m, now);
            let i = choose|i: int| 0 <= i < f.len() && (#[trigger] f[i]).0 == key;
            if i == 0 {
                assert(m[0].0 == key);
            } else {
                assert(stale_filtered(m.drop_first(), now)[i - 1].0 == key);
                assert(key_in(stale_filtered(m.drop_first(), now), key));
                let j = choose|j: int|
                    0 <= j < m.drop_first().len() && (#[trigger] m.drop_first()[j]).0 == key;
                assert(m[j + 1].0 == key);
            }
        }
    }
}

proof fn lemma_stale_filtered_distinct(m: Seq<(Seq<char>, u64)>, now: u64)
    requires
        keys_distinct(m),
    ensures
        keys_distinct(stale_filtered(m, now)),
    decreases m.len(),
{
    if m.len() > 0 {
        let rest = m.drop_first();
        assert(keys_distinct(rest)) by {
            assert(forall|i: int, j: int|
                0 <= i < j < rest.len() ==> (#[trigger] rest[i]).0 == m[i + 1].0 && (
                #[trigger] rest[j]).0 == m[j + 1].0);
        }
        lemma_stale_filtered_distinct(rest, now);
        if fresh_at(m.first(), now) {
            let f = stale_filtered(m, now);
            let fr = stale_filtered(rest, now);
            assert(!key_in(fr, m.first().0)) by {
                lemma_stale_filtered_sub(rest, now, m.first().0);
                if key_in(rest, m.first().0) {
                    let i = choose|i: int|
                        0 <= i < rest.len() && (#[trigger] rest[i]).0 == m.first().0;
                    assert(m[i + 1].0 == m[0].0);
                    assert(false);
                }
            }
            assert(keys_distinct(f)) by {
                assert(forall|i: int, j: int|
                    0 <= i < j < f.len() ==> (#[trigger] f[i], #[trigger] f[j]) == (
                    if i == 0 {
                        m.first()
                    } else {
                        fr[i - 1]
                    },
                    fr[j - 1],
                    ));
            }
        }
    }
}

proof fn lemma_remove_distinct(m: Seq<(Seq<char>, u64)>, at: int)
    requires
        keys_distinct(m),
        0 <= at < m.len(),
    ensures
        keys_distinct(m.remove(at)),
        forall|k: Seq<char>| key_in(m.remove(at), k) ==> key_in(m, k),
{
    let r = m.remove(at);
    assert(forall|i: int|
        0 <= i < r.len() ==> (#[trigger] r[i]) == (if i < at {
            m[i]
        } else {
            m[i + 1]
        }));
    assert forall|k: Seq<char>| key_in(r, k) implies key_in(m, k) by {
        let i = choose|i: int| 0 <= i < r.len() && (#[trigger] r[i]).0 == k;
        if i < at {
            assert(m[i].0 == k);
        } else {
            assert(m[i + 1].0 == k);
        }
    }
}

proof fn lemma_evict_full_distinct(m: Seq<(Seq<char>, u64)>)
    requires
        keys_distinct(m),
    ensures
        keys_distinct(evict_full(m)),
        forall|k: Seq<char>| key_in(evict_full(m), k) ==> key_in(m, k),
        evict_full(m).len() <= m.len(),
        m.len() >= REPO_CACHE_MAX_SIZE ==> evict_full(m).len() < REPO_CACHE_MAX_SIZE,
    decreases m.len(),
{
    if m.len() >= REPO_CACHE_MAX_SIZE {
        lemma_first_min_props(m);
        lemma_remove_distinct(m, first_min_idx(m));
        lemma_evict_full_distinct(remove_first_min(m));
    }
}

/// One slot: the canonical path it is keyed by, when it was last used,
/// and the open handle.
struct CacheSlot {
    key: String,
    last_used: u64,
    repo: git2::Repository,
}

/// The repository-handle cache.
pub struct RepoCache {
    slots: Vec<CacheSlot>,
}

impl RepoCache {
    /// The (key, last-used) pairs of the slots, in order.
    pub closed spec fn model(self) -> Seq<(Seq<char>, u64)> {
        self.slots@.map_values(|s: CacheSlot| (s.key@, s.last_used))
    }

    /// Well-formed: no key twice, and never more entries than the
    /// capacity.
    pub open spec fn wf(self) -> bool {
        keys_distinct(self.model()) && self.model().len() <= REPO_CACHE_MAX_SIZE as int
    }

    /// An empty cache.
    pub fn new() -> (r: RepoCache)
        ensures
            r.model() =~= Seq::<(Seq<char>, u64)>::empty(),
            r.wf(),
    {
        let r = RepoCache { slots: Vec::new() };
        assert(r.model() =~= Seq::<(Seq<char>, u64)>::empty());
        r
    }

    /// How many entries the cache holds.
    pub fn len(&self) -> (r: usize)
        ensures
            r == self.model().len(),
    {
        self.slots.len()
    }

    /// Whether an entry carries this key.
    pub fn contains_key(&self, key: &str) -> (r: bool)
        ensures
            r == key_in(self.model(), key@),
    {
        match self.find_slot(key) {
            Some(_) => true,
            None => false,
        }
    }

    /// The handle in the slot at `at`.
    pub fn repo_at(&self, at: usize) -> (r: &git2::Repository)
        requires
            at < self.model().len(),
    {
        &self.slots[at].repo
    }

    fn find_slot(&self, key: &str) -> (r: Option<usize>)
        ensures
            match r {
                Some(at) => 0 <= at < self.model().len() && self.model()[at as int].0 == key@,
                None => !key_in(self.model(), key@),
            },
    {
        let mut i: usize = 0;
        while i < self.slots.len()
            invariant
                0 <= i <= self.model().len(),
                self.model().len() == self.slots@.len(),
                forall|j: int| 0 <= j < i ==> (#[trigger] self.model()[j]).0 != key@,
            decreases self.slots@.len() - i,
        {
            if str_eq(self.slots[i].key.as_str(), key) {
                return Some(i);
            }
            i += 1;
        }
        None
    }

    /// Drops every entry idle longer than the TTL at `now`.
    fn evict_stale(&mut self, now: u64)
        ensures
            final(self).model() =~= stale_filtered(old(self).model(), now),
    {
        let ghost m0 = self.model();
        proof {
            assert(m0.skip(0) =~= m0);
            assert(m0.take(0) =~= Seq::<(Seq<char>, u64)>::empty());
        }
        let mut i: usize = 0;
        while i < self.slots.len()
            invariant
                0 <= i <= self.slots@.len(),
                stale_filtered(m0, now) =~= self.model().take(i as int) + stale_filtered(
                    self.model().skip(i as int),
                    now,
                ),
            decreases self.slots@.len() - i,
        {
            let ghost mpre = self.model();
            let stale = now.saturating_sub(self.slots[i].last_used) >= REPO_CACHE_TTL_MS;
            proof {
                assert(mpre.skip(i as int).len() > 0);
                assert(mpre.skip(i as int).first() == mpre[i as int]);
                assert(mpre.skip(i as int).drop_first() =~= mpre.skip(i + 1));
            }
            if stale {
                assert(!fresh_at(mpre[i as int], now));
                self.slots.remove(i);
                proof {
                    assert(self.model() =~= mpre.remove(i as int));
                    assert(self.model().take(i as int) =~= mpre.take(i as int));
                    assert(self.model().skip(i as int) =~= mpre.skip(i + 1));
                }
            } else {
                assert(fresh_at(mpre[i as int], now));
                proof {
                    assert(mpre.take(i + 1) =~= mpre.take(i as int) + seq![mpre[i as int]]);
                    assert(mpre.take(i as int) + (seq![mpre[i as int]] + stale_filtered(
                        mpre.skip(i + 1),
                        now,
                    )) =~= mpre.take(i + 1) + stale_filtered(mpre.skip(i + 1), now));
                }
                i += 1;
            }
        }
        proof {
            assert(self.model().take(self.model().len() as int) =~= self.model());
            assert(self.model().skip(self.model().len() as int) =~= Seq::<
                (Seq<char>, u64),
            >::empty());
        }
    }

    /// Drops the least recently used entry, if any.
    fn evict_oldest(&mut self)
        ensures
            final(self).model() =~= remove_first_min(old(self).model()),
    {
        let ghost m0 = self.model();
        if self.slots.len() == 0 {
            return;
        }
        let mut best: usize = 0;
        let mut i: usize = 1;
        while i < self.slots.len()
            invariant
                self.model() == m0,
                self.model().len() == self.slots@.len(),
                1 <= i <= m0.len(),
                0 <= best < i,
                best == first_min_idx(m0.take(i as int)),
            decreases self.slots@.len() - i,
        {
            proof {
                assert(m0.take(i + 1).drop_last() =~= m0.take(i as int));
                assert(m0.take(i + 1).last() == m0[i as int]);
                assert(m0.take(i as int)[first_min_idx(m0.take(i as int))] == m0[best as int]);
            }
            if self.slots[i].last_used < self.slots[best].last_used {
                best = i;
            }
            i += 1;
        }
        proof {
            assert(m0.take(m0.len() as int) =~= m0);
        }
        self.slots.remove(best);
        proof {
            assert(self.model() =~= m0.remove(best as int));
        }
    }

    /// Canonicalizes `path`, evicts stale and over-capacity entries,
    /// opens the repository if it is not cached, and returns the index
    /// of its slot, stamped with `now`. On error the evictions remain.
    pub fn get_or_open(&mut self, path: &str, now: u64) -> (r: Result<usize, String>)
        requires
            old(self).wf(),
        ensures
            final(self).wf(),
            final(self).model().len() <= REPO_CACHE_MAX_SIZE as int,
            r matches Ok(at) ==> {
                &&& 0 <= at < final(self).model().len()
                &&& final(self).model()[at as int].1 == now
                &&& final(self).model() =~= cache_after_access(
                    old(self).model(),
                    final(self).model()[at as int].0,
                    now,
                )
            },
            r is Err ==> final(self).model() =~= evict_full(
                stale_filtered(old(self).model(), now),
            ),
    {
        let ghost m0 = self.model();
        self.evict_stale(now);
        proof {
            lemma_stale_filtered_distinct(m0, now);
        }
        let ghost mstale = self.model();
        while self.slots.len() >= REPO_CACHE_MAX_SIZE
            invariant
                self.model().len() == self.slots@.len(),
                keys_distinct(self.model()),
                evict_full(self.model()) =~= evict_full(mstale),
            decreases self.slots@.len(),
        {
            let ghost mpre = self.model();
            proof {
                lemma_first_min_props(mpre);
                lemma_remove_distinct(mpre, first_min_idx(mpre));
            }
            self.evict_oldest();
        }
        let ghost mev = self.model();
        proof {
            assert(mev =~= evict_full(mstale));
            assert(mev.len() < REPO_CACHE_MAX_SIZE);
        }
        let canonical = match canonicalize_path(path) {
            Ok(value) => value,
            Err(err) => {
                return Err(err);
            },
        };
        match self.find_slot(canonical.as_str()) {
            Some(at) => {
                let mut slot = self.slots.remove(at);
                slot.last_used = now;
                self.slots.insert(at, slot);
                proof {
                    assert(self.model() =~= touch_model(mev, canonical@, now)) by {
                        assert(forall|j: int|
                            0 <= j < mev.len() && j != at ==> (#[trigger] mev[j]).0
                                != canonical@);
                    }
                    assert(keys_distinct(self.model()));
                    assert(self.model()[at as int].0 == canonical@);
                }
                Ok(at)
            },
            None => {
                let repo = match repo_open(canonical.as_str()) {
                    Ok(repo) => repo,
                    Err(_) => match repo_discover(canonical.as_str()) {
                        Ok(repo) => repo,
                        Err(err) => {
                            return Err(err);
                        },
                    },
                };
                let at = self.slots.len();
                self.slots.push(CacheSlot { key: canonical, last_used: now, repo });
                proof {
                    assert(self.model() =~= mev.push((self.model()[at as int].0, now)));
                    assert(keys_distinct(self.model())) by {
                        assert(forall|j: int|
                            0 <= j < mev.len() ==> (#[trigger] self.model()[j]) == mev[j]);
                    }
                }
                Ok(at)
            },
        }
    }
}

/// Inserting a path that is not yet cached into a full cache of
/// entirely fresh entries keeps the cache at its capacity and evicts
/// the least recently used path.
pub proof fn lemma_full_cache_evicts_lru(m: Seq<(Seq<char>, u64)>, key: Seq<char>, now: u64)
    requires
        keys_distinct(m),
        m.len() == REPO_CACHE_MAX_SIZE as int,
        stale_filtered(m, now) =~= m,
        !key_in(m, key),
    ensures
        cache_after_access(m, key, now).len() <= REPO_CACHE_MAX_SIZE as int,
        !key_in(cache_after_access(m, key, now), m[first_min_idx(m)].0),
{
    lemma_first_min_props(m);
    let evicted = m.remove(first_min_idx(m));
    lemma_remove_distinct(m, first_min_idx(m));
    assert(evict_full(stale_filtered(m, now)) =~= evicted) by {
        assert(remove_first_min(m) == evicted);
        assert(evicted.len() < REPO_CACHE_MAX_SIZE);
        assert(evict_full(m) == evict_full(remove_first_min(m)));
    }
    let lru = m[first_min_idx(m)].0;
    assert(!key_in(evicted, lru)) by {
        if key_in(evicted, lru) {
            let i = choose|i: int| 0 <= i < evicted.len() && (#[trigger] evicted[i]).0 == lru;
            if i < first_min_idx(m) {
                assert(m[i].0 == lru);
            } else {
                assert(m[i + 1].0 == lru);
            }
            assert(false);
        }
    }
    assert(!key_in(evicted, key)) by {
        lemma_remove_distinct(m, first_min_idx(m));
    }
    let after = cache_after_access(m, key, now);
    assert(after =~= evicted.push((key, now)));
    assert(!key_in(after, lru)) by {
        if key_in(after, lru) {
            let i = choose|i: int| 0 <= i < after.len() && (#[trigger] after[i]).0 == lru;
            if i < evicted.len() {
                assert(evicted[i].0 == lru);
            } else {
                assert(key == lru);
                assert(key_in(m, key));
            }
            assert(false);
        }
    }
}

} // verus!

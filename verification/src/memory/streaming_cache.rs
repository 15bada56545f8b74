//! LRU cache for streaming chunk/entity data.
//!
//! Entries are loaded and unloaded by recency of use within an entry-count
//! bound and a memory bound.

use std::collections::HashMap;
use std::hash::Hash;
use std::time::{Duration, Instant};
use vstd::prelude::*;
use vstd::std_specs::hash::obeys_key_model;
use vstd::std_specs::hash::spec_hash_map_iter;
use vstd::std_specs::iter::IteratorSpec;

verus! {

broadcast use vstd::std_specs::hash::group_hash_axioms;

/// A point in time of the monotonic clock.
#[verifier::external_type_specification]
#[verifier::external_body]
pub struct ExInstant(Instant);

/// Cache entry with metadata for LRU eviction.
///
/// `last_access` is a reading of the cache's clock: nanoseconds since the
/// cache was created.
pub struct CacheEntry<T> {
    pub data: T,
    pub last_access: u64,
    pub access_count: u32,
    pub memory_bytes: u64,
}

/// `a` is used no more recently than `b`: it is older, or as old and used
/// no more often.
pub open spec fn lru_before<T>(a: CacheEntry<T>, b: CacheEntry<T>) -> bool {
    a.last_access < b.last_access || (a.last_access == b.last_access && a.access_count
        <= b.access_count)
}

/// `k` names a least recently used entry of `m`.
pub open spec fn is_lru_victim<K, T>(m: Map<K, CacheEntry<T>>, k: K) -> bool {
    &&& m.contains_key(k)
    &&& forall|j: K| #[trigger] m.contains_key(j) ==> lru_before(m[k], m[j])
}

/// Every entry of `part` is an entry of `whole`.
pub open spec fn entries_within<K, T>(part: Map<K, CacheEntry<T>>, whole: Map<K, CacheEntry<T>>) -> bool {
    forall|k: K| #[trigger] part.contains_key(k) ==> whole.contains_key(k) && part[k] == whole[k]
}

/// An insert of an entry of `incoming` bytes must first make room in `m`
/// (with `used` bytes reported in use): the cache is at its entry bound, or
/// it is over its memory bound and not yet empty.
pub open spec fn insert_blocked<K, T>(
    m: Map<K, CacheEntry<T>>,
    used: int,
    incoming: u64,
    max_entries: usize,
    max_memory: u64,
) -> bool {
    m.len() >= max_entries || (used + incoming > max_memory && m.len() > 0)
}

/// `survivors` is what least-recently-used eviction leaves of `m` to make
/// room for an entry of `incoming` bytes: a part of `m` such that every
/// evicted entry was used no more recently than every survivor, there is
/// room now, and there was no room before the last (most recently used)
/// evicted entry left.
pub open spec fn lru_eviction_leaves<K, T>(
    m: Map<K, CacheEntry<T>>,
    used: int,
    survivors: Map<K, CacheEntry<T>>,
    incoming: u64,
    max_entries: usize,
    max_memory: u64,
) -> bool {
    let left = used - (total_bytes(m) - total_bytes(survivors));
    &&& entries_within(survivors, m)
    &&& forall|e: K, s: K|
        #![trigger m.contains_key(e), survivors.contains_key(s)]
        m.contains_key(e) && !survivors.contains_key(e) && survivors.contains_key(s) ==> lru_before(
            m[e],
            m[s],
        )
    &&& !insert_blocked(survivors, left, incoming, max_entries, max_memory)
    &&& survivors != m ==> exists|l: K|
        {
            &&& #[trigger] m.contains_key(l)
            &&& !survivors.contains_key(l)
            &&& forall|e: K|
                #![trigger m.contains_key(e)]
                m.contains_key(e) && !survivors.contains_key(e) ==> lru_before(m[e], m[l])
            &&& insert_blocked(
                survivors.insert(l, m[l]),
                left + m[l].memory_bytes,
                incoming,
                max_entries,
                max_memory,
            )
        }
}

/// An entry last used at `last_access` is older than `max_age_secs` at clock
/// reading `now` (all in nanoseconds, except the age).
pub open spec fn older_than(last_access: u64, max_age_secs: u64, now: u64) -> bool {
    last_access + max_age_secs * 1_000_000_000 < now
}

/// The keys of the entries of `m` that are older than `max_age_secs` at `now`.
pub open spec fn stale_keys<K, T>(m: Map<K, CacheEntry<T>>, max_age_secs: u64, now: u64) -> Set<K> {
    m.dom().filter(|k: K| older_than(m[k].last_access, max_age_secs, now))
}

/// The sum of the estimated sizes of the entries of `m`.
pub closed spec fn total_bytes<K, T>(m: Map<K, CacheEntry<T>>) -> nat
    decreases m.dom().len(),
{
    if m.dom().finite() && m.dom().len() > 0 {
        let k = m.dom().choose();
        m[k].memory_bytes as nat + total_bytes(m.remove(k))
    } else {
        0
    }
}

/// Removing an entry takes its size off the total.
pub proof fn lemma_total_bytes_remove<K, T>(m: Map<K, CacheEntry<T>>, k: K)
    requires
        m.dom().finite(),
        m.contains_key(k),
    ensures
        total_bytes(m) == m[k].memory_bytes + total_bytes(m.remove(k)),
    decreases m.dom().len(),
{
    let c = m.dom().choose();
    assert(m.dom().contains(c));
    if c != k {
        let mc = m.remove(c);
        let mk = m.remove(k);
        lemma_total_bytes_remove(mc, k);
        lemma_total_bytes_remove(mk, c);
        assert(mc.remove(k) =~= mk.remove(c));
    }
}

/// Adding an entry under a fresh key adds its size to the total.
pub proof fn lemma_total_bytes_insert<K, T>(m: Map<K, CacheEntry<T>>, k: K, v: CacheEntry<T>)
    requires
        m.dom().finite(),
    ensures
        total_bytes(m.insert(k, v)) == v.memory_bytes + total_bytes(m.remove(k)),
        !m.contains_key(k) ==> total_bytes(m.insert(k, v)) == v.memory_bytes + total_bytes(m),
{
    lemma_total_bytes_remove(m.insert(k, v), k);
    assert(m.insert(k, v).remove(k) =~= m.remove(k));
    if !m.contains_key(k) {
        assert(m.remove(k) =~= m);
    }
}

/// Replacing an entry by one of the same size keeps the total.
pub proof fn lemma_total_bytes_same_size<K, T>(m: Map<K, CacheEntry<T>>, k: K)
    requires
        m.dom().finite(),
        m.contains_key(k),
    ensures
        forall|v: CacheEntry<T>|
            v.memory_bytes == m[k].memory_bytes ==> #[trigger] total_bytes(m.insert(k, v))
                == total_bytes(m),
{
    assert forall|v: CacheEntry<T>| v.memory_bytes == m[k].memory_bytes implies #[trigger] total_bytes(
        m.insert(k, v),
    ) == total_bytes(m) by {
        lemma_total_bytes_insert(m, k, v);
        lemma_total_bytes_remove(m, k);
    }
}

/// The empty map has total zero.
pub proof fn lemma_total_bytes_empty<K, T>(m: Map<K, CacheEntry<T>>)
    requires
        m.dom().finite(),
        m.dom().len() == 0,
    ensures
        total_bytes(m) == 0,
{
}

/// The cache's bounds: inserting, into a cache whose reported memory usage is
/// exact, an entry no larger than the memory bound leaves at most
/// `max_entries` entries and at most `max_memory` bytes in use.
pub proof fn lemma_insert_within_bounds<K, T>(
    m: Map<K, CacheEntry<T>>,
    used: int,
    survivors: Map<K, CacheEntry<T>>,
    incoming: u64,
    max_entries: usize,
    max_memory: u64,
    key: K,
    entry: CacheEntry<T>,
)
    requires
        m.dom().finite(),
        used == total_bytes(m),
        incoming <= max_memory,
        entry.memory_bytes == incoming,
        lru_eviction_leaves(m, used, survivors, incoming, max_entries, max_memory),
    ensures
        survivors.insert(key, entry).len() <= max_entries,
        used - (total_bytes(m) - total_bytes(survivors)) + incoming <= max_memory,
{
    assert(survivors.dom().subset_of(m.dom()));
    vstd::set_lib::lemma_len_subset(survivors.dom(), m.dom());
    if survivors.dom().len() == 0 {
        lemma_total_bytes_empty(survivors);
    }
}

/// `Instant::now`: a reading of the monotonic clock. Nothing is stated of it.
#[verifier::external_body]
fn instant_now() -> (now: Instant) {
    Instant::now()
}

/// `Instant::elapsed`: the time since `origin`. Nothing is stated of it.
#[verifier::external_body]
fn instant_elapsed(origin: &Instant) -> (elapsed: Duration) {
    origin.elapsed()
}

/// `Duration::as_nanos`: the length of a duration in nanoseconds. Nothing is
/// stated of it: a `Duration` is opaque here.
#[verifier::external_body]
fn duration_as_nanos(d: &Duration) -> (nanos: u128) {
    d.as_nanos()
}

/// `HashMap::get_mut`: a mutable reference to the value stored under `key`,
/// or `None` when the map has no such key. The map changes only through the
/// reference: afterwards it holds under `key` what the reference last held.
#[verifier::external_body]
fn map_get_mut<'a, K: Eq + Hash, T>(map: &'a mut HashMap<K, T>, key: &K) -> (slot: Option<&'a mut T>)
    requires
        obeys_key_model::<K>(),
    ensures
        match slot {
            Some(r) => {
                &&& old(map)@.contains_key(*key)
                &&& *r == old(map)@[*key]
                &&& final(map)@ == old(map)@.insert(*key, *final(r))
            },
            None => {
                &&& !old(map)@.contains_key(*key)
                &&& final(map)@ == old(map)@
            },
        },
{
    map.get_mut(key)
}

/// LRU cache for streaming data with memory bounds.
pub struct StreamingCache<K, V> {
    entries: HashMap<K, CacheEntry<V>>,
    max_entries: usize,
    max_memory_bytes: u64,
    current_memory_bytes: u64,
    hits: u64,
    misses: u64,
    /// The instant that clock readings count from.
    origin: Instant,
    /// The latest clock reading at which an entry was used.
    latest: u64,
}

impl<K: Hash + Eq + Copy + std::fmt::Debug, V> StreamingCache<K, V> {
    /// The cached entries by key.
    pub closed spec fn entry_map(&self) -> Map<K, CacheEntry<V>> {
        self.entries@
    }

    pub closed spec fn spec_max_entries(&self) -> usize {
        self.max_entries
    }

    pub closed spec fn spec_max_memory_bytes(&self) -> u64 {
        self.max_memory_bytes
    }

    /// The memory usage that the cache reports.
    pub closed spec fn spec_memory_usage(&self) -> u64 {
        self.current_memory_bytes
    }

    /// The latest clock reading at which an entry was used.
    pub closed spec fn spec_latest(&self) -> u64 {
        self.latest
    }

    pub closed spec fn spec_hits(&self) -> u64 {
        self.hits
    }

    pub closed spec fn spec_misses(&self) -> u64 {
        self.misses
    }

    /// Well-formedness: keys behave as values, finitely many entries are
    /// cached, the reported memory usage is exactly the sum of their sizes,
    /// and no entry was used after the latest clock reading.
    pub open spec fn wf(&self) -> bool {
        &&& obeys_key_model::<K>()
        &&& self.entry_map().dom().finite()
        &&& self.spec_memory_usage() == total_bytes(self.entry_map())
        &&& forall|k: K| #[trigger]
            self.entry_map().contains_key(k) ==> self.entry_map()[k].last_access <= self.spec_latest()
    }

    /// Create a new cache with given capacity limits.
    pub fn new(max_entries: usize, max_memory_mb: u64) -> (cache: Self)
        requires
            obeys_key_model::<K>(),
            max_memory_mb * 1024 * 1024 <= u64::MAX,
        ensures
            cache.wf(),
            cache.entry_map() == Map::<K, CacheEntry<V>>::empty(),
            cache.spec_max_entries() == max_entries,
            cache.spec_max_memory_bytes() == max_memory_mb * 1024 * 1024,
            cache.spec_memory_usage() == 0,
            cache.spec_hits() == 0,
            cache.spec_misses() == 0,
    {
        let entries: HashMap<K, CacheEntry<V>> = HashMap::new();
        proof {
            lemma_total_bytes_empty(entries@);
        }
        StreamingCache {
            entries,
            max_entries,
            max_memory_bytes: max_memory_mb * 1024 * 1024,
            current_memory_bytes: 0,
            hits: 0,
            misses: 0,
            origin: instant_now(),
            latest: 0,
        }
    }

    /// The current reading of the cache's clock, in nanoseconds since the
    /// cache was created, saturating at `u64::MAX`; never earlier than the
    /// latest reading at which an entry was used.
    fn clock(&self) -> (now: u64)
        ensures
            now >= self.spec_latest(),
    {
        let nanos = duration_as_nanos(&instant_elapsed(&self.origin));
        let reading: u64 = if nanos > 0xffff_ffff_ffff_ffffu128 {
            0xffff_ffff_ffff_ffffu64
        } else {
            nanos as u64
        };
        if reading < self.latest {
            self.latest
        } else {
            reading
        }
    }

    /// Look up `key` at clock reading `now`: a hit records the access.
    pub fn get_at(&mut self, key: &K, now: u64) -> (found: Option<&V>)
        requires
            old(self).wf(),
            old(self).entry_map().contains_key(*key) ==> old(self).spec_hits() < u64::MAX
                && old(self).entry_map()[*key].access_count < u32::MAX,
            !old(self).entry_map().contains_key(*key) ==> old(self).spec_misses() < u64::MAX,
        ensures
            final(self).spec_latest() == (if now > old(self).spec_latest() { now } else { old(self).spec_latest() }),
            final(self).wf(),
            final(self).spec_max_entries() == old(self).spec_max_entries(),
            final(self).spec_max_memory_bytes() == old(self).spec_max_memory_bytes(),
            final(self).spec_memory_usage() == old(self).spec_memory_usage(),
            old(self).entry_map().contains_key(*key) ==> {
                let e = old(self).entry_map()[*key];
                &&& found == Some(&e.data)
                &&& final(self).entry_map() == old(self).entry_map().insert(
                    *key,
                    CacheEntry {
                        data: e.data,
                        last_access: now,
                        access_count: (e.access_count + 1) as u32,
                        memory_bytes: e.memory_bytes,
                    },
                )
                &&& final(self).spec_hits() == old(self).spec_hits() + 1
                &&& final(self).spec_misses() == old(self).spec_misses()
            },
            !old(self).entry_map().contains_key(*key) ==> {
                &&& found is None
                &&& final(self).entry_map() == old(self).entry_map()
                &&& final(self).spec_hits() == old(self).spec_hits()
                &&& final(self).spec_misses() == old(self).spec_misses() + 1
            },
    {
        if now > self.latest {
            self.latest = now;
        }
        match self.entries.remove(key) {
            Some(entry) => {
                let updated = CacheEntry {
                    data: entry.data,
                    last_access: now,
                    access_count: entry.access_count + 1,
                    memory_bytes: entry.memory_bytes,
                };
                proof {
                    lemma_total_bytes_insert(self.entries@, *key, updated);
                    lemma_total_bytes_remove(old(self).entries@, *key);
                    assert(self.entries@.remove(*key) =~= self.entries@);
                }
                self.entries.insert(*key, updated);
                self.hits = self.hits + 1;
                proof {
                    assert(self.entries@ =~= old(self).entries@.insert(*key, updated));
                }
                match self.entries.get(key) {
                    Some(e) => Some(&e.data),
                    None => None,
                }
            },
            None => {
                self.misses = self.misses + 1;
                proof {
                    assert(self.entries@ =~= old(self).entries@);
                }
                None
            },
        }
    }

    /// Get a value from the cache, updating access time.
    pub fn get(&mut self, key: &K) -> (found: Option<&V>)
        requires
            old(self).wf(),
            old(self).entry_map().contains_key(*key) ==> old(self).spec_hits() < u64::MAX
                && old(self).entry_map()[*key].access_count < u32::MAX,
            !old(self).entry_map().contains_key(*key) ==> old(self).spec_misses() < u64::MAX,
        ensures
            old(self).entry_map().contains_key(*key) ==> final(self).entry_map()[*key].last_access
                >= old(self).spec_latest(),
            old(self).entry_map().contains_key(*key) ==> forall|j: K| #[trigger]
                final(self).entry_map().contains_key(j) ==> final(self).entry_map()[j].last_access
                    <= final(self).entry_map()[*key].last_access,
            final(self).wf(),
            final(self).spec_max_entries() == old(self).spec_max_entries(),
            final(self).spec_max_memory_bytes() == old(self).spec_max_memory_bytes(),
            final(self).spec_memory_usage() == old(self).spec_memory_usage(),
            final(self).entry_map().dom() == old(self).entry_map().dom(),
            old(self).entry_map().contains_key(*key) ==> {
                let e = old(self).entry_map()[*key];
                let n = final(self).entry_map()[*key];
                &&& found == Some(&e.data)
                &&& n.data == e.data
                &&& n.access_count == e.access_count + 1
                &&& n.memory_bytes == e.memory_bytes
                &&& forall|j: K| #[trigger] old(self).entry_map().contains_key(j) && j != *key
                    ==> final(self).entry_map()[j] == old(self).entry_map()[j]
                &&& final(self).spec_hits() == old(self).spec_hits() + 1
                &&& final(self).spec_misses() == old(self).spec_misses()
            },
            !old(self).entry_map().contains_key(*key) ==> {
                &&& found is None
                &&& final(self).entry_map() == old(self).entry_map()
                &&& final(self).spec_hits() == old(self).spec_hits()
                &&& final(self).spec_misses() == old(self).spec_misses() + 1
            },
    {
        let now = self.clock();
        self.get_at(key, now)
    }

    /// Evict the least recently used entry.
    fn evict_lru(&mut self)
        requires
            old(self).wf(),
        ensures
            final(self).spec_latest() == old(self).spec_latest(),
            final(self).wf(),
            final(self).spec_max_entries() == old(self).spec_max_entries(),
            final(self).spec_max_memory_bytes() == old(self).spec_max_memory_bytes(),
            final(self).spec_hits() == old(self).spec_hits(),
            final(self).spec_misses() == old(self).spec_misses(),
            old(self).entry_map().len() == 0 ==> {
                &&& final(self).entry_map() == old(self).entry_map()
                &&& final(self).spec_memory_usage() == old(self).spec_memory_usage()
            },
            old(self).entry_map().len() > 0 ==> exists|k: K|
                {
                    &&& #[trigger] is_lru_victim(old(self).entry_map(), k)
                    &&& final(self).entry_map() == old(self).entry_map().remove(k)
                    &&& final(self).spec_memory_usage() == old(self).spec_memory_usage()
                        - old(self).entry_map()[k].memory_bytes
                },
    {
        if self.entries.is_empty() {
            return;
        }
        let ghost m = self.entries@;
        let mut best: Option<K> = None;
        let mut best_time: u64 = 0;
        let mut best_count: u32 = 0;
        for (k, e) in it: self.entries.iter()
            invariant
                m == self.entries@,
                self.wf(),
                it.seq() == spec_hash_map_iter(&self.entries).remaining(),
                it.index() > 0 ==> best is Some,
                best matches Some(b) ==> {
                    &&& m.contains_key(b)
                    &&& m[b].last_access == best_time
                    &&& m[b].access_count == best_count
                    &&& forall|j: int| 0 <= j < it.index() ==> lru_before(m[b], m[*#[trigger] it.seq()[j].0])
                },
        {
            let better = match best {
                None => true,
                Some(_) => e.last_access < best_time || (e.last_access == best_time
                    && e.access_count < best_count),
            };
            if better {
                best = Some(*k);
                best_time = e.last_access;
                best_count = e.access_count;
            }
        }
        match best {
            Some(key) => {
                proof {
                    let v = spec_hash_map_iter(&self.entries).remaining();
                    assert forall|j: K| #[trigger] m.contains_key(j) implies lru_before(m[key], m[j]) by {
                        assert(v.contains((&j, &m[j])));
                        let i = choose|i: int| 0 <= i < v.len() && v[i] == (&j, &m[j]);
                        assert(*v[i].0 == j);
                    }
                    assert(is_lru_victim(m, key));
                }
                self.remove(&key);
            },
            None => {},
        }
    }

    /// Insert `value` at clock reading `now`, first evicting least recently
    /// used entries until the entry-count and memory bounds leave room; an
    /// entry already under `key` is replaced and its size no longer counts.
    pub fn insert_at(&mut self, key: K, value: V, memory_bytes: u64, now: u64)
        requires
            old(self).wf(),
            old(self).spec_max_entries() > 0,
            old(self).spec_memory_usage() + memory_bytes <= u64::MAX,
        ensures
            final(self).spec_latest() == (if now > old(self).spec_latest() { now } else { old(self).spec_latest() }),
            final(self).entry_map().len() <= old(self).spec_max_entries(),
            memory_bytes <= old(self).spec_max_memory_bytes() ==> final(self).spec_memory_usage()
                <= old(self).spec_max_memory_bytes(),
            final(self).wf(),
            final(self).spec_max_entries() == old(self).spec_max_entries(),
            final(self).spec_max_memory_bytes() == old(self).spec_max_memory_bytes(),
            final(self).spec_hits() == old(self).spec_hits(),
            final(self).spec_misses() == old(self).spec_misses(),
            exists|survivors: Map<K, CacheEntry<V>>|
                {
                    &&& #[trigger] lru_eviction_leaves(
                        old(self).entry_map(),
                        old(self).spec_memory_usage() as int,
                        survivors,
                        memory_bytes,
                        old(self).spec_max_entries(),
                        old(self).spec_max_memory_bytes(),
                    )
                    &&& final(self).entry_map() == survivors.insert(
                        key,
                        CacheEntry { data: value, last_access: now, access_count: 1, memory_bytes },
                    )
                },
    {
        if now > self.latest {
            self.latest = now;
        }
        let ghost m = self.entries@;
        let ghost used = self.current_memory_bytes as int;
        let ghost mut last: Option<K> = None;
        while self.entries.len() >= self.max_entries || (self.current_memory_bytes + memory_bytes
            > self.max_memory_bytes && !self.entries.is_empty())
            invariant
                self.wf(),
                self.max_entries == old(self).max_entries,
                self.max_memory_bytes == old(self).max_memory_bytes,
                self.hits == old(self).hits,
                self.misses == old(self).misses,
                self.max_entries > 0,
                self.current_memory_bytes + memory_bytes <= u64::MAX,
                self.latest == (if now > old(self).latest { now } else { old(self).latest }),
                now <= self.latest,
                m == old(self).entries@,
                used == old(self).current_memory_bytes,
                entries_within(self.entries@, m),
                self.current_memory_bytes == used - (total_bytes(m) - total_bytes(self.entries@)),
                forall|e: K, s: K|
                    #![trigger m.contains_key(e), self.entries@.contains_key(s)]
                    m.contains_key(e) && !self.entries@.contains_key(e) && self.entries@.contains_key(s)
                        ==> lru_before(m[e], m[s]),
                last is None ==> self.entries@ == m,
                last matches Some(l) ==> {
                    &&& m.contains_key(l)
                    &&& !self.entries@.contains_key(l)
                    &&& forall|e: K|
                        #![trigger m.contains_key(e)]
                        m.contains_key(e) && !self.entries@.contains_key(e) ==> lru_before(m[e], m[l])
                    &&& insert_blocked(
                        self.entries@.insert(l, m[l]),
                        self.current_memory_bytes + m[l].memory_bytes,
                        memory_bytes,
                        self.max_entries,
                        self.max_memory_bytes,
                    )
                },
            decreases self.entries@.len(),
        {
            let ghost before = self.entries@;
            let ghost before_used = self.current_memory_bytes;
            self.evict_lru();
            proof {
                let v = choose|k: K| #[trigger] is_lru_victim(before, k) && self.entries@ == before.remove(k)
                    && self.current_memory_bytes == before_used - before[k].memory_bytes;
                lemma_total_bytes_remove(before, v);
                assert(before.contains_key(v));
                assert(before[v] == m[v]);
                assert(before.remove(v).insert(v, m[v]) =~= before);
                assert forall|e: K|
                    #![trigger m.contains_key(e)]
                    m.contains_key(e) && !self.entries@.contains_key(e) implies lru_before(m[e], m[v]) by {
                    if e != v {
                        assert(before.contains_key(v));
                    }
                }
                assert forall|e: K, s: K|
                    #![trigger m.contains_key(e), self.entries@.contains_key(s)]
                    m.contains_key(e) && !self.entries@.contains_key(e) && self.entries@.contains_key(s)
                        implies lru_before(m[e], m[s]) by {
                    assert(before.contains_key(s));
                    assert(before[s] == m[s]);
                    if e == v {
                        assert(before[v] == m[v]);
                    }
                }
                last = Some(v);
            }
        }
        let ghost survivors = self.entries@;
        let entry = CacheEntry { data: value, last_access: now, access_count: 1u32, memory_bytes };
        let replaced: u64 = match self.entries.get(&key) {
            Some(e) => e.memory_bytes,
            None => 0,
        };
        proof {
            lemma_total_bytes_insert(survivors, key, entry);
            if survivors.contains_key(key) {
                lemma_total_bytes_remove(survivors, key);
            } else {
                assert(survivors.remove(key) =~= survivors);
            }
            assert(lru_eviction_leaves(m, used, survivors, memory_bytes, self.max_entries, self.max_memory_bytes));
            assert(survivors.dom().finite());
            assert(survivors.len() < self.max_entries);
            assert(survivors.insert(key, entry).dom() =~= survivors.dom().insert(key));
            if memory_bytes <= self.max_memory_bytes {
                lemma_insert_within_bounds(
                    m,
                    used,
                    survivors,
                    memory_bytes,
                    self.max_entries,
                    self.max_memory_bytes,
                    key,
                    entry,
                );
            }
        }
        self.current_memory_bytes = self.current_memory_bytes - replaced + memory_bytes;
        self.entries.insert(key, entry);
        assert(self.entries@ == survivors.insert(key, entry));
        assert(lru_eviction_leaves(
            old(self).entry_map(),
            old(self).spec_memory_usage() as int,
            survivors,
            memory_bytes,
            old(self).spec_max_entries(),
            old(self).spec_max_memory_bytes(),
        ));
    }

    /// Insert a value with estimated memory size; the new entry is the most
    /// recently used one.
    pub fn insert(&mut self, key: K, value: V, memory_bytes: u64)
        requires
            old(self).wf(),
            old(self).spec_max_entries() > 0,
            old(self).spec_memory_usage() + memory_bytes <= u64::MAX,
        ensures
            final(self).entry_map()[key].last_access >= old(self).spec_latest(),
            forall|j: K| #[trigger]
                final(self).entry_map().contains_key(j) ==> final(self).entry_map()[j].last_access
                    <= final(self).entry_map()[key].last_access,
            final(self).entry_map().len() <= old(self).spec_max_entries(),
            memory_bytes <= old(self).spec_max_memory_bytes() ==> final(self).spec_memory_usage()
                <= old(self).spec_max_memory_bytes(),
            final(self).wf(),
            final(self).spec_max_entries() == old(self).spec_max_entries(),
            final(self).spec_max_memory_bytes() == old(self).spec_max_memory_bytes(),
            final(self).spec_hits() == old(self).spec_hits(),
            final(self).spec_misses() == old(self).spec_misses(),
            exists|survivors: Map<K, CacheEntry<V>>|
                {
                    &&& #[trigger] lru_eviction_leaves(
                        old(self).entry_map(),
                        old(self).spec_memory_usage() as int,
                        survivors,
                        memory_bytes,
                        old(self).spec_max_entries(),
                        old(self).spec_max_memory_bytes(),
                    )
                    &&& final(self).entry_map() == survivors.insert(
                        key,
                        CacheEntry {
                            data: value,
                            last_access: final(self).entry_map()[key].last_access,
                            access_count: 1,
                            memory_bytes,
                        },
                    )
                },
    {
        let now = self.clock();
        self.insert_at(key, value, memory_bytes, now);
    }

    /// Evict, at clock reading `now`, the entries that have not been used
    /// within `max_age_secs`; returns how many were evicted.
    pub fn evict_older_than_at(&mut self, max_age_secs: u64, now: u64) -> (count: usize)
        requires
            old(self).wf(),
        ensures
            final(self).entry_map().len() == old(self).entry_map().len() - count,
            final(self).spec_latest() == old(self).spec_latest(),
            final(self).wf(),
            final(self).entry_map() == old(self).entry_map().remove_keys(
                stale_keys(old(self).entry_map(), max_age_secs, now),
            ),
            count == stale_keys(old(self).entry_map(), max_age_secs, now).len(),
            final(self).spec_memory_usage() == old(self).spec_memory_usage() - (total_bytes(
                old(self).entry_map(),
            ) - total_bytes(final(self).entry_map())),
            final(self).spec_max_entries() == old(self).spec_max_entries(),
            final(self).spec_max_memory_bytes() == old(self).spec_max_memory_bytes(),
            final(self).spec_hits() == old(self).spec_hits(),
            final(self).spec_misses() == old(self).spec_misses(),
    {
        let ghost m = self.entries@;
        let ghost stale = stale_keys(m, max_age_secs, now);
        let age_nanos: u128 = (max_age_secs as u128) * 1_000_000_000u128;
        let mut to_evict: Vec<K> = Vec::new();
        let ghost mut positions: Seq<int> = Seq::empty();
        for (k, e) in it: self.entries.iter()
            invariant
                m == self.entries@,
                self.wf(),
                age_nanos == max_age_secs * 1_000_000_000,
                stale == stale_keys(m, max_age_secs, now),
                it.seq() == spec_hash_map_iter(&self.entries).remaining(),
                it.seq().no_duplicates(),
                positions.len() == to_evict@.len(),
                forall|i: int| 0 <= i < positions.len() ==> 0 <= #[trigger] positions[i] < it.index(),
                forall|i: int, j: int| 0 <= i < j < positions.len() ==> positions[i] < positions[j],
                forall|i: int| 0 <= i < positions.len() ==> #[trigger] to_evict@[i] == *it.seq()[positions[i]].0,
                forall|i: int| 0 <= i < to_evict@.len() ==> #[trigger] stale.contains(to_evict@[i]),
                forall|j: int| 0 <= j < it.index() && #[trigger] stale.contains(*it.seq()[j].0)
                    ==> to_evict@.contains(*it.seq()[j].0),
        {
            let ghost idx = it.index();
            proof {
                let v = it.seq();
                assert((k, e) == v[idx]);
                assert(m.contains_key(*v[idx].0) && m[*v[idx].0] == *v[idx].1);
                assert(*k == *v[idx].0);
                assert(*e == *v[idx].1);
                assert(m.dom().contains(*k));
                assert(m[*k] == *e);
            }
            let ghost before_evict = to_evict@;
            assert(stale.contains(*k) == older_than(e.last_access, max_age_secs, now));
            if (e.last_access as u128) + age_nanos < (now as u128) {
                to_evict.push(*k);
                proof {
                    positions = positions.push(idx);
                }
            }
            proof {
                assert forall|j: int| 0 <= j <= idx && #[trigger] stale.contains(*it.seq()[j].0)
                    implies to_evict@.contains(*it.seq()[j].0) by {
                    if j < idx {
                        let w = choose|w: int| 0 <= w < before_evict.len() && before_evict[w] == *it.seq()[j].0;
                        assert(to_evict@[w] == before_evict[w]);
                    } else {
                        assert(to_evict@[to_evict@.len() - 1] == *k);
                    }
                }
            }
        }
        let ghost v = spec_hash_map_iter(&self.entries).remaining();
        proof {
            assert forall|a: int, b: int| 0 <= a < b < to_evict@.len()
                implies to_evict@[a] != to_evict@[b] by {
                let pa = positions[a];
                let pb = positions[b];
                assert(m.contains_key(*v[pa].0) && m[*v[pa].0] == *v[pa].1);
                assert(m.contains_key(*v[pb].0) && m[*v[pb].0] == *v[pb].1);
                if to_evict@[a] == to_evict@[b] {
                    assert(v[pa] == v[pb]);
                }
            }
            assert forall|k: K| #[trigger] stale.contains(k) implies to_evict@.contains(k) by {
                assert(v.contains((&k, &m[k])));
                let j = choose|j: int| 0 <= j < v.len() && v[j] == (&k, &m[k]);
                assert(*v[j].0 == k);
            }
            assert(to_evict@.to_set() =~= stale);
            to_evict@.unique_seq_to_set();
        }
        let count = to_evict.len();
        let mut i: usize = 0;
        while i < count
            invariant
                self.wf(),
                0 <= i <= count,
                count == to_evict@.len(),
                to_evict@.no_duplicates(),
                forall|j: int| 0 <= j < to_evict@.len() ==> #[trigger] m.contains_key(to_evict@[j]),
                self.entries@ == m.remove_keys(to_evict@.take(i as int).to_set()),
                self.entries@.len() == m.len() - i,
                m.dom().finite(),
                self.current_memory_bytes == old(self).current_memory_bytes - (total_bytes(m) - total_bytes(self.entries@)),
                self.max_entries == old(self).max_entries,
                self.max_memory_bytes == old(self).max_memory_bytes,
                self.hits == old(self).hits,
                self.misses == old(self).misses,
                self.latest == old(self).latest,
            decreases count - i,
        {
            let key = to_evict[i];
            proof {
                assert(!to_evict@.take(i as int).contains(key));
                assert(self.entries@.contains_key(key));
                lemma_total_bytes_remove(self.entries@, key);
                assert(to_evict@.take(i + 1) =~= to_evict@.take(i as int) + seq![key]);
                Seq::<K>::lemma_to_set_insert_commutes(to_evict@.take(i as int), key);
                assert(to_evict@.take(i + 1).to_set() == to_evict@.take(i as int).to_set().insert(key));
                assert(self.entries@.remove(key) =~= m.remove_keys(to_evict@.take(i + 1).to_set()));
            }
            self.remove(&key);
            i = i + 1;
        }
        proof {
            assert(to_evict@.take(count as int) =~= to_evict@);
        }
        count
    }

    /// Look up `key` at clock reading `now` for mutation: a hit records the
    /// access, and the cache afterwards holds what the returned reference
    /// last held.
    pub fn get_mut_at(&mut self, key: &K, now: u64) -> (found: Option<&mut V>)
        requires
            old(self).wf(),
            old(self).entry_map().contains_key(*key) ==> old(self).spec_hits() < u64::MAX
                && old(self).entry_map()[*key].access_count < u32::MAX,
            !old(self).entry_map().contains_key(*key) ==> old(self).spec_misses() < u64::MAX,
        ensures
            final(self).spec_latest() == (if now > old(self).spec_latest() { now } else { old(self).spec_latest() }),
            final(self).wf(),
            final(self).spec_max_entries() == old(self).spec_max_entries(),
            final(self).spec_max_memory_bytes() == old(self).spec_max_memory_bytes(),
            final(self).spec_memory_usage() == old(self).spec_memory_usage(),
            old(self).entry_map().contains_key(*key) ==> {
                let e = old(self).entry_map()[*key];
                &&& found matches Some(r) && *r == e.data && final(self).entry_map()
                    == old(self).entry_map().insert(
                    *key,
                    CacheEntry {
                        data: *final(r),
                        last_access: now,
                        access_count: (e.access_count + 1) as u32,
                        memory_bytes: e.memory_bytes,
                    },
                )
                &&& final(self).spec_hits() == old(self).spec_hits() + 1
                &&& final(self).spec_misses() == old(self).spec_misses()
            },
            !old(self).entry_map().contains_key(*key) ==> {
                &&& found is None
                &&& final(self).entry_map() == old(self).entry_map()
                &&& final(self).spec_hits() == old(self).spec_hits()
                &&& final(self).spec_misses() == old(self).spec_misses() + 1
            },
    {
        if now > self.latest {
            self.latest = now;
        }
        proof {
            if self.entries@.contains_key(*key) {
                lemma_total_bytes_same_size(self.entries@, *key);
            }
        }
        match map_get_mut(&mut self.entries, key) {
            Some(entry) => {
                entry.last_access = now;
                entry.access_count = entry.access_count + 1;
                self.hits = self.hits + 1;
                Some(&mut entry.data)
            },
            None => {
                self.misses = self.misses + 1;
                None
            },
        }
    }

    /// Get a mutable reference to a value.
    pub fn get_mut(&mut self, key: &K) -> (found: Option<&mut V>)
        requires
            old(self).wf(),
            old(self).entry_map().contains_key(*key) ==> old(self).spec_hits() < u64::MAX
                && old(self).entry_map()[*key].access_count < u32::MAX,
            !old(self).entry_map().contains_key(*key) ==> old(self).spec_misses() < u64::MAX,
        ensures
            old(self).entry_map().contains_key(*key) ==> final(self).entry_map()[*key].last_access
                >= old(self).spec_latest(),
            old(self).entry_map().contains_key(*key) ==> forall|j: K| #[trigger]
                final(self).entry_map().contains_key(j) ==> final(self).entry_map()[j].last_access
                    <= final(self).entry_map()[*key].last_access,
            final(self).wf(),
            final(self).spec_max_entries() == old(self).spec_max_entries(),
            final(self).spec_max_memory_bytes() == old(self).spec_max_memory_bytes(),
            final(self).spec_memory_usage() == old(self).spec_memory_usage(),
            old(self).entry_map().contains_key(*key) ==> {
                let e = old(self).entry_map()[*key];
                &&& found matches Some(r) && *r == e.data && final(self).entry_map()
                    == old(self).entry_map().insert(
                    *key,
                    CacheEntry {
                        data: *final(r),
                        last_access: final(self).entry_map()[*key].last_access,
                        access_count: (e.access_count + 1) as u32,
                        memory_bytes: e.memory_bytes,
                    },
                )
                &&& final(self).spec_hits() == old(self).spec_hits() + 1
                &&& final(self).spec_misses() == old(self).spec_misses()
            },
            !old(self).entry_map().contains_key(*key) ==> {
                &&& found is None
                &&& final(self).entry_map() == old(self).entry_map()
                &&& final(self).spec_hits() == old(self).spec_hits()
                &&& final(self).spec_misses() == old(self).spec_misses() + 1
            },
    {
        let now = self.clock();
        self.get_mut_at(key, now)
    }

    /// Evict entries that haven't been accessed recently.
    pub fn evict_older_than(&mut self, max_age_secs: u64) -> (count: usize)
        requires
            old(self).wf(),
        ensures
            final(self).entry_map().len() == old(self).entry_map().len() - count,
            final(self).spec_latest() == old(self).spec_latest(),
            final(self).wf(),
            exists|now: u64|
                {
                    &&& now >= old(self).spec_latest()
                    &&& #[trigger] old(self).entry_map().remove_keys(
                        stale_keys(old(self).entry_map(), max_age_secs, now),
                    ) == final(self).entry_map()
                    &&& count == stale_keys(old(self).entry_map(), max_age_secs, now).len()
                },
            final(self).spec_memory_usage() == old(self).spec_memory_usage() - (total_bytes(
                old(self).entry_map(),
            ) - total_bytes(final(self).entry_map())),
            final(self).spec_max_entries() == old(self).spec_max_entries(),
            final(self).spec_max_memory_bytes() == old(self).spec_max_memory_bytes(),
            final(self).spec_hits() == old(self).spec_hits(),
            final(self).spec_misses() == old(self).spec_misses(),
    {
        let now = self.clock();
        self.evict_older_than_at(max_age_secs, now)
    }

    /// Remove a value from the cache.
    pub fn remove(&mut self, key: &K) -> (removed: Option<V>)
        requires
            old(self).wf(),
        ensures
            final(self).entry_map().len() == (if old(self).entry_map().contains_key(*key) {
                old(self).entry_map().len() - 1
            } else {
                old(self).entry_map().len() as int
            }),
            final(self).spec_latest() == old(self).spec_latest(),
            final(self).wf(),
            final(self).entry_map() == old(self).entry_map().remove(*key),
            old(self).entry_map().contains_key(*key) ==> {
                &&& removed == Some(old(self).entry_map()[*key].data)
                &&& final(self).spec_memory_usage() == old(self).spec_memory_usage()
                    - old(self).entry_map()[*key].memory_bytes
            },
            !old(self).entry_map().contains_key(*key) ==> {
                &&& removed is None
                &&& final(self).spec_memory_usage() == old(self).spec_memory_usage()
            },
            final(self).spec_max_entries() == old(self).spec_max_entries(),
            final(self).spec_max_memory_bytes() == old(self).spec_max_memory_bytes(),
            final(self).spec_hits() == old(self).spec_hits(),
            final(self).spec_misses() == old(self).spec_misses(),
    {
        proof {
            if self.entries@.contains_key(*key) {
                lemma_total_bytes_remove(self.entries@, *key);
            } else {
                assert(self.entries@.remove(*key) =~= self.entries@);
            }
        }
        match self.entries.remove(key) {
            Some(entry) => {
                self.current_memory_bytes = self.current_memory_bytes - entry.memory_bytes;
                Some(entry.data)
            },
            None => None,
        }
    }

    /// Check if cache contains a key.
    pub fn contains(&self, key: &K) -> (found: bool)
        requires
            self.wf(),
        ensures
            found == self.entry_map().contains_key(*key),
    {
        self.entries.contains_key(key)
    }

    /// Get current entry count.
    pub fn len(&self) -> (count: usize)
        requires
            self.wf(),
        ensures
            count == self.entry_map().len(),
    {
        self.entries.len()
    }

    /// Check if cache is empty.
    pub fn is_empty(&self) -> (empty: bool)
        requires
            self.wf(),
        ensures
            empty == (self.entry_map().len() == 0),
    {
        self.entries.is_empty()
    }

    /// Get current memory usage in bytes.
    pub fn memory_usage(&self) -> (bytes: u64)
        ensures
            bytes == self.spec_memory_usage(),
    {
        self.current_memory_bytes
    }

    /// The number of lookups that found their key.
    pub fn hit_count(&self) -> (hits: u64)
        ensures
            hits == self.spec_hits(),
    {
        self.hits
    }

    /// The number of lookups that did not find their key.
    pub fn miss_count(&self) -> (misses: u64)
        ensures
            misses == self.spec_misses(),
    {
        self.misses
    }

    /// The entry-count bound.
    pub fn max_entries(&self) -> (max: usize)
        ensures
            max == self.spec_max_entries(),
    {
        self.max_entries
    }

    /// The memory bound, in bytes.
    pub fn max_memory_bytes(&self) -> (max: u64)
        ensures
            max == self.spec_max_memory_bytes(),
    {
        self.max_memory_bytes
    }

    /// Clear the cache.
    pub fn clear(&mut self)
        requires
            old(self).wf(),
        ensures
            final(self).spec_latest() == old(self).spec_latest(),
            final(self).wf(),
            final(self).entry_map() == Map::<K, CacheEntry<V>>::empty(),
            final(self).spec_memory_usage() == 0,
            final(self).spec_max_entries() == old(self).spec_max_entries(),
            final(self).spec_max_memory_bytes() == old(self).spec_max_memory_bytes(),
            final(self).spec_hits() == old(self).spec_hits(),
            final(self).spec_misses() == old(self).spec_misses(),
    {
        self.entries.clear();
        self.current_memory_bytes = 0;
        proof {
            lemma_total_bytes_empty(self.entries@);
        }
    }
}

} // verus!

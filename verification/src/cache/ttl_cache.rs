//! A map whose entries expire after a time-to-live and which holds a bounded number of
//! entries.
use vstd::prelude::*;
use vstd::std_specs::hash::obeys_key_model;

use std::collections::HashMap;
use std::hash::Hash;
use std::time::Instant;

verus! {

#[verifier::external_type_specification]
#[verifier::external_body]
pub struct ExInstant(Instant);

/// `std::time::Instant::now`: the current time. Nothing is claimed of it.
#[verifier::external_body]
fn instant_now() -> Instant {
    Instant::now()
}

/// `std::time::Instant::elapsed`, in whole milliseconds (`Duration::as_millis`). It
/// depends on the clock, so nothing is claimed of it.
#[verifier::external_body]
fn millis_since(t: &Instant) -> u128 {
    t.elapsed().as_millis()
}

/// The key that `HashMap::keys().next()` yields, copied: some key of the map, or `None`
/// when the map is empty. Which key comes first is not stated.
#[verifier::external_body]
fn first_key<K: Copy, V>(m: &HashMap<K, V>) -> (r: Option<K>)
    ensures
        obeys_key_model::<K>() ==> match r {
            Some(k) => m@.contains_key(k),
            None => m@.len() == 0,
        },
{
    m.keys().next().copied()
}

/// Whether an entry stamped at `stamp` milliseconds is still fresh at `now`
/// milliseconds: its age (zero when `now` is before the stamp) is below the
/// time-to-live.
pub open spec fn is_fresh(stamp: u64, now: u64, ttl: u64) -> bool {
    (if now >= stamp { now - stamp } else { 0 }) < ttl
}

/// What `insert_at(key, value, now)` makes of a cache with contents `c`, stamps `s` and
/// entry limit `limit`: when the cache is full (and not empty), one entry that was in it
/// is evicted first; then `key` holds `value`, stamped `now`.
pub open spec fn inserted<K, V>(
    c: Map<K, V>,
    s: Map<K, u64>,
    limit: usize,
    key: K,
    value: V,
    now: u64,
    c2: Map<K, V>,
    s2: Map<K, u64>,
) -> bool {
    if c.len() >= limit && c.len() > 0 {
        exists|evicted: K| #[trigger] c.contains_key(evicted)
            && c2 == c.remove(evicted).insert(key, value)
            && s2 == s.remove(evicted).insert(key, now)
    } else {
        c2 == c.insert(key, value) && s2 == s.insert(key, now)
    }
}

/// A map with a time-to-live for each entry and a limit on the number of entries. Each
/// entry is stamped with the milliseconds since the cache was made at which it was
/// inserted. When the cache is full, an insertion first evicts one entry.
pub struct TtlCache<K, V> {
    entries: HashMap<K, (V, u64)>,
    origin: Instant,
    max_entries: usize,
    ttl_ms: u64,
}

impl<K: Hash + Eq + Copy, V> TtlCache<K, V> {
    /// The entries, without their stamps.
    pub closed spec fn contents(&self) -> Map<K, V> {
        self.entries@.map_values(|e: (V, u64)| e.0)
    }

    /// The stamps of the entries, in milliseconds since the cache was made.
    pub closed spec fn stamps(&self) -> Map<K, u64> {
        self.entries@.map_values(|e: (V, u64)| e.1)
    }

    /// The entry limit.
    pub closed spec fn limit(&self) -> usize {
        self.max_entries
    }

    /// The time-to-live in milliseconds.
    pub closed spec fn ttl(&self) -> u64 {
        self.ttl_ms
    }

    /// The entries are finitely many, and every entry has a stamp.
    pub proof fn lemma_finite(&self)
        ensures
            self.contents().dom().finite(),
            self.stamps().dom() == self.contents().dom(),
    {
        broadcast use vstd::std_specs::hash::group_hash_axioms;
        assert(self.contents().dom() =~= self.entries@.dom());
        assert(self.stamps().dom() =~= self.entries@.dom());
    }

    /// An empty cache with the given limit and time-to-live.
    pub fn new(max_entries: usize, ttl_ms: u64) -> (r: Self)
        ensures
            r.contents() == Map::<K, V>::empty(),
            r.stamps() == Map::<K, u64>::empty(),
            r.limit() == max_entries,
            r.ttl() == ttl_ms,
    {
        let entries: HashMap<K, (V, u64)> = HashMap::new();
        let r = TtlCache { entries, origin: instant_now(), max_entries, ttl_ms };
        assert(r.contents() =~= Map::<K, V>::empty());
        assert(r.stamps() =~= Map::<K, u64>::empty());
        r
    }

    /// The clock: milliseconds since the cache was made (stopping at `u64::MAX`).
    fn now_ms(&self) -> u64 {
        let ms = millis_since(&self.origin);
        if ms <= u64::MAX as u128 { ms as u64 } else { u64::MAX }
    }

    /// The value under `key` if its entry is fresh at time `now_ms`. An entry that is no
    /// longer fresh is removed and `None` returned.
    pub fn get_at(&mut self, key: &K, now_ms: u64) -> (r: Option<&V>)
        ensures
            final(self).limit() == old(self).limit(),
            final(self).ttl() == old(self).ttl(),
            obeys_key_model::<K>() ==> {
                &&& (r is Some <==> old(self).contents().contains_key(*key)
                    && is_fresh(old(self).stamps()[*key], now_ms, old(self).ttl()))
                &&& match r {
                    Some(v) => *v == old(self).contents()[*key]
                        && final(self).contents() == old(self).contents()
                        && final(self).stamps() == old(self).stamps(),
                    None => final(self).contents() == old(self).contents().remove(*key)
                        && final(self).stamps() == old(self).stamps().remove(*key)
                        && final(self).contents().len() == old(self).contents().len()
                            - (if old(self).contents().contains_key(*key) { 1int } else { 0int }),
                }
            },
    {
        broadcast use vstd::std_specs::hash::group_hash_axioms;
        proof { self.lemma_finite(); }
        let fresh = match self.entries.get(key) {
            Some(e) => {
                let stamp = e.1;
                let age = if now_ms >= stamp { now_ms - stamp } else { 0 };
                age < self.ttl_ms
            },
            None => {
                proof {
                    if obeys_key_model::<K>() {
                        assert(self.contents().remove(*key) =~= self.contents());
                        assert(self.stamps().remove(*key) =~= self.stamps());
                    }
                }
                return None;
            },
        };
        if fresh {
            match self.entries.get(key) {
                Some(e) => Some(&e.0),
                None => None,
            }
        } else {
            self.entries.remove(key);
            proof {
                if obeys_key_model::<K>() {
                    assert(self.contents() =~= old(self).contents().remove(*key));
                    assert(self.stamps() =~= old(self).stamps().remove(*key));
                }
            }
            None
        }
    }

    /// The value under `key` if its entry is fresh now, by the cache's clock. An entry
    /// that is no longer fresh is removed and `None` returned; which entries are fresh
    /// depends on the clock.
    pub fn get(&mut self, key: &K) -> (r: Option<&V>)
        ensures
            final(self).limit() == old(self).limit(),
            final(self).ttl() == old(self).ttl(),
            obeys_key_model::<K>() ==> match r {
                Some(v) => old(self).contents().contains_key(*key) && *v == old(self).contents()[*key]
                    && final(self).contents() == old(self).contents()
                    && final(self).stamps() == old(self).stamps(),
                None => final(self).contents() == old(self).contents().remove(*key)
                    && final(self).stamps() == old(self).stamps().remove(*key),
            },
    {
        let now = self.now_ms();
        self.get_at(key, now)
    }

    /// Insert or replace the value under `key`, stamped `now_ms`. When the cache holds
    /// `limit()` entries or more, one entry of it (the first the map yields) is evicted
    /// first, so that a cache within its limit stays within it.
    pub fn insert_at(&mut self, key: K, value: V, now_ms: u64)
        ensures
            final(self).limit() == old(self).limit(),
            final(self).ttl() == old(self).ttl(),
            obeys_key_model::<K>() ==> {
                &&& inserted(old(self).contents(), old(self).stamps(), old(self).limit(), key, value, now_ms,
                    final(self).contents(), final(self).stamps())
                &&& (old(self).contents().len() <= old(self).limit() && old(self).limit() >= 1
                    ==> final(self).contents().len() <= final(self).limit())
            },
    {
        broadcast use vstd::std_specs::hash::group_hash_axioms;
        proof {
            self.lemma_finite();
            assert(self.contents().len() == self.entries@.len()) by {
                assert(self.contents().dom() =~= self.entries@.dom());
            }
        }
        let ghost evicted: Option<K> = None;
        if self.entries.len() >= self.max_entries {
            if let Some(k) = first_key(&self.entries) {
                self.entries.remove(&k);
                proof { evicted = Some(k); }
            }
        }
        let ghost mid_c = self.contents();
        let ghost mid_s = self.stamps();
        self.entries.insert(key, (value, now_ms));
        proof {
            if obeys_key_model::<K>() {
                assert(self.contents() =~= mid_c.insert(key, value));
                assert(self.stamps() =~= mid_s.insert(key, now_ms));
                let c = old(self).contents();
                old(self).lemma_finite();
                match evicted {
                    Some(k) => {
                        assert(old(self).entries@.contains_key(k));
                        assert(c.contains_key(k));
                        assert(mid_c =~= c.remove(k));
                        assert(mid_s =~= old(self).stamps().remove(k));
                        assert(c.remove(k).len() == c.len() - 1);
                    },
                    None => {
                        assert(mid_c =~= c);
                        assert(mid_s =~= old(self).stamps());
                        if c.len() >= old(self).limit() && c.len() > 0 {
                            assert(old(self).entries@.len() > 0);
                            assert(false);
                        }
                    },
                }
                assert(mid_c.dom().finite());
                assert(mid_c.insert(key, value).len() <= mid_c.len() + 1) by {
                    if mid_c.contains_key(key) {
                        assert(mid_c.insert(key, value).dom() =~= mid_c.dom());
                    }
                }
            }
        }
    }

    /// Insert or replace the value under `key`, stamped with the cache's clock. When the
    /// cache holds `limit()` entries or more, one entry of it (the first the map yields)
    /// is evicted first, so that a cache within its limit stays within it.
    pub fn insert(&mut self, key: K, value: V)
        ensures
            final(self).limit() == old(self).limit(),
            final(self).ttl() == old(self).ttl(),
            obeys_key_model::<K>() ==> {
                &&& exists|now: u64| inserted(old(self).contents(), old(self).stamps(), old(self).limit(), key, value, now,
                    final(self).contents(), final(self).stamps())
                &&& (old(self).contents().len() <= old(self).limit() && old(self).limit() >= 1
                    ==> final(self).contents().len() <= final(self).limit())
            },
    {
        let now = self.now_ms();
        self.insert_at(key, value, now);
    }

    /// Remove the entry under `key`, returning its value, fresh or not.
    pub fn remove(&mut self, key: &K) -> (r: Option<V>)
        ensures
            final(self).limit() == old(self).limit(),
            final(self).ttl() == old(self).ttl(),
            obeys_key_model::<K>() ==> {
                &&& final(self).contents() == old(self).contents().remove(*key)
                &&& final(self).stamps() == old(self).stamps().remove(*key)
                &&& final(self).contents().len() == old(self).contents().len() - (if r is Some { 1int } else { 0int })
                &&& match r {
                    Some(v) => old(self).contents().contains_key(*key) && v == old(self).contents()[*key],
                    None => !old(self).contents().contains_key(*key),
                }
            },
    {
        broadcast use vstd::std_specs::hash::group_hash_axioms;
        proof { self.lemma_finite(); }
        let r = match self.entries.remove(key) {
            Some(e) => Some(e.0),
            None => None,
        };
        proof {
            if obeys_key_model::<K>() {
                assert(self.contents() =~= old(self).contents().remove(*key));
                assert(self.stamps() =~= old(self).stamps().remove(*key));
                if r is None {
                    assert(old(self).contents().remove(*key) =~= old(self).contents());
                }
            }
        }
        r
    }

    /// Remove every entry, returning how many there were.
    pub fn clear(&mut self) -> (r: usize)
        ensures
            final(self).contents() == Map::<K, V>::empty(),
            final(self).stamps() == Map::<K, u64>::empty(),
            final(self).limit() == old(self).limit(),
            final(self).ttl() == old(self).ttl(),
            obeys_key_model::<K>() ==> r == old(self).contents().len(),
    {
        broadcast use vstd::std_specs::hash::group_hash_axioms;
        proof {
            assert(self.contents().dom() =~= self.entries@.dom());
        }
        let count = self.entries.len();
        self.entries.clear();
        assert(self.contents() =~= Map::<K, V>::empty());
        assert(self.stamps() =~= Map::<K, u64>::empty());
        count
    }

    /// The number of entries.
    pub fn len(&self) -> (r: usize)
        ensures
            obeys_key_model::<K>() ==> r == self.contents().len(),
    {
        broadcast use vstd::std_specs::hash::group_hash_axioms;
        proof {
            assert(self.contents().dom() =~= self.entries@.dom());
        }
        self.entries.len()
    }

    /// Whether the cache holds no entry.
    pub fn is_empty(&self) -> (r: bool)
        ensures
            r == (self.contents().len() == 0),
    {
        broadcast use vstd::std_specs::hash::group_hash_axioms;
        proof {
            assert(self.contents().dom() =~= self.entries@.dom());
        }
        self.entries.is_empty()
    }

    /// The time-to-live in milliseconds.
    pub fn ttl_ms(&self) -> (r: u64)
        ensures
            r == self.ttl(),
    {
        self.ttl_ms
    }

    /// The entry limit.
    pub fn max_entries(&self) -> (r: usize)
        ensures
            r == self.limit(),
    {
        self.max_entries
    }

    /// The entry count times the size of a key, a value and a timestamp (stopping at
    /// `usize::MAX`).
    pub fn estimated_bytes(&self) -> (r: usize)
        ensures
            obeys_key_model::<K>() ==> r == (if self.contents().len() * vstd::layout::size_of::<(K, V, Instant)>() <= usize::MAX {
                self.contents().len() * vstd::layout::size_of::<(K, V, Instant)>()
            } else {
                usize::MAX as nat
            }),
    {
        let n = self.len();
        let size = core::mem::size_of::<(K, V, Instant)>();
        match n.checked_mul(size) {
            Some(b) => b,
            None => usize::MAX,
        }
    }
}

/// Keys of type `u64`, which the library's caches use, obey the key model under which the
/// contracts of `TtlCache` are stated.
pub proof fn lemma_u64_keys_obey_key_model()
    ensures
        obeys_key_model::<u64>(),
{
    broadcast use vstd::std_specs::hash::axiom_u64_obeys_hash_table_key_model;
}

/// After an insertion stamped `t0`, the entry under the key holds the inserted value and
/// stamp; so a lookup at a time `now` at which that stamp is still fresh finds the value.
pub proof fn law_inserted_entry_is_found<K, V>(
    c: Map<K, V>,
    s: Map<K, u64>,
    limit: usize,
    key: K,
    value: V,
    t0: u64,
    c2: Map<K, V>,
    s2: Map<K, u64>,
    now: u64,
    ttl: u64,
)
    requires
        inserted(c, s, limit, key, value, t0, c2, s2),
        is_fresh(t0, now, ttl),
    ensures
        c2.contains_key(key),
        c2[key] == value,
        s2.contains_key(key),
        s2[key] == t0,
        is_fresh(s2[key], now, ttl),
{
}

/// Every entry of `c` other than those under `key` and `e` is in `c2`, with the same value
/// and the same stamp.
pub open spec fn kept_except<K, V>(c: Map<K, V>, s: Map<K, u64>, c2: Map<K, V>, s2: Map<K, u64>, key: K, e: K) -> bool {
    forall|k2: K| k2 != key && k2 != e && #[trigger] c.contains_key(k2)
        ==> c2.contains_key(k2) && c2[k2] == c[k2] && s2.contains_key(k2) && s2[k2] == s[k2]
}

/// An insertion into a cache within its limit (of at least one entry) keeps it within
/// its limit; it holds the key with the new value and stamp; it adds no other key; at
/// most one other entry is evicted, and none while the cache is below its limit; every
/// other entry keeps its value and stamp.
pub proof fn law_insert_evicts_at_most_one<K, V>(
    c: Map<K, V>,
    s: Map<K, u64>,
    limit: usize,
    key: K,
    value: V,
    now: u64,
    c2: Map<K, V>,
    s2: Map<K, u64>,
)
    requires
        inserted(c, s, limit, key, value, now, c2, s2),
        c.dom().finite(),
        s.dom() == c.dom(),
        c.len() <= limit,
        limit >= 1,
    ensures
        c2.len() <= limit,
        c2.contains_key(key) && c2[key] == value && s2.contains_key(key) && s2[key] == now,
        forall|k2: K| #[trigger] c2.contains_key(k2) ==> k2 == key || c.contains_key(k2),
        exists|e: K| #[trigger] kept_except(c, s, c2, s2, key, e),
        c.len() < limit ==> kept_except(c, s, c2, s2, key, key),
{
    if c.len() >= limit && c.len() > 0 {
        let e = choose|e: K| #[trigger] c.contains_key(e)
            && c2 == c.remove(e).insert(key, value)
            && s2 == s.remove(e).insert(key, now);
        let m = c.remove(e);
        assert(m.len() == c.len() - 1);
        assert(m.insert(key, value).len() <= m.len() + 1) by {
            if m.contains_key(key) {
                assert(m.insert(key, value).dom() =~= m.dom());
            }
        }
        assert(kept_except(c, s, c2, s2, key, e));
    } else {
        assert(c.insert(key, value).len() <= c.len() + 1) by {
            if c.contains_key(key) {
                assert(c.insert(key, value).dom() =~= c.dom());
            }
        }
        assert(kept_except(c, s, c2, s2, key, key));
    }
}

} // verus!

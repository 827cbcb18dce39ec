//! The proxy's cache of API key lookups: at most a fixed number of keys, each
//! with the id, name and enabled flag the key store gave for it.
use vstd::prelude::*;
use crate::text::text_eq;
use crate::auth::{lookup_status, lookup_view, KeyLookup, LookupView};

verus! {

/// Most keys the cache holds.
pub const CACHE_CAPACITY: usize = 1000;

/// What the cache remembers of a key: its id, name and whether it is enabled.
#[derive(Debug, Clone)]
pub struct CachedKey {
    pub id: String,
    pub name: String,
    pub enabled: bool,
}

/// What a cached key is, as text.
pub open spec fn cached_view(c: CachedKey) -> (Seq<char>, Seq<char>, bool) {
    (c.id@, c.name@, c.enabled)
}

/// The cache of API key lookups.
pub struct ApiKeyCache {
    entries: Vec<(String, CachedKey)>,
}

/// The entry for `key` among the first `n` entries, if any.
pub open spec fn entry_in(entries: Seq<(String, CachedKey)>, key: Seq<char>, n: int) -> Option<(Seq<char>, Seq<char>, bool)>
    decreases n,
{
    if n <= 0 {
        None
    } else if entries[n - 1].0@ == key {
        Some(cached_view(entries[n - 1].1))
    } else {
        entry_in(entries, key, n - 1)
    }
}

impl ApiKeyCache {
    /// What the cache says of `key`.
    pub closed spec fn entry(&self, key: Seq<char>) -> Option<(Seq<char>, Seq<char>, bool)> {
        entry_in(self.entries@, key, self.entries@.len() as int)
    }

    /// Number of keys held.
    pub closed spec fn size(&self) -> nat {
        self.entries@.len()
    }

    /// Every key is held once, and no more than the capacity are held.
    #[verifier::type_invariant]
    spec fn wf(&self) -> bool {
        &&& self.entries@.len() <= CACHE_CAPACITY
        &&& forall|i: int, j: int| 0 <= i < j < self.entries@.len() ==> self.entries@[i].0@ != self.entries@[j].0@
    }
}

/// Keys of `entries` are pairwise different.
pub open spec fn distinct_keys(entries: Seq<(String, CachedKey)>) -> bool {
    forall|i: int, j: int| 0 <= i < j < entries.len() ==> entries[i].0@ != entries[j].0@
}

proof fn lemma_miss(s: Seq<(String, CachedKey)>, k: Seq<char>, n: int)
    requires
        n <= s.len(),
        forall|j: int| 0 <= j < n ==> s[j].0@ != k,
    ensures
        entry_in(s, k, n) is None,
    decreases n,
{
    if n > 0 {
        lemma_miss(s, k, n - 1);
    }
}

proof fn lemma_unique_hit(s: Seq<(String, CachedKey)>, k: Seq<char>, n: int, j: int)
    requires
        distinct_keys(s),
        0 <= j < n <= s.len(),
        s[j].0@ == k,
    ensures
        entry_in(s, k, n) == Some(cached_view(s[j].1)),
    decreases n,
{
    if j < n - 1 {
        assert(s[n - 1].0@ != k);
        lemma_unique_hit(s, k, n - 1, j);
    }
}

proof fn lemma_hit_index(s: Seq<(String, CachedKey)>, k: Seq<char>, n: int) -> (j: int)
    requires
        n <= s.len(),
        entry_in(s, k, n) is Some,
    ensures
        0 <= j < n,
        s[j].0@ == k,
        entry_in(s, k, n) == Some(cached_view(s[j].1)),
    decreases n,
{
    if s[n - 1].0@ == k {
        n - 1
    } else {
        lemma_hit_index(s, k, n - 1)
    }
}

proof fn lemma_remove_keeps_distinct(s: Seq<(String, CachedKey)>, i: int)
    requires
        distinct_keys(s),
        0 <= i < s.len(),
    ensures
        distinct_keys(s.remove(i)),
{
    let t = s.remove(i);
    assert forall|a: int, b: int| 0 <= a < b < t.len() implies t[a].0@ != t[b].0@ by {
        let fa = if a < i { a } else { a + 1 };
        let fb = if b < i { b } else { b + 1 };
        assert(t[a] == s[fa]);
        assert(t[b] == s[fb]);
    }
}

/// After removing position `i`, a key other than the removed one reads as before.
proof fn lemma_remove_entry(s: Seq<(String, CachedKey)>, i: int, k: Seq<char>)
    requires
        distinct_keys(s),
        0 <= i < s.len(),
    ensures
        s[i].0@ == k ==> entry_in(s.remove(i), k, s.len() - 1) is None,
        s[i].0@ != k ==> entry_in(s.remove(i), k, s.len() - 1) == entry_in(s, k, s.len() as int),
{
    let t = s.remove(i);
    lemma_remove_keeps_distinct(s, i);
    if entry_in(t, k, t.len() as int) is Some {
        let j = lemma_hit_index(t, k, t.len() as int);
        let fj = if j < i { j } else { j + 1 };
        assert(t[j] == s[fj]);
        lemma_unique_hit(s, k, s.len() as int, fj);
    } else if entry_in(s, k, s.len() as int) is Some {
        let j = lemma_hit_index(s, k, s.len() as int);
        if j != i {
            let tj = if j < i { j } else { j - 1 };
            assert(t[tj] == s[j]);
            lemma_unique_hit(t, k, t.len() as int, tj);
        }
    }
    if s[i].0@ == k {
        assert forall|j: int| 0 <= j < t.len() implies t[j].0@ != k by {
            let fj = if j < i { j } else { j + 1 };
            assert(t[j] == s[fj]);
        }
        lemma_miss(t, k, t.len() as int);
    }
}

proof fn lemma_prefix(s: Seq<(String, CachedKey)>, t: Seq<(String, CachedKey)>, k: Seq<char>, n: int)
    requires
        0 <= n <= s.len(),
        n <= t.len(),
        forall|j: int| 0 <= j < n ==> s[j] == t[j],
    ensures
        entry_in(s, k, n) == entry_in(t, k, n),
    decreases n,
{
    if n > 0 {
        lemma_prefix(s, t, k, n - 1);
    }
}

impl ApiKeyCache {
    /// An empty cache.
    pub fn new() -> (r: ApiKeyCache)
        ensures
            r.size() == 0,
            forall|k: Seq<char>| r.entry(k) is None,
    {
        ApiKeyCache { entries: Vec::new() }
    }

    fn position(&self, key: &str) -> (r: Option<usize>)
        ensures
            match r {
                Some(i) => i < self.entries@.len() && self.entries@[i as int].0@ == key@,
                None => forall|j: int| 0 <= j < self.entries@.len() ==> self.entries@[j].0@ != key@,
            },
    {
        let mut i: usize = 0;
        while i < self.entries.len()
            invariant
                0 <= i <= self.entries@.len(),
                forall|j: int| 0 <= j < i ==> self.entries@[j].0@ != key@,
            decreases self.entries@.len() - i,
        {
            if text_eq(self.entries[i].0.as_str(), key) {
                return Some(i);
            }
            i = i + 1;
        }
        None
    }

    /// The id, name and enabled flag cached for `key`.
    pub fn get(&self, key: &str) -> (r: Option<(String, String, bool)>)
        ensures
            match self.entry(key@) {
                Some(v) => r matches Some(t) && (t.0@, t.1@, t.2) == v,
                None => r is None,
            },
    {
        proof { use_type_invariant(self); }
        match self.position(key) {
            Some(i) => {
                proof { lemma_unique_hit(self.entries@, key@, self.entries@.len() as int, i as int); }
                let e = &self.entries[i].1;
                Some((e.id.clone(), e.name.clone(), e.enabled))
            },
            None => {
                proof { lemma_miss(self.entries@, key@, self.entries@.len() as int); }
                None
            },
        }
    }

    fn remove_at(&mut self, i: usize)
        requires
            i < old(self).entries@.len(),
        ensures
            final(self).size() == old(self).size() - 1,
            forall|k: Seq<char>| old(self).entries@[i as int].0@ == k ==> #[trigger] final(self).entry(k) is None,
            forall|k: Seq<char>| old(self).entries@[i as int].0@ != k ==> #[trigger] final(self).entry(k) == old(self).entry(k),
    {
        proof { use_type_invariant(&*self); }
        let ghost before = self.entries@;
        proof { lemma_remove_keeps_distinct(before, i as int); }
        let mut entries: Vec<(String, CachedKey)> = Vec::new();
        std::mem::swap(&mut entries, &mut self.entries);
        entries.remove(i);
        self.entries = entries;
        proof {
            lemma_remove_keeps_distinct(before, i as int);
            assert forall|k: Seq<char>| #[trigger] self.entry(k) == self.entry(k) implies
                (before[i as int].0@ == k ==> self.entry(k) is None)
                && (before[i as int].0@ != k ==> self.entry(k) == entry_in(before, k, before.len() as int)) by {
                lemma_remove_entry(before, i as int, k);
            }
        }
    }

    /// Caches `key` with its id, name and enabled flag. When the cache is
    /// full, one other key may be dropped to make room; otherwise every other
    /// key reads as before.
    pub fn set(&mut self, key: String, id: String, name: String, enabled: bool)
        ensures
            final(self).size() <= CACHE_CAPACITY,
            final(self).entry(key@) == Some((id@, name@, enabled)),
            forall|k: Seq<char>| k != key@ && (#[trigger] final(self).entry(k)) is Some ==> final(self).entry(k) == old(self).entry(k),
            old(self).size() < CACHE_CAPACITY ==> forall|k: Seq<char>| k != key@ ==> #[trigger] final(self).entry(k) == old(self).entry(k),
    {
        proof { use_type_invariant(&*self); }
        let ghost original = *self;
        if self.entries.len() >= CACHE_CAPACITY {
            self.remove_at(0);
        }
        let ghost mid = *self;
        assert(forall|k: Seq<char>| k != key@ && (#[trigger] mid.entry(k)) is Some ==> mid.entry(k) == original.entry(k));
        match self.position(key.as_str()) {
            Some(i) => { self.remove_at(i); },
            None => {
                proof { lemma_miss(self.entries@, key@, self.entries@.len() as int); }
            },
        }
        assert(self.entry(key@) is None);
        assert(forall|k: Seq<char>| k != key@ ==> #[trigger] self.entry(k) == mid.entry(k));
        proof { use_type_invariant(&*self); }
        let ghost cleared = *self;
        let ghost pre = self.entries@;
        assert(distinct_keys(pre));
        assert forall|j: int| 0 <= j < pre.len() implies pre[j].0@ != key@ by {
            if pre[j].0@ == key@ {
                lemma_unique_hit(pre, key@, pre.len() as int, j);
            }
        }
        let ghost kv = key@;
        let mut entries: Vec<(String, CachedKey)> = Vec::new();
        std::mem::swap(&mut entries, &mut self.entries);
        entries.push((key, CachedKey { id, name, enabled }));
        proof {
            assert forall|i: int, j: int| 0 <= i < j < entries@.len() implies entries@[i].0@ != entries@[j].0@ by {
                if j < pre.len() {
                    assert(entries@[i] == pre[i] && entries@[j] == pre[j]);
                } else {
                    assert(entries@[i] == pre[i]);
                }
            }
        }
        self.entries = entries;
        proof {
            let s = self.entries@;
            lemma_prefix(s, pre, kv, pre.len() as int);
            assert forall|k: Seq<char>| #[trigger] entry_in(s, k, s.len() as int) == entry_in(s, k, s.len() as int) implies
                (k != kv ==> entry_in(s, k, s.len() as int) == entry_in(pre, k, pre.len() as int)) by {
                lemma_prefix(s, pre, k, pre.len() as int);
            }
            assert forall|k: Seq<char>| k != kv && (#[trigger] self.entry(k)) is Some implies self.entry(k) == original.entry(k) by {
                lemma_prefix(s, pre, k, pre.len() as int);
                assert(cleared.entry(k) == mid.entry(k));
            }
            if original.size() < CACHE_CAPACITY {
                assert(mid == original);
                assert forall|k: Seq<char>| k != kv implies #[trigger] self.entry(k) == original.entry(k) by {
                    lemma_prefix(s, pre, k, pre.len() as int);
                    assert(cleared.entry(k) == mid.entry(k));
                }
            }
        }
    }

    /// Drops `key` from the cache.
    pub fn invalidate(&mut self, key: &str)
        ensures
            final(self).entry(key@) is None,
            forall|k: Seq<char>| k != key@ ==> #[trigger] final(self).entry(k) == old(self).entry(k),
    {
        proof { use_type_invariant(&*self); }
        match self.position(key) {
            Some(i) => { self.remove_at(i); },
            None => {
                proof { lemma_miss(self.entries@, key@, self.entries@.len() as int); }
            },
        }
    }

    /// Drops every key.
    pub fn invalidate_all(&mut self)
        ensures
            final(self).size() == 0,
            forall|k: Seq<char>| #[trigger] final(self).entry(k) is None,
    {
        self.entries = Vec::new();
    }
}

/// An admin write to the API keys that the store accepted.
#[derive(Debug, Clone)]
pub enum KeyWrite {
    /// A key was created.
    Created,
    /// The key with this text was renamed, enabled or disabled.
    Updated(String),
    /// The key with this text was deleted.
    Deleted(String),
}

/// The key an admin write changed or removed, if any.
pub open spec fn written_key(w: KeyWrite) -> Option<Seq<char>> {
    match w {
        KeyWrite::Created => None,
        KeyWrite::Updated(k) => Some(k@),
        KeyWrite::Deleted(k) => Some(k@),
    }
}

/// Whether `after` is the cache `before` once `write` is taken into account:
/// the written key is dropped and every other key reads as before.
pub open spec fn key_write_applied(before: ApiKeyCache, after: ApiKeyCache, write: KeyWrite) -> bool {
    &&& (written_key(write) matches Some(k) ==> after.entry(k) is None)
    &&& forall|k: Seq<char>| written_key(write) != Some(k) ==> #[trigger] after.entry(k) == before.entry(k)
}

/// Keeps the proxy's key cache in step with an admin write: an updated or
/// deleted key is dropped, so the next request that presents it reads the
/// stored state; a created key, never looked up yet, leaves the cache as it
/// is. No other key changes.
pub fn apply_key_write(cache: &mut ApiKeyCache, write: &KeyWrite)
    ensures
        key_write_applied(*old(cache), *final(cache), *write),
{
    match write {
        KeyWrite::Created => {},
        KeyWrite::Updated(key) => cache.invalidate(key.as_str()),
        KeyWrite::Deleted(key) => cache.invalidate(key.as_str()),
    }
}

/// What a request presenting `key` goes by: the cached entry when there is
/// one, else what the store says (`stored`).
pub open spec fn lookup_for(cache: ApiKeyCache, key: Seq<char>, stored: LookupView) -> LookupView {
    match cache.entry(key) {
        Some(v) => LookupView::Found(v.0, v.1, v.2),
        None => stored,
    }
}

/// The cache's answer for `key`, if it holds one; `None` means the store
/// must be asked.
pub fn cached_key_lookup(cache: &ApiKeyCache, key: &str) -> (r: Option<KeyLookup>)
    ensures
        match cache.entry(key@) {
            Some(v) => r matches Some(l) && lookup_view(l) == LookupView::Found(v.0, v.1, v.2),
            None => r is None,
        },
{
    match cache.get(key) {
        Some((id, name, enabled)) => Some(KeyLookup::Found(id, name, enabled)),
        None => None,
    }
}

/// Takes what the store said of `key`: a found key is cached with its id,
/// name and enabled flag; the answer is what the store said.
pub fn record_store_lookup(cache: &mut ApiKeyCache, key: String, stored: KeyLookup) -> (r: KeyLookup)
    ensures
        lookup_view(r) == lookup_view(stored),
        stored matches KeyLookup::Found(id, name, enabled) ==> final(cache).entry(key@) == Some((id@, name@, enabled)),
        !(stored is Found) ==> forall|k: Seq<char>| #[trigger] final(cache).entry(k) == old(cache).entry(k),
{
    match &stored {
        KeyLookup::Found(id, name, enabled) => {
            cache.set(key, id.clone(), name.clone(), *enabled);
        },
        _ => {},
    }
    stored
}

/// Hot update: once an admin write that updated or deleted a key has been
/// taken into the cache, the next request presenting that key is answered
/// from the store, not from what the cache held before; so a key disabled in
/// the store is refused with 403, a deleted one (unknown to the store) with
/// 401, and an enabled one passes.
pub proof fn lemma_written_key_answered_from_store(before: ApiKeyCache, after: ApiKeyCache, write: KeyWrite, stored: LookupView)
    requires
        key_write_applied(before, after, write),
        !(write is Created),
    ensures
        lookup_for(after, written_key(write).unwrap(), stored) == stored,
        lookup_status(lookup_for(after, written_key(write).unwrap(), stored)) == lookup_status(stored),
        stored matches LookupView::Found(_, _, enabled) ==> lookup_status(lookup_for(after, written_key(write).unwrap(), stored)) == if enabled { 200u16 } else { 403u16 },
        stored is Unknown ==> lookup_status(lookup_for(after, written_key(write).unwrap(), stored)) == 401,
{
}

} // verus!

//! A map from text keys to values, each key held once, and the proxy's
//! caches of channels (by id) and groups (by name) built on it.
use vstd::prelude::*;
use crate::routing::{ChannelInfo, GroupInfo};
use crate::text::text_eq;

verus! {

/// The value held under `key` among the first `n` entries.
pub open spec fn value_in<V>(entries: Seq<(String, V)>, key: Seq<char>, n: int) -> Option<V>
    decreases n,
{
    if n <= 0 {
        None
    } else if entries[n - 1].0@ == key {
        Some(entries[n - 1].1)
    } else {
        value_in(entries, key, n - 1)
    }
}

/// Keys of `entries` are pairwise different.
pub open spec fn keys_distinct<V>(entries: Seq<(String, V)>) -> bool {
    forall|i: int, j: int| 0 <= i < j < entries.len() ==> entries[i].0@ != entries[j].0@
}

proof fn lemma_absent<V>(s: Seq<(String, V)>, k: Seq<char>, n: int)
    requires
        n <= s.len(),
        forall|j: int| 0 <= j < n ==> s[j].0@ != k,
    ensures
        value_in(s, k, n) is None,
    decreases n,
{
    if n > 0 {
        lemma_absent(s, k, n - 1);
    }
}

proof fn lemma_present<V>(s: Seq<(String, V)>, k: Seq<char>, n: int, j: int)
    requires
        keys_distinct(s),
        0 <= j < n <= s.len(),
        s[j].0@ == k,
    ensures
        value_in(s, k, n) == Some(s[j].1),
    decreases n,
{
    if j < n - 1 {
        assert(s[n - 1].0@ != k);
        lemma_present(s, k, n - 1, j);
    }
}

proof fn lemma_found_at<V>(s: Seq<(String, V)>, k: Seq<char>, n: int) -> (j: int)
    requires
        n <= s.len(),
        value_in(s, k, n) is Some,
    ensures
        0 <= j < n,
        s[j].0@ == k,
        value_in(s, k, n) == Some(s[j].1),
    decreases n,
{
    if s[n - 1].0@ == k {
        n - 1
    } else {
        lemma_found_at(s, k, n - 1)
    }
}

/// After removing position `i` of distinct entries, its key is gone and
/// every other key reads as before.
proof fn lemma_removed<V>(s: Seq<(String, V)>, i: int, k: Seq<char>)
    requires
        keys_distinct(s),
        0 <= i < s.len(),
    ensures
        keys_distinct(s.remove(i)),
        s[i].0@ == k ==> value_in(s.remove(i), k, s.len() - 1) is None,
        s[i].0@ != k ==> value_in(s.remove(i), k, s.len() - 1) == value_in(s, k, s.len() as int),
{
    let t = s.remove(i);
    assert forall|a: int, b: int| 0 <= a < b < t.len() implies t[a].0@ != t[b].0@ by {
        let fa = if a < i { a } else { a + 1 };
        let fb = if b < i { b } else { b + 1 };
        assert(t[a] == s[fa] && t[b] == s[fb]);
    }
    if value_in(t, k, t.len() as int) is Some {
        let j = lemma_found_at(t, k, t.len() as int);
        let fj = if j < i { j } else { j + 1 };
        assert(t[j] == s[fj]);
        lemma_present(s, k, s.len() as int, fj);
    } else if value_in(s, k, s.len() as int) is Some {
        let j = lemma_found_at(s, k, s.len() as int);
        if j != i {
            let tj = if j < i { j } else { j - 1 };
            assert(t[tj] == s[j]);
            lemma_present(t, k, t.len() as int, tj);
        }
    }
    if s[i].0@ == k {
        assert forall|j: int| 0 <= j < t.len() implies t[j].0@ != k by {
            let fj = if j < i { j } else { j + 1 };
            assert(t[j] == s[fj]);
        }
        lemma_absent(t, k, t.len() as int);
    }
}

proof fn lemma_same_prefix<V>(s: Seq<(String, V)>, t: Seq<(String, V)>, k: Seq<char>, n: int)
    requires
        0 <= n <= s.len(),
        n <= t.len(),
        forall|j: int| 0 <= j < n ==> s[j] == t[j],
    ensures
        value_in(s, k, n) == value_in(t, k, n),
    decreases n,
{
    if n > 0 {
        lemma_same_prefix(s, t, k, n - 1);
    }
}

/// A map from text keys to values.
pub struct KeyedStore<V> {
    entries: Vec<(String, V)>,
}

impl<V> KeyedStore<V> {
    #[verifier::type_invariant]
    spec fn distinct(&self) -> bool {
        keys_distinct(self.entries@)
    }

    /// The value held under `key`.
    pub closed spec fn lookup(&self, key: Seq<char>) -> Option<V> {
        value_in(self.entries@, key, self.entries@.len() as int)
    }

    /// An empty store.
    pub fn new() -> (r: KeyedStore<V>)
        ensures
            forall|k: Seq<char>| #[trigger] r.lookup(k) is None,
    {
        KeyedStore { entries: Vec::new() }
    }

    fn position(&self, key: &str) -> (r: Option<usize>)
        ensures
            match r {
                Some(i) => i < self.entries@.len() && self.entries@[i as int].0@ == key@,
                None => forall|j: int| 0 <= j < self.entries@.len() ==> self.entries@[j].0@ != key@,
            },
    {
        let mut i: usize = 0;
        while i < self.entries.len()
            invariant
                0 <= i <= self.entries@.len(),
                forall|j: int| 0 <= j < i ==> self.entries@[j].0@ != key@,
            decreases self.entries@.len() - i,
        {
            if text_eq(self.entries[i].0.as_str(), key) {
                return Some(i);
            }
            i = i + 1;
        }
        None
    }

    /// The value held under `key`, if any.
    pub fn get(&self, key: &str) -> (r: Option<&V>)
        ensures
            match self.lookup(key@) {
                Some(v) => r == Some(&v),
                None => r is None,
            },
    {
        proof { use_type_invariant(self); }
        match self.position(key) {
            Some(i) => {
                proof { lemma_present(self.entries@, key@, self.entries@.len() as int, i as int); }
                Some(&self.entries[i].1)
            },
            None => {
                proof { lemma_absent(self.entries@, key@, self.entries@.len() as int); }
                None
            },
        }
    }

    /// Drops `key`; every other key reads as before.
    pub fn remove(&mut self, key: &str)
        ensures
            final(self).lookup(key@) is None,
            forall|k: Seq<char>| k != key@ ==> #[trigger] final(self).lookup(k) == old(self).lookup(k),
    {
        proof { use_type_invariant(&*self); }
        match self.position(key) {
            Some(i) => {
                let ghost before = self.entries@;
                proof {
                    assert forall|k: Seq<char>| true implies
                        (before[i as int].0@ == k ==> value_in(before.remove(i as int), k, before.len() - 1) is None)
                        && (before[i as int].0@ != k ==> value_in(before.remove(i as int), k, before.len() - 1)
                            == value_in(before, k, before.len() as int)) by {
                        lemma_removed(before, i as int, k);
                    }
                    lemma_removed(before, i as int, key@);
                }
                let mut entries: Vec<(String, V)> = Vec::new();
                std::mem::swap(&mut entries, &mut self.entries);
                entries.remove(i);
                self.entries = entries;
            },
            None => {
                proof { lemma_absent(self.entries@, key@, self.entries@.len() as int); }
            },
        }
    }

    /// Holds `value` under `key`, in place of any earlier value; every other
    /// key reads as before.
    pub fn insert(&mut self, key: String, value: V)
        ensures
            final(self).lookup(key@) == Some(value),
            forall|k: Seq<char>| k != key@ ==> #[trigger] final(self).lookup(k) == old(self).lookup(k),
    {
        let ghost kv = key@;
        let ghost original = *self;
        self.remove(key.as_str());
        proof { use_type_invariant(&*self); }
        let ghost mid = *self;
        let ghost pre = self.entries@;
        assert forall|j: int| 0 <= j < pre.len() implies pre[j].0@ != kv by {
            if pre[j].0@ == kv {
                lemma_present(pre, kv, pre.len() as int, j);
            }
        }
        let mut entries: Vec<(String, V)> = Vec::new();
        std::mem::swap(&mut entries, &mut self.entries);
        entries.push((key, value));
        proof {
            assert forall|i: int, j: int| 0 <= i < j < entries@.len() implies entries@[i].0@ != entries@[j].0@ by {
                if j < pre.len() {
                    assert(entries@[i] == pre[i] && entries@[j] == pre[j]);
                } else {
                    assert(entries@[i] == pre[i]);
                }
            }
            let s = entries@;
            assert forall|k: Seq<char>| k != kv implies #[trigger] value_in(s, k, s.len() as int) == value_in(pre, k, pre.len() as int) by {
                lemma_same_prefix(s, pre, k, pre.len() as int);
            }
        }
        self.entries = entries;
        proof {
            assert forall|k: Seq<char>| k != kv implies #[trigger] self.lookup(k) == original.lookup(k) by {
                assert(mid.lookup(k) == original.lookup(k));
                assert(mid.lookup(k) == value_in(pre, k, pre.len() as int));
            }
        }
    }

    /// Drops every key.
    pub fn clear(&mut self)
        ensures
            forall|k: Seq<char>| #[trigger] final(self).lookup(k) is None,
    {
        self.entries = Vec::new();
    }
}

/// The proxy's caches: channels by id and groups by name.
pub struct ProxyCache {
    channels: KeyedStore<ChannelInfo>,
    groups: KeyedStore<GroupInfo>,
}

impl ProxyCache {
    /// The cached channel with this id.
    pub closed spec fn channel(&self, id: Seq<char>) -> Option<ChannelInfo> {
        self.channels.lookup(id)
    }

    /// The cached group with this name.
    pub closed spec fn group(&self, name: Seq<char>) -> Option<GroupInfo> {
        self.groups.lookup(name)
    }

    /// Empty caches.
    pub fn new() -> (r: ProxyCache)
        ensures
            forall|k: Seq<char>| #[trigger] r.channel(k) is None,
            forall|k: Seq<char>| #[trigger] r.group(k) is None,
    {
        ProxyCache { channels: KeyedStore::new(), groups: KeyedStore::new() }
    }

    /// The cached channel with this id.
    pub fn get_channel(&self, id: &str) -> (r: Option<&ChannelInfo>)
        ensures
            match self.channel(id@) {
                Some(c) => r == Some(&c),
                None => r is None,
            },
    {
        self.channels.get(id)
    }

    /// Caches `channel` under its id; other channels and the groups stay.
    pub fn set_channel(&mut self, channel: ChannelInfo)
        ensures
            final(self).channel(channel.id@) == Some(channel),
            forall|k: Seq<char>| k != channel.id@ ==> #[trigger] final(self).channel(k) == old(self).channel(k),
            forall|k: Seq<char>| #[trigger] final(self).group(k) == old(self).group(k),
    {
        let key = channel.id.clone();
        self.channels.insert(key, channel);
    }

    /// Forgets the channel with this id; the rest stays.
    pub fn invalidate_channel(&mut self, id: &str)
        ensures
            final(self).channel(id@) is None,
            forall|k: Seq<char>| k != id@ ==> #[trigger] final(self).channel(k) == old(self).channel(k),
            forall|k: Seq<char>| #[trigger] final(self).group(k) == old(self).group(k),
    {
        self.channels.remove(id);
    }

    /// Forgets every channel; the groups stay.
    pub fn invalidate_all_channels(&mut self)
        ensures
            forall|k: Seq<char>| #[trigger] final(self).channel(k) is None,
            forall|k: Seq<char>| #[trigger] final(self).group(k) == old(self).group(k),
    {
        self.channels.clear();
    }

    /// The cached group with this name.
    pub fn get_group(&self, name: &str) -> (r: Option<&GroupInfo>)
        ensures
            match self.group(name@) {
                Some(g) => r == Some(&g),
                None => r is None,
            },
    {
        self.groups.get(name)
    }

    /// Caches `group` under its name; other groups and the channels stay.
    pub fn set_group(&mut self, group: GroupInfo)
        ensures
            final(self).group(group.name@) == Some(group),
            forall|k: Seq<char>| k != group.name@ ==> #[trigger] final(self).group(k) == old(self).group(k),
            forall|k: Seq<char>| #[trigger] final(self).channel(k) == old(self).channel(k),
    {
        let key = group.name.clone();
        self.groups.insert(key, group);
    }

    /// Forgets the group with this name; the rest stays.
    pub fn invalidate_group(&mut self, name: &str)
        ensures
            final(self).group(name@) is None,
            forall|k: Seq<char>| k != name@ ==> #[trigger] final(self).group(k) == old(self).group(k),
            forall|k: Seq<char>| #[trigger] final(self).channel(k) == old(self).channel(k),
    {
        self.groups.remove(name);
    }

    /// Forgets every group; the channels stay.
    pub fn invalidate_all_groups(&mut self)
        ensures
            forall|k: Seq<char>| #[trigger] final(self).group(k) is None,
            forall|k: Seq<char>| #[trigger] final(self).channel(k) == old(self).channel(k),
    {
        self.groups.clear();
    }
}

} // verus!

//! Bounded LRU cache for whole query responses, keyed by
//! `<capsule_path>|<tool>|<canonical_args>`.
//!
//! Entries sit in recency order, the most recently used last. `get`
//! promotes, `set` inserts or refreshes and evicts the least recently used
//! entry once the size would pass the capacity.
use vstd::prelude::*;
use vstd::string::*;

verus! {

#[derive(Debug)]
struct CacheEntry {
    key: String,
    value: String,
}

#[derive(Debug)]
pub struct QueryCache {
    capacity: usize,
    entries: Vec<CacheEntry>,
}

impl QueryCache {
    pub closed spec fn wf(self) -> bool {
        &&& self.capacity >= 1
        &&& self.entries.len() <= self.capacity
        &&& forall|i: int, j: int|
            0 <= i < j < self.entries.len() ==> (#[trigger] self.entries[i].key@)
                != (#[trigger] self.entries[j].key@)
    }

    pub closed spec fn spec_len(self) -> int {
        self.entries.len() as int
    }

    pub closed spec fn spec_capacity(self) -> int {
        self.capacity as int
    }

    pub closed spec fn spec_lookup(self, key: Seq<char>) -> Option<Seq<char>> {
        if exists|i: int| 0 <= i < self.entries.len() && (#[trigger] self.entries[i].key@) == key {
            let i = choose|i: int|
                0 <= i < self.entries.len() && (#[trigger] self.entries[i].key@) == key;
            Some(self.entries[i].value@)
        } else {
            None
        }
    }

    /// The least recently used key: the one a full cache evicts next.
    pub closed spec fn spec_oldest_key(self) -> Option<Seq<char>> {
        if self.entries.len() > 0 {
            Some(self.entries[0].key@)
        } else {
            None
        }
    }

    fn find_entry(&self, key: &String) -> (r: Option<usize>)
        requires
            self.wf(),
        ensures
            match r {
                Some(i) => i < self.entries.len() && self.entries[i as int].key@ == key@,
                None => forall|i: int|
                    0 <= i < self.entries.len() ==> (#[trigger] self.entries[i].key@) != key@,
            },
    {
        let mut i: usize = 0;
        while i < self.entries.len()
            invariant
                self.wf(),
                0 <= i <= self.entries.len(),
                forall|k: int| 0 <= k < i ==> (#[trigger] self.entries[k].key@) != key@,
            decreases self.entries.len() - i,
        {
            if self.entries[i].key.eq(key) {
                return Some(i);
            }
            i += 1;
        }
        None
    }

    /// Returns the stored value and promotes the key to most recent; no
    /// entry appears, changes or disappears.
    pub fn get(&mut self, key: &String) -> (r: Option<String>)
        requires
            old(self).wf(),
        ensures
            final(self).wf(),
            final(self).spec_len() == old(self).spec_len(),
            final(self).spec_capacity() == old(self).spec_capacity(),
            r is Some <==> old(self).spec_lookup(key@) is Some,
            r is Some ==> r.unwrap()@ == old(self).spec_lookup(key@).unwrap(),
            forall|k: Seq<char>| final(self).spec_lookup(k) == old(self).spec_lookup(k),
            r is None ==> *final(self) == *old(self),
    {
        let i = match self.find_entry(key) {
            Some(i) => i,
            None => { return None },
        };
        proof {
            assert(forall|k: int|
                0 <= k < self.entries.len() && (#[trigger] self.entries[k].key@) == key@ ==> k
                    == i);
        }
        let ghost pre = self.entries@;
        let entry = self.entries.remove(i);
        let value = entry.value.clone();
        self.entries.push(entry);
        proof {
            let post = self.entries@;
            assert(post =~= pre.remove(i as int).push(pre[i as int]));
            assert(self.entries[self.entries.len() - 1].key@ == key@);
            assert(forall|k: int|
                0 <= k < self.entries.len() && (#[trigger] self.entries[k].key@) == key@ ==> k
                    == self.entries.len() - 1);
            assert(forall|j: int|
                0 <= j < post.len() ==> (#[trigger] post[j]) == (if j < i {
                    pre[j]
                } else if j < post.len() - 1 {
                    pre[j + 1]
                } else {
                    pre[i as int]
                }));
            assert forall|k: Seq<char>| self.spec_lookup(k) == old(self).spec_lookup(k) by {
                if exists|t: int| 0 <= t < pre.len() && (#[trigger] pre[t].key@) == k {
                    let t = choose|t: int| 0 <= t < pre.len() && (#[trigger] pre[t].key@) == k;
                    let nt: int = if t == i {
                        post.len() - 1
                    } else if t < i {
                        t
                    } else {
                        t - 1
                    };
                    assert(post[nt].key@ == k && post[nt].value@ == pre[t].value@);
                    assert(forall|u: int|
                        0 <= u < post.len() && (#[trigger] post[u].key@) == k ==> u == nt);
                } else {
                    assert(forall|u: int|
                        0 <= u < post.len() ==> (#[trigger] post[u].key@) != k);
                }
            }
        }
        Some(value)
    }

    /// Inserts or refreshes a key as most recent. A refresh replaces the
    /// value in place without changing the size; a fresh insert below
    /// capacity keeps every other entry; a fresh insert at capacity drops
    /// exactly the least recently used entry.
    pub fn set(&mut self, key: String, value: String)
        requires
            old(self).wf(),
        ensures
            final(self).wf(),
            final(self).spec_capacity() == old(self).spec_capacity(),
            final(self).spec_len() <= final(self).spec_capacity(),
            final(self).spec_lookup(key@) is Some,
            final(self).spec_lookup(key@).unwrap() == value@,
            final(self).spec_len() <= old(self).spec_len() + 1,
            old(self).spec_lookup(key@) is Some ==> final(self).spec_len() == old(self).spec_len(),
            (old(self).spec_lookup(key@) is Some || old(self).spec_len() < old(self).spec_capacity()) ==> forall|k: Seq<char>|
                k != key@ ==> final(self).spec_lookup(k) == old(self).spec_lookup(k),
            (old(self).spec_lookup(key@) is None && old(self).spec_len() == old(self).spec_capacity()) ==> {
                &&& final(self).spec_lookup(old(self).spec_oldest_key().unwrap()) is None
                &&& forall|k: Seq<char>|
                    k != key@ && k != old(self).spec_oldest_key().unwrap() ==> final(self).spec_lookup(k) == old(self).spec_lookup(k)
            },
    {
        let ghost pre = self.entries@;
        let ghost had_key = self.spec_lookup(key@) is Some;
        let ghost mut hit_at: int = 0;
        match self.find_entry(&key) {
            Some(i) => {
                proof {
                    assert(forall|k: int|
                        0 <= k < self.entries.len() && k != i ==> (
                        #[trigger] self.entries[k].key@) != key@);
                    hit_at = i as int;
                }
                self.entries.remove(i);
            },
            None => {},
        }
        proof {
            assert(forall|k: int|
                0 <= k < self.entries.len() ==> (#[trigger] self.entries[k].key@) != key@);
        }
        let ghost evicting = self.entries.len() >= self.capacity;
        if self.entries.len() >= self.capacity {
            self.entries.remove(0);
        }
        self.entries.push(CacheEntry { key, value });
        proof {
            let post = self.entries@;
            let n = post.len() - 1;
            assert(post[n].key@ == key@);
            assert(forall|k: int|
                0 <= k < post.len() && (#[trigger] post[k].key@) == key@ ==> k == n);
            if had_key {
                // refresh: the old slot left, the new one arrived; the rest
                // kept their keys and values
                assert(post =~= pre.remove(hit_at).push(post[n]));
                assert(forall|j: int|
                    0 <= j < n ==> (#[trigger] post[j]) == (if j < hit_at {
                        pre[j]
                    } else {
                        pre[j + 1]
                    }));
                assert forall|k: Seq<char>| k != key@ implies self.spec_lookup(k) == old(self).spec_lookup(k) by {
                    if exists|t: int| 0 <= t < pre.len() && (#[trigger] pre[t].key@) == k {
                        let t = choose|t: int|
                            0 <= t < pre.len() && (#[trigger] pre[t].key@) == k;
                        let nt: int = if t < hit_at {
                            t
                        } else {
                            t - 1
                        };
                        assert(post[nt].key@ == k && post[nt].value@ == pre[t].value@);
                        assert(forall|u: int|
                            0 <= u < post.len() && (#[trigger] post[u].key@) == k ==> u == nt);
                    } else {
                        assert(forall|u: int|
                            0 <= u < post.len() ==> (#[trigger] post[u].key@) != k);
                    }
                }
            } else if !evicting {
                assert(post =~= pre.push(post[n]));
                assert forall|k: Seq<char>| k != key@ implies self.spec_lookup(k) == old(self).spec_lookup(k) by {
                    if exists|t: int| 0 <= t < pre.len() && (#[trigger] pre[t].key@) == k {
                        let t = choose|t: int|
                            0 <= t < pre.len() && (#[trigger] pre[t].key@) == k;
                        assert(post[t].key@ == k && post[t].value@ == pre[t].value@);
                        assert(forall|u: int|
                            0 <= u < post.len() && (#[trigger] post[u].key@) == k ==> u == t);
                    } else {
                        assert(forall|u: int|
                            0 <= u < post.len() ==> (#[trigger] post[u].key@) != k);
                    }
                }
            } else {
                // fresh insert at capacity: position zero went
                assert(post =~= pre.remove(0).push(post[n]));
                assert(forall|j: int| 0 <= j < n ==> (#[trigger] post[j]) == pre[j + 1]);
                assert(old(self).spec_oldest_key() == Some(pre[0].key@));
                assert(forall|u: int|
                    0 <= u < post.len() ==> (#[trigger] post[u].key@) != pre[0].key@);
                assert forall|k: Seq<char>|
                    k != key@ && k != pre[0].key@ implies self.spec_lookup(k) == old(self).spec_lookup(k) by {
                    if exists|t: int| 0 <= t < pre.len() && (#[trigger] pre[t].key@) == k {
                        let t = choose|t: int|
                            0 <= t < pre.len() && (#[trigger] pre[t].key@) == k;
                        assert(t != 0);
                        assert(post[t - 1].key@ == k && post[t - 1].value@ == pre[t].value@);
                        assert(forall|u: int|
                            0 <= u < post.len() && (#[trigger] post[u].key@) == k ==> u == t
                                - 1);
                    } else {
                        assert(forall|u: int|
                            0 <= u < post.len() ==> (#[trigger] post[u].key@) != k);
                    }
                }
            }
        }
    }
}

/// Makes a cache whose capacity gets a floor of one.
pub fn new_query_cache(capacity: usize) -> (r: QueryCache)
    ensures
        r.wf(),
        r.spec_len() == 0,
        r.spec_capacity() == if capacity >= 1 {
            capacity as int
        } else {
            1
        },
{
    QueryCache {
        capacity: if capacity >= 1 {
            capacity
        } else {
            1
        },
        entries: Vec::new(),
    }
}

/// The cache never holds more entries than its configured capacity.
pub proof fn lemma_cache_bounded(c: QueryCache)
    requires
        c.wf(),
    ensures
        c.spec_len() <= c.spec_capacity(),
{
}

} // verus!

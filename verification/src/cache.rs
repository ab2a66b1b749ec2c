//! A hash-keyed cache with insertion-order eviction.
//!
//! When capacity is reached, the oldest half of the entries is discarded
//! before the new entry goes in.

use vstd::prelude::*;

verus! {

/// Whether some entry carries this key.
pub open spec fn spec_cache_has<V>(entries: Seq<(u64, V)>, key: u64) -> bool {
    exists|i: int| 0 <= i < entries.len() && (#[trigger] entries[i]).0 == key
}

/// What survives the eviction step: at capacity the oldest half of `before`
/// is dropped, otherwise everything stays.
pub open spec fn spec_kept<V>(before: Seq<(u64, V)>, capacity: int) -> Seq<(u64, V)> {
    if before.len() >= capacity {
        before.skip(before.len() as int / 2)
    } else {
        before
    }
}

/// What an insert leaves behind: after the eviction step, an existing key
/// keeps its position and takes the new value, and a new key is appended.
pub open spec fn spec_inserted<V>(
    before: Seq<(u64, V)>,
    capacity: int,
    key: u64,
    value: V,
    after: Seq<(u64, V)>,
) -> bool {
    if spec_cache_has(spec_kept(before, capacity), key) {
        exists|i: int|
            0 <= i < spec_kept(before, capacity).len() && (#[trigger] spec_kept(
                before,
                capacity,
            )[i]).0 == key && after == spec_kept(before, capacity).update(i, (key, value))
    } else {
        after == spec_kept(before, capacity).push((key, value))
    }
}

/// A cache keyed by hashes, holding entries in insertion order; when it is
/// full, an insert first evicts the oldest half.
pub struct HashCache<V> {
    pub entries: Vec<(u64, V)>,
    pub capacity: usize,
}

impl<V> HashCache<V> {
    /// Keys are pairwise distinct.
    pub open spec fn wf(&self) -> bool {
        forall|i: int, j: int|
            0 <= i < j < self.entries@.len() ==> (#[trigger] self.entries@[i]).0 != (
            #[trigger] self.entries@[j]).0
    }

    pub fn new(capacity: usize) -> (r: HashCache<V>)
        ensures
            r.wf(),
            r.entries@.len() == 0,
            r.capacity == capacity,
    {
        HashCache { entries: Vec::new(), capacity }
    }

    fn find(&self, key: u64) -> (r: Option<usize>)
        ensures
            (match r {
                Some(i) => i < self.entries@.len() && self.entries@[i as int].0 == key,
                None => !spec_cache_has(self.entries@, key),
            }),
    {
        let mut i: usize = 0;
        while i < self.entries.len()
            invariant
                i <= self.entries@.len(),
                forall|j: int| 0 <= j < i ==> (#[trigger] self.entries@[j]).0 != key,
            decreases self.entries@.len() - i,
        {
            if self.entries[i].0 == key {
                return Some(i);
            }
            i += 1;
        }
        None
    }

    /// Look a value up by key.
    pub fn get(&self, key: u64) -> (r: Option<&V>)
        ensures
            (match r {
                Some(v) => exists|i: int|
                    0 <= i < self.entries@.len() && (#[trigger] self.entries@[i]).0 == key
                        && self.entries@[i].1 == *v,
                None => !spec_cache_has(self.entries@, key),
            }),
    {
        match self.find(key) {
            Some(i) => {
                proof {
                    assert(self.entries@[i as int].0 == key);
                }
                Some(&self.entries[i].1)
            },
            None => None,
        }
    }

    /// Insert a value.  At capacity, the oldest half of the entries is
    /// evicted first; an existing key keeps its position and gets the new
    /// value; a new key is appended.
    #[verifier::loop_isolation(false)]
    pub fn insert(&mut self, key: u64, value: V)
        requires
            old(self).wf(),
        ensures
            final(self).wf(),
            final(self).capacity == old(self).capacity,
            spec_inserted(
                old(self).entries@,
                old(self).capacity as int,
                key,
                value,
                final(self).entries@,
            ),
    {
        let ghost v0 = value;
        if self.entries.len() >= self.capacity {
            let ghost before = self.entries@;
            let drain_count = self.entries.len() / 2;
            let mut d: usize = 0;
            while d < drain_count
                invariant
                    d <= drain_count,
                    drain_count <= before.len(),
                    self.capacity == old(self).capacity,
                    self.entries@ =~= before.skip(d as int),
                decreases drain_count - d,
            {
                self.entries.remove(0);
                d += 1;
                proof {
                    assert(before.skip(d - 1).remove(0) =~= before.skip(d as int));
                }
            }
        }
        let ghost kept = self.entries@;
        proof {
            assert(kept == (if old(self).entries@.len() >= old(self).capacity {
                old(self).entries@.skip(old(self).entries@.len() as int / 2)
            } else {
                old(self).entries@
            }));
            assert forall|a: int, b: int|
                0 <= a < b < kept.len() implies (#[trigger] kept[a]).0 != (
            #[trigger] kept[b]).0 by {
                if old(self).entries@.len() >= old(self).capacity {
                    let d = old(self).entries@.len() as int / 2;
                    assert(kept[a] == old(self).entries@[d + a]);
                    assert(kept[b] == old(self).entries@[d + b]);
                }
            }
        }
        match self.find(key) {
            Some(i) => {
                let mut entry = self.entries.remove(i);
                entry.1 = value;
                self.entries.insert(i, entry);
                proof {
                    assert(self.entries@ =~= kept.update(i as int, (key, v0)));
                    assert(spec_cache_has(kept, key)) by {
                        assert(kept[i as int].0 == key);
                    }
                    assert forall|a: int|
                        0 <= a < self.entries@.len() implies (#[trigger] self.entries@[a]).0
                        == kept[a].0 by {}
                }
            },
            None => {
                self.entries.push((key, value));
                proof {
                    assert(self.entries@ =~= kept.push((key, v0)));
                }
            },
        }
        proof {
            if spec_cache_has(kept, key) {
                assert(exists|i: int|
                    0 <= i < kept.len() && (#[trigger] kept[i]).0 == key && self.entries@
                        == kept.update(i, (key, v0)));
            }
        }
    }
}

} // verus!

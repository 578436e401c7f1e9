//! An in-memory cache for rendered media, bounded by an entry count: when
//! full, the oldest entry makes room for the next insertion.

use crate::strings::str_eq;
use vstd::pervasive::VecAdditionalExecFns;
use vstd::prelude::*;

verus! {

/// A bounded key-value store. Entries live in insertion order; at most one
/// entry per key is ever stored.
pub struct Cache {
    store: Vec<(String, Vec<u8>)>,
    max_size: usize,
}

/// The value stored under `key` among the entries from `i` on.
pub open spec fn spec_cache_get(es: Seq<(Seq<char>, Seq<u8>)>, key: Seq<char>, i: int) -> Option<
    Seq<u8>,
>
    decreases es.len() - i,
    when 0 <= i
{
    if i >= es.len() {
        None
    } else if es[i].0 == key {
        Some(es[i].1)
    } else {
        spec_cache_get(es, key, i + 1)
    }
}

/// The entries after storing `key = value`: a full store first drops its
/// front entry, and then the first entry under `key` is replaced, or a new
/// entry appended.
pub open spec fn spec_cache_set(
    es: Seq<(Seq<char>, Seq<u8>)>,
    max: int,
    key: Seq<char>,
    value: Seq<u8>,
) -> Seq<(Seq<char>, Seq<u8>)> {
    let base = if es.len() >= max && es.len() > 0 {
        es.skip(1)
    } else {
        es
    };
    spec_entries_put(base, key, value, 0)
}

/// `es` with the first entry under `key` replaced by `value`, or the pair
/// appended when no entry holds the key.
pub open spec fn spec_entries_put(
    es: Seq<(Seq<char>, Seq<u8>)>,
    key: Seq<char>,
    value: Seq<u8>,
    i: int,
) -> Seq<(Seq<char>, Seq<u8>)>
    decreases es.len() - i,
    when 0 <= i
{
    if i >= es.len() {
        es.push((key, value))
    } else if es[i].0 == key {
        es.update(i, (key, value))
    } else {
        spec_entries_put(es, key, value, i + 1)
    }
}

impl Cache {
    /// The entries held, oldest first.
    pub closed spec fn entries(&self) -> Seq<(Seq<char>, Seq<u8>)> {
        self.store@.map_values(|e: (String, Vec<u8>)| (e.0@, e.1@))
    }

    /// The bound on the entry count.
    pub closed spec fn capacity(&self) -> int {
        self.max_size as int
    }

    /// An empty cache bounded by `max_size` entries.
    pub fn new(max_size: usize) -> (r: Self)
        ensures
            r.entries() == Seq::<(Seq<char>, Seq<u8>)>::empty(),
            r.capacity() == max_size,
    {
        let r = Cache { store: Vec::new(), max_size };
        proof {
            assert(r.entries() =~= Seq::<(Seq<char>, Seq<u8>)>::empty());
        }
        r
    }

    /// The value cached under `key`, if any.
    pub fn get(&self, key: &str) -> (r: Option<&Vec<u8>>)
        ensures
            match r {
                Some(v) => spec_cache_get(self.entries(), key@, 0) == Some(v@),
                None => spec_cache_get(self.entries(), key@, 0) is None,
            },
    {
        self.get_from(key, 0)
    }

    fn get_from(&self, key: &str, i: usize) -> (r: Option<&Vec<u8>>)
        requires
            i <= self.store@.len(),
        ensures
            match r {
                Some(v) => spec_cache_get(self.entries(), key@, i as int) == Some(v@),
                None => spec_cache_get(self.entries(), key@, i as int) is None,
            },
        decreases self.store@.len() - i,
    {
        if i >= self.store.len() {
            None
        } else if str_eq(self.store[i].0.as_str(), key) {
            proof {
                assert(self.entries()[i as int].0 == key@);
            }
            Some(&self.store[i].1)
        } else {
            proof {
                assert(self.entries()[i as int].0 != key@);
            }
            self.get_from(key, i + 1)
        }
    }

    /// Stores `value` under `key`, evicting the oldest entry when the cache
    /// is full; storing always succeeds.
    pub fn set(&mut self, key: String, value: Vec<u8>) -> (r: bool)
        ensures
            r,
            final(self).entries() == spec_cache_set(
                old(self).entries(),
                old(self).capacity(),
                key@,
                value@,
            ),
            final(self).capacity() == old(self).capacity(),
    {
        if self.store.len() >= self.max_size {
            if self.store.len() > 0 {
                self.store.remove(0);
                proof {
                    assert(self.entries() =~= old(self).entries().skip(1));
                }
            }
        }
        let ghost base = self.entries();
        self.put_from(key, value, 0);
        true
    }

    fn put_from(&mut self, key: String, value: Vec<u8>, i: usize)
        requires
            i <= old(self).store@.len(),
        ensures
            final(self).entries() == spec_entries_put(
                old(self).entries(),
                key@,
                value@,
                i as int,
            ),
            final(self).max_size == old(self).max_size,
        decreases old(self).store@.len() - i,
    {
        if i >= self.store.len() {
            let ghost pre = self.entries();
            self.store.push((key, value));
            proof {
                assert(self.entries() =~= pre.push((key@, value@)));
            }
        } else if str_eq(self.store[i].0.as_str(), key.as_str()) {
            let ghost pre = self.entries();
            proof {
                assert(pre[i as int].0 == key@);
            }
            self.store.set(i, (key, value));
            proof {
                assert(self.entries() =~= pre.update(i as int, (key@, value@)));
            }
        } else {
            proof {
                assert(self.entries()[i as int].0 != key@);
            }
            self.put_from(key, value, i + 1);
        }
    }

    /// Drops every entry.
    pub fn clear(&mut self)
        ensures
            final(self).entries() == Seq::<(Seq<char>, Seq<u8>)>::empty(),
            final(self).capacity() == old(self).capacity(),
    {
        self.store.clear();
        proof {
            assert(self.entries() =~= Seq::<(Seq<char>, Seq<u8>)>::empty());
        }
    }

    /// How many entries the cache holds.
    pub fn len(&self) -> (r: usize)
        ensures
            r == self.entries().len(),
    {
        self.store.len()
    }

    /// Whether the cache holds no entry.
    pub fn is_empty(&self) -> (r: bool)
        ensures
            r == (self.entries().len() == 0),
    {
        self.store.is_empty()
    }
}

impl Default for Cache {
    /// A cache bounded by a thousand entries.
    fn default() -> (r: Self)
        ensures
            r.entries() == Seq::<(Seq<char>, Seq<u8>)>::empty(),
            r.capacity() == 1000,
    {
        Cache::new(1000)
    }
}

} // verus!

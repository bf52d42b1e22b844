//! An in-memory cache of text values that keeps the most recently used
//! entries, on top of `lru::LruCache`.

use vstd::prelude::*;
use std::num::NonZeroUsize;
use lru::LruCache;

verus! {

/// The cache's type.
pub type TextLru = LruCache<String, String>;

/// The entries, least recently used first.
pub uninterp spec fn lru_order(c: TextLru) -> Seq<(Seq<char>, Seq<char>)>;

/// The most entries the cache holds.
pub uninterp spec fn lru_capacity(c: TextLru) -> nat;

/// No key appears twice.
pub open spec fn keys_unique(s: Seq<(Seq<char>, Seq<char>)>) -> bool {
    forall|i: int, j: int| 0 <= i < j < s.len() ==> s[i].0 != s[j].0
}

/// The shape every cache keeps: distinct keys, at most its capacity.
pub open spec fn lru_shape(c: TextLru) -> bool {
    &&& keys_unique(lru_order(c))
    &&& lru_order(c).len() <= lru_capacity(c)
    &&& lru_capacity(c) > 0
}

/// The position of `key`, if cached.
pub open spec fn key_at(s: Seq<(Seq<char>, Seq<char>)>, key: Seq<char>) -> Option<int> {
    if exists|i: int| 0 <= i < s.len() && s[i].0 == key {
        Some(choose|i: int| 0 <= i < s.len() && s[i].0 == key)
    } else {
        None
    }
}

/// The entries after a use of the entry at `i`: it becomes the most recent.
pub open spec fn touch(s: Seq<(Seq<char>, Seq<char>)>, i: int) -> Seq<(Seq<char>, Seq<char>)> {
    s.remove(i).push(s[i])
}

/// The entries after storing `value` under `key` in a cache of capacity
/// `cap`: an entry with that key is replaced and becomes the most recent;
/// otherwise, when the cache is full, the least recent entry leaves.
pub open spec fn lru_put(s: Seq<(Seq<char>, Seq<char>)>, key: Seq<char>, value: Seq<char>, cap: nat) -> Seq<(Seq<char>, Seq<char>)> {
    match key_at(s, key) {
        Some(i) => s.remove(i).push((key, value)),
        None => if s.len() >= cap { s.drop_first().push((key, value)) } else { s.push((key, value)) },
    }
}

/// `LruCache::new` with capacity `cap`, which is nonzero so that the
/// `NonZeroUsize` is made without failing: an empty cache.
#[verifier::external_body]
fn lru_new(cap: usize) -> (c: TextLru)
    requires
        cap > 0,
    ensures
        lru_order(c).len() == 0,
        lru_capacity(c) == cap,
        lru_shape(c),
{
    LruCache::new(NonZeroUsize::new(cap).unwrap())
}

/// `LruCache::get`: the value under `key`, which becomes the most
/// recently used entry.
#[verifier::external_body]
fn lru_get(c: &mut TextLru, key: &String) -> (r: Option<String>)
    ensures
        lru_capacity(*final(c)) == lru_capacity(*old(c)),
        lru_shape(*old(c)) ==> lru_shape(*final(c)),
        match key_at(lru_order(*old(c)), key@) {
            Some(i) => r is Some && r->0@ == lru_order(*old(c))[i].1 && lru_order(*final(c)) == touch(lru_order(*old(c)), i),
            None => r is None && lru_order(*final(c)) == lru_order(*old(c)),
        },
{
    c.get(key).cloned()
}

/// `LruCache::peek`: the value under `key`, leaving the order of use alone.
#[verifier::external_body]
fn lru_peek(c: &TextLru, key: &String) -> (r: Option<String>)
    ensures
        match key_at(lru_order(*c), key@) {
            Some(i) => r is Some && r->0@ == lru_order(*c)[i].1,
            None => r is None,
        },
{
    c.peek(key).cloned()
}

/// `LruCache::put`: stores `value` under `key` as the most recently used
/// entry (see `lru_put`).
#[verifier::external_body]
fn lru_store(c: &mut TextLru, key: String, value: String)
    ensures
        lru_capacity(*final(c)) == lru_capacity(*old(c)),
        lru_shape(*old(c)) ==> lru_shape(*final(c)),
        lru_order(*final(c)) == lru_put(lru_order(*old(c)), key@, value@, lru_capacity(*old(c))),
{
    c.put(key, value);
}

/// `LruCache::pop`: takes the entry under `key` out, returning its value.
#[verifier::external_body]
fn lru_pop(c: &mut TextLru, key: &String) -> (r: Option<String>)
    ensures
        lru_capacity(*final(c)) == lru_capacity(*old(c)),
        lru_shape(*old(c)) ==> lru_shape(*final(c)),
        match key_at(lru_order(*old(c)), key@) {
            Some(i) => r is Some && r->0@ == lru_order(*old(c))[i].1 && lru_order(*final(c)) == lru_order(*old(c)).remove(i),
            None => r is None && lru_order(*final(c)) == lru_order(*old(c)),
        },
{
    c.pop(key)
}

/// `LruCache::clear`: removes every entry.
#[verifier::external_body]
fn lru_clear(c: &mut TextLru)
    ensures
        lru_capacity(*final(c)) == lru_capacity(*old(c)),
        lru_order(*final(c)).len() == 0,
        lru_shape(*old(c)) ==> lru_shape(*final(c)),
{
    c.clear();
}

/// `LruCache::len`: the number of entries.
#[verifier::external_body]
fn lru_len(c: &TextLru) -> (n: usize)
    ensures
        n == lru_order(*c).len(),
{
    c.len()
}

/// `LruCache::is_empty`: whether there is no entry.
#[verifier::external_body]
fn lru_is_empty(c: &TextLru) -> (b: bool)
    ensures
        b == (lru_order(*c).len() == 0),
{
    c.is_empty()
}

/// A cache of text values keeping the `capacity` most recently used entries.
pub struct MemoryCache {
    cache: TextLru,
}

impl MemoryCache {
    /// The entries, least recently used first.
    pub closed spec fn entries(&self) -> Seq<(Seq<char>, Seq<char>)> {
        lru_order(self.cache)
    }

    /// The most entries kept.
    pub closed spec fn capacity(&self) -> nat {
        lru_capacity(self.cache)
    }

    /// Keys are distinct and the cache within its capacity.
    pub closed spec fn wf(&self) -> bool {
        lru_shape(self.cache)
    }

    /// A well-formed cache keeps its keys distinct and stays within its
    /// capacity.
    pub proof fn lemma_shape(&self)
        requires
            self.wf(),
        ensures
            keys_unique(self.entries()),
            self.entries().len() <= self.capacity(),
            self.capacity() > 0,
    {
    }

    /// An empty cache keeping up to `capacity` entries; the capacity must
    /// not be zero.
    pub fn new(capacity: usize) -> (c: Self)
        requires
            capacity > 0,
        ensures
            c.wf(),
            c.entries().len() == 0,
            c.capacity() == capacity,
    {
        MemoryCache { cache: lru_new(capacity) }
    }

    /// The value under `key`, which becomes the most recently used entry.
    pub fn get(&mut self, key: &String) -> (r: Option<String>)
        requires
            old(self).wf(),
        ensures
            final(self).wf(),
            final(self).capacity() == old(self).capacity(),
            match key_at(old(self).entries(), key@) {
                Some(i) => r is Some && r->0@ == old(self).entries()[i].1 && final(self).entries() == touch(old(self).entries(), i),
                None => r is None && final(self).entries() == old(self).entries(),
            },
    {
        lru_get(&mut self.cache, key)
    }

    /// The value under `key`, leaving the order of use alone.
    pub fn peek(&self, key: &String) -> (r: Option<String>)
        ensures
            match key_at(self.entries(), key@) {
                Some(i) => r is Some && r->0@ == self.entries()[i].1,
                None => r is None,
            },
    {
        lru_peek(&self.cache, key)
    }

    /// Stores `value` under `key` as the most recently used entry; when the
    /// key is new and the cache is full, the least recently used entry
    /// leaves.
    pub fn put(&mut self, key: String, value: String)
        requires
            old(self).wf(),
        ensures
            final(self).wf(),
            final(self).capacity() == old(self).capacity(),
            final(self).entries() == lru_put(old(self).entries(), key@, value@, old(self).capacity()),
    {
        lru_store(&mut self.cache, key, value);
    }

    /// Takes the entry under `key` out, returning its value.
    pub fn remove(&mut self, key: &String) -> (r: Option<String>)
        requires
            old(self).wf(),
        ensures
            final(self).wf(),
            final(self).capacity() == old(self).capacity(),
            match key_at(old(self).entries(), key@) {
                Some(i) => r is Some && r->0@ == old(self).entries()[i].1 && final(self).entries() == old(self).entries().remove(i),
                None => r is None && final(self).entries() == old(self).entries(),
            },
    {
        lru_pop(&mut self.cache, key)
    }

    /// Removes every entry.
    pub fn clear(&mut self)
        requires
            old(self).wf(),
        ensures
            final(self).wf(),
            final(self).capacity() == old(self).capacity(),
            final(self).entries().len() == 0,
    {
        lru_clear(&mut self.cache);
    }

    /// Number of entries.
    pub fn len(&self) -> (n: usize)
        ensures
            n == self.entries().len(),
    {
        lru_len(&self.cache)
    }

    /// Whether there is no entry.
    pub fn is_empty(&self) -> (b: bool)
        ensures
            b == (self.entries().len() == 0),
    {
        lru_is_empty(&self.cache)
    }
}

} // verus!

//! A bounded key-to-bytes store with least-recently-used eviction, shared
//! across requests. Entries are never mutated in place; a key maps to at most
//! one value at any instant; the entry count never exceeds the capacity the
//! cache was created with.
//!
//! The store itself is `lru::LruCache`, kept behind trusted wrappers whose
//! contracts speak of `cache_entries`: the held (key, bytes) pairs in recency
//! order, most recently used first.

use vstd::prelude::*;
use crate::errors::FetchError;

verus! {

/// The entries a cache holds, as (key, bytes) pairs ordered by recency of
/// use, most recently used first.
pub uninterp spec fn cache_entries(c: Cache) -> Seq<(u64, Seq<u8>)>;

/// The fixed maximum entry count the cache was created with.
pub uninterp spec fn cache_capacity(c: Cache) -> nat;

/// A bounded LRU mapping from 64-bit fingerprints to raw source bytes.
#[verifier::external_body]
pub struct Cache {
    inner: lru::LruCache<u64, Vec<u8>>,
}

/// The position of `k` in `s`, or -1 if no entry carries that key.
pub open spec fn key_index(s: Seq<(u64, Seq<u8>)>, k: u64) -> int
    decreases s.len(),
{
    if s.len() == 0 {
        -1
    } else if s[0].0 == k {
        0
    } else if key_index(s.skip(1), k) < 0 {
        -1
    } else {
        key_index(s.skip(1), k) + 1
    }
}

pub open spec fn has_key(s: Seq<(u64, Seq<u8>)>, k: u64) -> bool {
    key_index(s, k) >= 0
}

/// No two entries carry the same key.
pub open spec fn distinct_keys(s: Seq<(u64, Seq<u8>)>) -> bool {
    forall|i: int, j: int| 0 <= i < j < s.len() ==> s[i].0 != s[j].0
}

/// Recency update on a hit: the entry for `k`, if any, moves to the front.
pub open spec fn touch(s: Seq<(u64, Seq<u8>)>, k: u64) -> Seq<(u64, Seq<u8>)> {
    if has_key(s, k) {
        seq![s[key_index(s, k)]] + s.remove(key_index(s, k))
    } else {
        s
    }
}

/// Insertion: an existing entry for `k` is replaced and moved to the front;
/// otherwise the new entry goes to the front, evicting the least recently
/// used entry (the last) if the cache is at capacity.
pub open spec fn put_model(s: Seq<(u64, Seq<u8>)>, k: u64, v: Seq<u8>, cap: nat) -> Seq<
    (u64, Seq<u8>),
> {
    if has_key(s, k) {
        seq![(k, v)] + s.remove(key_index(s, k))
    } else if s.len() < cap {
        seq![(k, v)] + s
    } else {
        seq![(k, v)] + s.drop_last()
    }
}

/// Well-formedness: keys are unique, the capacity is positive, and the entry
/// count is within the capacity.
pub open spec fn cache_wf(c: &Cache) -> bool {
    &&& distinct_keys(cache_entries(*c))
    &&& 1 <= cache_capacity(*c)
    &&& cache_entries(*c).len() <= cache_capacity(*c)
}

proof fn lemma_key_index(s: Seq<(u64, Seq<u8>)>, k: u64)
    ensures
        key_index(s, k) >= 0 ==> 0 <= key_index(s, k) < s.len() && s[key_index(s, k)].0 == k,
        key_index(s, k) < 0 ==> forall|i: int| 0 <= i < s.len() ==> s[i].0 != k,
    decreases s.len(),
{
    if s.len() == 0 {
    } else if s[0].0 == k {
    } else {
        lemma_key_index(s.skip(1), k);
        if key_index(s.skip(1), k) < 0 {
            assert forall|i: int| 0 <= i < s.len() implies s[i].0 != k by {
                if i > 0 {
                    assert(s.skip(1)[i - 1] == s[i]);
                }
            }
        } else {
            assert(s.skip(1)[key_index(s.skip(1), k)] == s[key_index(s, k)]);
        }
    }
}

proof fn lemma_touch_wf(s: Seq<(u64, Seq<u8>)>, k: u64)
    requires
        distinct_keys(s),
    ensures
        distinct_keys(touch(s, k)),
        touch(s, k).len() == s.len(),
{
    if has_key(s, k) {
        lemma_key_index(s, k);
        let i = key_index(s, k);
        let t = seq![s[i]] + s.remove(i);
        assert(t.len() == s.len());
        assert forall|p: int, q: int| 0 <= p < q < t.len() implies t[p].0 != t[q].0 by {
            lemma_removed_index(s, i, q - 1);
            if p > 0 {
                lemma_removed_index(s, i, p - 1);
            }
        }
    }
}

/// Relates the entries of `s.remove(i)` back to entries of `s`: index `j` of
/// the shortened sequence is `s[j]` before the removal point and `s[j + 1]`
/// after it.
proof fn lemma_removed_index(s: Seq<(u64, Seq<u8>)>, i: int, j: int)
    requires
        0 <= i < s.len(),
        0 <= j < s.len() - 1,
    ensures
        j < i ==> s.remove(i)[j] == s[j],
        j >= i ==> s.remove(i)[j] == s[j + 1],
{
    assert(s.remove(i) == s.subrange(0, i) + s.subrange(i + 1, s.len() as int));
}

proof fn lemma_put_wf(s: Seq<(u64, Seq<u8>)>, k: u64, v: Seq<u8>, cap: nat)
    requires
        distinct_keys(s),
        s.len() <= cap,
        1 <= cap,
    ensures
        distinct_keys(put_model(s, k, v, cap)),
        put_model(s, k, v, cap).len() <= cap,
        has_key(put_model(s, k, v, cap), k),
{
    let t = put_model(s, k, v, cap);
    assert(t[0].0 == k);
    assert(has_key(t, k));
    if has_key(s, k) {
        lemma_key_index(s, k);
        let i = key_index(s, k);
        assert(t.len() == s.len());
        assert forall|p: int, q: int| 0 <= p < q < t.len() implies t[p].0 != t[q].0 by {
            lemma_removed_index(s, i, q - 1);
            if p > 0 {
                lemma_removed_index(s, i, p - 1);
            }
        }
    } else {
        lemma_key_index(s, k);
        assert forall|p: int, q: int| 0 <= p < q < t.len() implies t[p].0 != t[q].0 by {
            assert(t[q] == s[q - 1]);
            if p > 0 {
                assert(t[p] == s[p - 1]);
            }
        }
    }
}

impl Cache {
    /// Relies on lru::LruCache::new: an empty cache bounded at `capacity`
    /// entries.
    #[verifier::external_body]
    fn lru_new(capacity: usize) -> (c: Cache)
        requires
            1 <= capacity,
        ensures
            cache_entries(c) == Seq::<(u64, Seq<u8>)>::empty(),
            cache_capacity(c) == capacity,
    {
        Cache { inner: lru::LruCache::new(std::num::NonZeroUsize::new(capacity).unwrap()) }
    }

    /// Relies on lru::LruCache::get: returns the value stored for the key,
    /// if any, and moves that entry to the head of the recency list.
    #[verifier::external_body]
    fn lru_get(&mut self, key: u64) -> (r: Option<Vec<u8>>)
        ensures
            cache_capacity(*final(self)) == cache_capacity(*old(self)),
            has_key(cache_entries(*old(self)), key) ==> {
                &&& (r matches Some(v) && v@ == cache_entries(*old(self))[key_index(
                    cache_entries(*old(self)),
                    key,
                )].1)
                &&& cache_entries(*final(self)) == touch(cache_entries(*old(self)), key)
            },
            !has_key(cache_entries(*old(self)), key) ==> {
                &&& r is None
                &&& cache_entries(*final(self)) == cache_entries(*old(self))
            },
    {
        match self.inner.get(&key) {
            Some(v) => Some(v.clone()),
            None => None,
        }
    }

    /// Relies on lru::LruCache::put: replaces the value of an existing key,
    /// or inserts at the head, evicting the tail (least recently used) entry
    /// when the cache is full.
    #[verifier::external_body]
    fn lru_put(&mut self, key: u64, value: Vec<u8>)
        ensures
            cache_capacity(*final(self)) == cache_capacity(*old(self)),
            cache_entries(*final(self)) == put_model(
                cache_entries(*old(self)),
                key,
                value@,
                cache_capacity(*old(self)),
            ),
    {
        self.inner.put(key, value);
    }

    /// Relies on lru::LruCache::len: the current number of entries.
    #[verifier::external_body]
    fn lru_len(&self) -> (n: usize)
        ensures
            n == cache_entries(*self).len(),
    {
        self.inner.len()
    }

    /// Relies on lru::LruCache::contains: whether the key is present, with
    /// no recency update.
    #[verifier::external_body]
    fn lru_contains(&self, key: u64) -> (r: bool)
        ensures
            r == has_key(cache_entries(*self), key),
    {
        self.inner.contains(&key)
    }

    /// Creates an empty, well-formed cache bounded at `capacity` entries.
    pub fn new(capacity: usize) -> (c: Cache)
        requires
            1 <= capacity,
        ensures
            cache_entries(c) == Seq::<(u64, Seq<u8>)>::empty(),
            cache_capacity(c) == capacity,
            cache_wf(&c),
    {
        Self::lru_new(capacity)
    }

    /// The current number of entries; never exceeds the capacity of a
    /// well-formed cache.
    pub fn len(&self) -> (n: usize)
        ensures
            n == cache_entries(*self).len(),
            cache_wf(self) ==> n <= cache_capacity(*self),
    {
        self.lru_len()
    }

    /// Whether an entry for `key` is present. Reads without updating recency.
    pub fn contains(&self, key: u64) -> (r: bool)
        ensures
            r == has_key(cache_entries(*self), key),
    {
        self.lru_contains(key)
    }

    /// Returns the bytes stored under `key`, fetching them on a miss.
    ///
    /// On a hit the stored bytes are returned and the entry becomes the most
    /// recently used; `fetch` plays no part in the outcome and is never
    /// invoked — so its precondition is owed only on a miss. On a miss
    /// `fetch` is invoked once: on success the result is stored under `key`
    /// (evicting the least recently used entry if the cache is at capacity)
    /// and returned; on failure nothing is stored and the error is
    /// propagated.
    pub fn get_or_fetch<F: FnOnce() -> Result<Vec<u8>, FetchError>>(
        &mut self,
        key: u64,
        fetch: F,
    ) -> (r: Result<Vec<u8>, FetchError>)
        requires
            !has_key(cache_entries(*old(self)), key) ==> call_requires(fetch, ()),
        ensures
            cache_capacity(*final(self)) == cache_capacity(*old(self)),
            has_key(cache_entries(*old(self)), key) ==> {
                &&& (r matches Ok(v) && v@ == cache_entries(*old(self))[key_index(
                    cache_entries(*old(self)),
                    key,
                )].1)
                &&& cache_entries(*final(self)) == touch(cache_entries(*old(self)), key)
            },
            !has_key(cache_entries(*old(self)), key) ==> {
                &&& call_ensures(fetch, (), r)
                &&& (r matches Ok(v) ==> cache_entries(*final(self)) == put_model(
                    cache_entries(*old(self)),
                    key,
                    v@,
                    cache_capacity(*old(self)),
                ))
                &&& (r is Err ==> cache_entries(*final(self)) == cache_entries(*old(self)))
            },
            cache_wf(&*old(self)) ==> cache_wf(&*final(self)),
            r is Ok ==> has_key(cache_entries(*final(self)), key),
    {
        proof {
            if cache_wf(&*old(self)) {
                lemma_touch_wf(cache_entries(*old(self)), key);
            }
        }
        match self.lru_get(key) {
            Some(v) => {
                proof {
                    lemma_key_index(cache_entries(*old(self)), key);
                    assert(cache_entries(*final(self))[0].0 == key);
                }
                Ok(v)
            },
            None => {
                match fetch() {
                    Ok(v) => {
                        proof {
                            if cache_wf(&*old(self)) {
                                lemma_put_wf(
                                    cache_entries(*old(self)),
                                    key,
                                    v@,
                                    cache_capacity(*old(self)),
                                );
                            }
                        }
                        let copy = clone_bytes(&v);
                        self.lru_put(key, copy);
                        proof {
                            assert(cache_entries(*final(self))[0].0 == key);
                        }
                        Ok(v)
                    },
                    Err(e) => Err(e),
                }
            },
        }
    }
}

/// A byte-for-byte copy; the cache stores the copy and hands the original
/// back to the caller.
fn clone_bytes(v: &Vec<u8>) -> (r: Vec<u8>)
    ensures
        r@ == v@,
{
    let mut r: Vec<u8> = Vec::new();
    let mut i: usize = 0;
    while i < v.len()
        invariant
            0 <= i <= v@.len(),
            r@ == v@.take(i as int),
        decreases v@.len() - i,
    {
        r.push(v[i]);
        i = i + 1;
    }
    proof {
        assert(v@.take(v@.len() as int) =~= v@);
    }
    r
}

/// LRU correctness: in a cache of capacity 2, after inserting `a` and `b`,
/// touching `a`, and inserting a third distinct key `c`, the evicted entry is
/// `b` (the least recently used), while `a` and `c` remain.
pub proof fn lemma_lru_evicts_least_recently_used(
    a: u64,
    b: u64,
    c: u64,
    va: Seq<u8>,
    vb: Seq<u8>,
    vc: Seq<u8>,
)
    requires
        a != b,
        a != c,
        b != c,
    ensures
        ({
            let s1 = put_model(Seq::empty(), a, va, 2);
            let s2 = put_model(s1, b, vb, 2);
            let s3 = touch(s2, a);
            let s4 = put_model(s3, c, vc, 2);
            &&& !has_key(s4, b)
            &&& has_key(s4, a)
            &&& has_key(s4, c)
        }),
{
    reveal_with_fuel(key_index, 4);
    let s0 = Seq::<(u64, Seq<u8>)>::empty();
    let s1 = put_model(s0, a, va, 2);
    assert(s1 =~= seq![(a, va)]);
    assert(s1.skip(1) =~= s0);
    assert(key_index(s1, b) == -1);
    let s2 = put_model(s1, b, vb, 2);
    assert(s2 =~= seq![(b, vb), (a, va)]);
    assert(s2.skip(1) =~= seq![(a, va)]);
    assert(s2.skip(1).skip(1) =~= s0);
    assert(key_index(s2, a) == 1);
    let s3 = touch(s2, a);
    assert(s2.remove(1) =~= seq![(b, vb)]);
    assert(s3 =~= seq![(a, va), (b, vb)]);
    assert(s3.skip(1) =~= seq![(b, vb)]);
    assert(s3.skip(1).skip(1) =~= s0);
    assert(key_index(s3, c) == -1);
    let s4 = put_model(s3, c, vc, 2);
    assert(s3.drop_last() =~= seq![(a, va)]);
    assert(s4 =~= seq![(c, vc), (a, va)]);
    assert(s4.skip(1) =~= seq![(a, va)]);
    assert(s4.skip(1).skip(1) =~= s0);
    assert(key_index(s4, b) == -1);
    assert(key_index(s4, a) == 1);
    assert(key_index(s4, c) == 0);
}

} // verus!

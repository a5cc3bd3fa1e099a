//! Bounded least-recently-used authorization cache: maps a proxied-device
//! name to the definitive authorization outcome computed for it (a granted
//! device identity, or an explicit denial). The store is `clru::CLruCache`,
//! which Verus does not read; what its operations do to the contents is
//! stated by the trusted operations below and checked against that crate's
//! source.

use vstd::prelude::*;
use crate::kvseq::{distinct_keys, has_key, key_find, lemma_key_find, lemma_key_find_present,
    lemma_key_find_unique, lemma_promote_distinct, promote};
use crate::types::DeviceIdentity;

verus! {

/// A cached authorization outcome: a granted identity, or a denial marker.
/// A grant and a denial for the same key are mutually exclusive by type.
pub struct DeviceCacheEntry {
    pub device: Option<DeviceIdentity>,
}

impl View for DeviceCacheEntry {
    type V = Option<Seq<char>>;

    open spec fn view(&self) -> Option<Seq<char>> {
        match self.device {
            Some(d) => Some(d@),
            None => None,
        }
    }
}

impl Clone for DeviceCacheEntry {
    fn clone(&self) -> (r: Self)
        ensures
            r == *self,
    {
        match &self.device {
            Some(d) => DeviceCacheEntry { device: Some(d.clone()) },
            None => DeviceCacheEntry { device: None },
        }
    }
}

/// The bounded least-recently-used store. Opaque to Verus; its contents and
/// capacity are spoken of through `cache_entries` and `cache_capacity`.
#[verifier::external_body]
pub struct AuthCache {
    inner: clru::CLruCache<String, DeviceCacheEntry>,
}

/// The cached pairs, most recently used first.
pub uninterp spec fn cache_entries(c: AuthCache) -> Seq<(Seq<char>, Option<Seq<char>>)>;

/// The bound the cache was created with.
pub uninterp spec fn cache_capacity(c: AuthCache) -> nat;

/// What `put` does to the contents: an existing key is updated and moved to
/// the front; a new key is inserted at the front, evicting the back (least
/// recently used) pair when the cache is full.
pub open spec fn spec_put(
    m: Seq<(Seq<char>, Option<Seq<char>>)>,
    k: Seq<char>,
    v: Option<Seq<char>>,
    cap: nat,
) -> Seq<(Seq<char>, Option<Seq<char>>)> {
    let i = key_find(m, k);
    if i >= 0 {
        seq![(k, v)] + m.remove(i)
    } else if m.len() >= cap {
        seq![(k, v)] + m.drop_last()
    } else {
        seq![(k, v)] + m
    }
}

/// Relies on `clru::CLruCache::new`: a fresh cache is empty and holds at most
/// `capacity` entries.
#[verifier::external_body]
pub(crate) fn cache_new(capacity: usize) -> (c: AuthCache)
    requires
        1 <= capacity,
    ensures
        cache_entries(c) == Seq::<(Seq<char>, Option<Seq<char>>)>::empty(),
        cache_capacity(c) == capacity as nat,
{
    AuthCache { inner: clru::CLruCache::new(core::num::NonZeroUsize::new(capacity).unwrap()) }
}

/// Relies on `clru::CLruCache::get`: a hit returns the stored entry and moves
/// its key to the most-recent position; a miss returns nothing and changes
/// nothing.
#[verifier::external_body]
pub(crate) fn cache_get(c: &mut AuthCache, key: &String) -> (r: Option<DeviceCacheEntry>)
    ensures
        cache_capacity(*final(c)) == cache_capacity(*old(c)),
        ({
            let m = cache_entries(*old(c));
            let i = key_find(m, key@);
            if i >= 0 {
                0 <= i < m.len() && (r matches Some(e) && e@ == m[i].1) && cache_entries(*final(c))
                    == promote(m, i)
            } else {
                r is None && cache_entries(*final(c)) == m
            }
        }),
{
    c.inner.get(key).cloned()
}

/// Relies on `clru::CLruCache::put`: the pair lands at the most-recent
/// position; an old pair under the same key leaves, and with a full cache and
/// a new key the least-recently-used pair leaves.
#[verifier::external_body]
pub(crate) fn cache_put(c: &mut AuthCache, key: String, value: DeviceCacheEntry)
    ensures
        cache_capacity(*final(c)) == cache_capacity(*old(c)),
        cache_entries(*final(c)) == spec_put(
            cache_entries(*old(c)),
            key@,
            value@,
            cache_capacity(*old(c)),
        ),
{
    c.inner.put(key, value);
}

/// `spec_put` keeps keys distinct and the length within the capacity, and
/// leaves the written key at the front.
pub proof fn lemma_put_shape(
    m: Seq<(Seq<char>, Option<Seq<char>>)>,
    k: Seq<char>,
    v: Option<Seq<char>>,
    cap: nat,
)
    requires
        distinct_keys(m),
        m.len() <= cap,
        1 <= cap,
    ensures
        distinct_keys(spec_put(m, k, v, cap)),
        spec_put(m, k, v, cap).len() <= cap,
        spec_put(m, k, v, cap)[0] == (k, v),
        key_find(spec_put(m, k, v, cap), k) == 0,
{
    let i = key_find(m, k);
    lemma_key_find(m, k);
    let p = spec_put(m, k, v, cap);
    if i >= 0 {
        assert forall|a: int, b: int| 0 <= a < b < p.len() implies p[a].0 != p[b].0 by {
            lemma_remove_src(m, i, b - 1);
            if a > 0 {
                lemma_remove_src(m, i, a - 1);
                lemma_key_find_unique(m, k, i);
            } else {
                lemma_key_find_unique(m, k, i);
            }
        }
    } else if m.len() >= cap {
        assert forall|a: int, b: int| 0 <= a < b < p.len() implies p[a].0 != p[b].0 by {
            assert(p[b] == m[b - 1]);
            if a > 0 {
                assert(p[a] == m[a - 1]);
            }
        }
    } else {
        assert forall|a: int, b: int| 0 <= a < b < p.len() implies p[a].0 != p[b].0 by {
            assert(p[b] == m[b - 1]);
            if a > 0 {
                assert(p[a] == m[a - 1]);
            }
        }
    }
}

/// Every position past the front of `seq![x] + m.remove(i)` reads from `m`
/// at an index other than `i`.
proof fn lemma_remove_src(m: Seq<(Seq<char>, Option<Seq<char>>)>, i: int, a: int)
    requires
        0 <= i < m.len(),
        0 <= a < m.len() - 1,
    ensures
        m.remove(i)[a] == m[if a < i { a } else { a + 1 }],
{
}

/// The cache never outgrows its capacity, and writing a new key into a full
/// cache evicts exactly the least-recently-used key: the back pair's key is
/// gone, the written key and every other key remain.
pub proof fn lemma_cache_capacity_eviction(
    m: Seq<(Seq<char>, Option<Seq<char>>)>,
    k: Seq<char>,
    v: Option<Seq<char>>,
    cap: nat,
)
    requires
        distinct_keys(m),
        m.len() <= cap,
        1 <= cap,
        m.len() == cap,
        !has_key(m, k),
    ensures
        spec_put(m, k, v, cap).len() == cap,
        has_key(spec_put(m, k, v, cap), k),
        !has_key(spec_put(m, k, v, cap), m.last().0),
        forall|j: int| 0 <= j < m.len() - 1 ==> has_key(spec_put(m, k, v, cap), m[j].0),
{
    lemma_key_find(m, k);
    lemma_put_shape(m, k, v, cap);
    let p = spec_put(m, k, v, cap);
    assert(p =~= seq![(k, v)] + m.drop_last());
    lemma_key_find(p, m.last().0);
    let f = key_find(p, m.last().0);
    if f >= 0 {
        if f == 0 {
            assert(m[m.len() - 1].0 == k);
        } else {
            assert(p[f] == m[f - 1]);
            assert(m[f - 1].0 == m[m.len() - 1].0);
        }
        assert(false);
    }
    assert forall|j: int| 0 <= j < m.len() - 1 implies has_key(p, m[j].0) by {
        assert(p[j + 1] == m[j]);
        lemma_key_find_present(p, m[j].0, j + 1);
    }
}

} // verus!

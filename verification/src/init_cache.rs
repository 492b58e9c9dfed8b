//! The initialization-segment cache: a bounded LRU keyed by resource
//! identity, sized near the concurrency limit.  A miss is fetched and
//! inserted by the caller; concurrent misses may redundantly fetch,
//! which is acceptable and bounded.

use vstd::prelude::*;

use crate::byte_range::ByteRange;
use crate::remote_data::RemoteData;
use crate::text::{dec_digits, u64_string};

verus! {

#[verifier::external_type_specification]
#[verifier::external_body]
#[verifier::reject_recursive_types(K)]
#[verifier::reject_recursive_types(V)]
#[verifier::reject_recursive_types(S)]
pub struct ExLruCache<K, V, S>(lru::LruCache<K, V, S>);

#[verifier::external_type_specification]
#[verifier::external_body]
pub struct ExLruDefaultHasher(lru::DefaultHasher);

/// The empty cache contents.
pub open spec fn empty_cache_map() -> Map<Seq<char>, Seq<u8>> {
    Map::empty()
}

/// What the cache holds: the mapping from key to stored bytes.
pub uninterp spec fn lru_contents(c: lru::LruCache<String, Vec<u8>>) -> Map<Seq<char>, Seq<u8>>;

/// The bound the cache was created with.
pub uninterp spec fn lru_capacity(c: lru::LruCache<String, Vec<u8>>) -> nat;

/// Relies on `lru::LruCache::new`: a fresh cache with the given capacity
/// holds nothing.
#[verifier::external_body]
fn lru_new(cap: usize) -> (r: lru::LruCache<String, Vec<u8>>)
    requires
        cap >= 1,
    ensures
        lru_contents(r) == empty_cache_map(),
        lru_capacity(r) == cap,
{
    lru::LruCache::new(std::num::NonZeroUsize::new(cap).unwrap())
}

/// Relies on `lru::LruCache::get`: returns the value stored for the key
/// and only promotes its recency, leaving the contents unchanged.
#[verifier::external_body]
fn lru_get(c: &mut lru::LruCache<String, Vec<u8>>, k: &String) -> (r: Option<Vec<u8>>)
    ensures
        lru_contents(*final(c)) == lru_contents(*old(c)),
        lru_capacity(*final(c)) == lru_capacity(*old(c)),
        match r {
            Some(v) => lru_contents(*old(c)).contains_key(k@) && lru_contents(*old(c))[k@] == v@,
            None => !lru_contents(*old(c)).contains_key(k@),
        },
{
    c.get(k).cloned()
}

/// Relies on `lru::LruCache::put`: stores the pair; beyond the new pair
/// only entries already present survive (the least recently used one
/// may be evicted when the cache is full).
#[verifier::external_body]
fn lru_put(c: &mut lru::LruCache<String, Vec<u8>>, k: String, v: Vec<u8>)
    ensures
        lru_capacity(*final(c)) == lru_capacity(*old(c)),
        lru_contents(*final(c)).contains_key(k@),
        lru_contents(*final(c))[k@] == v@,
        forall|k2: Seq<char>|
            lru_contents(*final(c)).contains_key(k2) ==> k2 == k@ || lru_contents(
                *old(c),
            ).contains_key(k2),
        forall|k2: Seq<char>|
            lru_contents(*final(c)).contains_key(k2) && k2 != k@ ==> lru_contents(*final(c))[k2]
                == lru_contents(*old(c))[k2],
{
    c.put(k, v);
}

/// A bounded cache of fetched initialization bytes, keyed by resource.
pub struct InitCache {
    inner: lru::LruCache<String, Vec<u8>>,
}

impl View for InitCache {
    type V = Map<Seq<char>, Seq<u8>>;

    closed spec fn view(&self) -> Map<Seq<char>, Seq<u8>> {
        lru_contents(self.inner)
    }
}

impl InitCache {
    /// The cache's bound.
    pub closed spec fn spec_capacity(self) -> nat {
        lru_capacity(self.inner)
    }

    /// Creates a cache bounded by the downloader pool's concurrency
    /// limit.
    pub fn new(limit: usize) -> (r: InitCache)
        requires
            limit >= 1,
        ensures
            r@ == empty_cache_map(),
            r.spec_capacity() == limit,
    {
        InitCache { inner: lru_new(limit) }
    }

    /// Looks an initialization up by its resource's cache key.
    pub fn get(&mut self, key: &String) -> (r: Option<Vec<u8>>)
        ensures
            final(self)@ == old(self)@,
            final(self).spec_capacity() == old(self).spec_capacity(),
            match r {
                Some(v) => old(self)@.contains_key(key@) && old(self)@[key@] == v@,
                None => !old(self)@.contains_key(key@),
            },
    {
        lru_get(&mut self.inner, key)
    }

    /// Stores fetched initialization bytes under their resource's cache
    /// key.  Beyond the new entry, only entries already present remain.
    pub fn put(&mut self, key: String, value: Vec<u8>)
        ensures
            final(self).spec_capacity() == old(self).spec_capacity(),
            final(self)@.contains_key(key@),
            final(self)@[key@] == value@,
            forall|k2: Seq<char>|
                final(self)@.contains_key(k2) ==> k2 == key@ || old(self)@.contains_key(k2),
            forall|k2: Seq<char>|
                final(self)@.contains_key(k2) && k2 != key@ ==> final(self)@[k2] == old(self)@[k2],
    {
        lru_put(&mut self.inner, key, value)
    }
}

/// The cache key of a resource: its URL and byte range, joined with a
/// newline, which no URL contains.
pub open spec fn spec_cache_key(url: Seq<char>, byte_range: Option<ByteRange>) -> Seq<char> {
    url + "\n"@ + (match byte_range {
        Option::Some(b) => dec_digits(b.length as nat) + "@"@ + (match b.offset {
            Option::Some(o) => dec_digits(o as nat),
            Option::None => Seq::empty(),
        }),
        Option::None => Seq::empty(),
    })
}

impl RemoteData {
    /// The key this resource is cached under.
    pub fn cache_key(&self) -> (r: String)
        ensures
            r@ == spec_cache_key(self@.url, self@.byte_range),
    {
        let mut s = self.url.clone();
        s.append("\n");
        match &self.byte_range {
            Some(b) => {
                let l = u64_string(b.length);
                s.append(l.as_str());
                s.append("@");
                match b.offset {
                    Some(o) => {
                        let ov = u64_string(o);
                        s.append(ov.as_str());
                    },
                    None => {},
                }
            },
            None => {},
        }
        s
    }
}

} // verus!

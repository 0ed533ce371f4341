//! The PDF materialization cache: a bounded, expiring map from document id
//! to the base64 text of its bytes. The cache is a disposable view: a miss
//! means "recompute", never an error, and any hit equals what a fresh
//! computation from the same bytes would return.
use vstd::prelude::*;

use base64::Engine;

verus! {

/// The base64 text of a byte sequence, as the standard alphabet with padding
/// renders it.
pub uninterp spec fn b64_of(bytes: Seq<u8>) -> Seq<char>;

/// Relies on base64's STANDARD engine (Engine::encode): base64 text of the
/// bytes. The result depends on the bytes alone; its length is four
/// characters per started group of three bytes, so an empty input gives an
/// empty text.
#[verifier::external_body]
pub fn base64_encode(bytes: &Vec<u8>) -> (r: String)
    requires
        bytes@.len() * 4 <= usize::MAX,
    ensures
        r@ == b64_of(bytes@),
        r@.len() == 4 * ((bytes@.len() + 2) / 3),
{
    base64::engine::general_purpose::STANDARD.encode(bytes.as_slice())
}

/// A bounded, expiring map from document id to base64 text. Verus does not
/// look inside the cache component; what it holds is named by
/// `cache_entries`.
#[verifier::external_body]
pub struct TextCache {
    inner: moka::sync::Cache<String, String>,
}

/// The entries the cache currently holds.
pub uninterp spec fn cache_entries(c: TextCache) -> Map<Seq<char>, Seq<char>>;

/// Relies on moka::sync::CacheBuilder (max_capacity, time_to_live, build):
/// a freshly built cache holds no entries. The builder refuses a
/// time-to-live beyond a thousand years, so such values are kept out.
#[verifier::external_body]
pub fn new_text_cache(capacity: u64, ttl_secs: u64) -> (c: TextCache)
    requires
        ttl_secs <= 31_536_000_000,
    ensures
        forall|k: Seq<char>| !cache_entries(c).dom().contains(k),
{
    TextCache {
        inner: moka::sync::Cache::builder().max_capacity(capacity).time_to_live(
            std::time::Duration::from_secs(ttl_secs),
        ).build(),
    }
}

/// Relies on moka::sync::Cache::get: a hit returns the value stored under
/// the key. Expiry may drop entries at any time, so afterward the entries
/// are some subset of what was held, and a miss promises nothing.
#[verifier::external_body]
pub fn cache_lookup(c: &mut TextCache, key: &String) -> (r: Option<String>)
    ensures
        cache_entries(*final(c)).submap_of(cache_entries(*old(c))),
        r matches Some(v) ==> cache_entries(*old(c)).dom().contains(key@) && v@ == cache_entries(
            *old(c),
        )[key@],
{
    c.inner.get(key)
}

/// Relies on moka::sync::Cache::insert: stores the value under the key.
/// Eviction and expiry may drop entries, so afterward every held entry is
/// either the new pair or one that was already held.
#[verifier::external_body]
pub fn cache_store(c: &mut TextCache, key: &String, value: String)
    ensures
        cache_entries(*final(c)).submap_of(cache_entries(*old(c)).insert(key@, value@)),
{
    c.inner.insert(key.clone(), value)
}

/// The materialization cache over document bytes. Beside the cache itself it
/// tracks, in ghost state, the bytes each id was last materialized from, so
/// that every hit is provably the encoding of known bytes.
pub struct MaterializationCache {
    cache: TextCache,
    sources: Ghost<Map<Seq<char>, Seq<u8>>>,
}

impl MaterializationCache {
    /// The bytes each id was last materialized from.
    pub closed spec fn sources(self) -> Map<Seq<char>, Seq<u8>> {
        self.sources@
    }

    /// Every cached text is the base64 form of the bytes recorded for its id.
    pub closed spec fn wf(self) -> bool {
        forall|k: Seq<char>|
            #[trigger] cache_entries(self.cache).dom().contains(k) ==> self.sources@.dom().contains(k)
                && cache_entries(self.cache)[k] == b64_of(self.sources@[k])
    }

    /// A fresh cache with the given capacity bound and time-to-live, which
    /// must stay within the thousand years the cache component accepts.
    pub fn new(capacity: u64, ttl_secs: u64) -> (r: MaterializationCache)
        requires
            ttl_secs <= 31_536_000_000,
        ensures
            r.wf(),
            r.sources() == Map::<Seq<char>, Seq<u8>>::empty(),
    {
        MaterializationCache {
            cache: new_text_cache(capacity, ttl_secs),
            sources: Ghost(Map::empty()),
        }
    }

    /// Looks the id up; a hit is the base64 form of the bytes the id was
    /// last materialized from.
    pub fn lookup(&mut self, id: &String) -> (r: Option<String>)
        requires
            old(self).wf(),
        ensures
            final(self).wf(),
            final(self).sources() == old(self).sources(),
            r matches Some(v) ==> old(self).sources().dom().contains(id@) && v@ == b64_of(
                old(self).sources()[id@],
            ),
    {
        let r = cache_lookup(&mut self.cache, id);
        proof {
            let pre = cache_entries(old(self).cache);
            let post = cache_entries(self.cache);
            assert forall|k: Seq<char>| #[trigger] post.dom().contains(k) implies self.sources@.dom().contains(
                k,
            ) && post[k] == b64_of(self.sources@[k]) by {
                assert(post.submap_of(pre));
                assert(pre.dom().contains(k));
                assert(post[k] == pre[k]);
            };
        }
        r
    }

    /// Encodes the bytes, stores the text under the id, and returns it.
    pub fn materialize(&mut self, id: &String, bytes: &Vec<u8>) -> (r: String)
        requires
            old(self).wf(),
            bytes@.len() * 4 <= usize::MAX,
        ensures
            final(self).wf(),
            final(self).sources() == old(self).sources().insert(id@, bytes@),
            r@ == b64_of(bytes@),
    {
        let text = base64_encode(bytes);
        cache_store(&mut self.cache, id, text.clone());
        proof {
            self.sources@ = self.sources@.insert(id@, bytes@);
            let pre = cache_entries(old(self).cache);
            let post = cache_entries(self.cache);
            assert(post.submap_of(pre.insert(id@, text@)));
            assert forall|k: Seq<char>| #[trigger] post.dom().contains(k) implies self.sources@.dom().contains(
                k,
            ) && post[k] == b64_of(self.sources@[k]) by {
                assert(post.dom().contains(k));
                assert(post.submap_of(pre.insert(id@, text@)));
                assert(pre.insert(id@, text@).dom().contains(k));
                assert(post[k] == pre.insert(id@, text@)[k]);
                if k != id@ {
                    assert(pre.dom().contains(k));
                }
            };
        }
        text
    }

    /// The cached text for the id, or a fresh computation from the bytes on
    /// a miss. Whatever the cache held — including nothing, after an
    /// eviction or a cold start — the result is the base64 form of the given
    /// bytes, so the cache is transparent.
    pub fn get_or_compute(&mut self, id: &String, bytes: &Vec<u8>) -> (r: String)
        requires
            old(self).wf(),
            bytes@.len() * 4 <= usize::MAX,
            old(self).sources().dom().contains(id@) ==> old(self).sources()[id@] == bytes@,
        ensures
            final(self).wf(),
            final(self).sources() == old(self).sources().insert(id@, bytes@),
            r@ == b64_of(bytes@),
    {
        match self.lookup(id) {
            Some(v) => {
                proof {
                    assert(old(self).sources().insert(id@, bytes@) =~= old(self).sources());
                }
                v
            },
            None => self.materialize(id, bytes),
        }
    }
}

} // verus!

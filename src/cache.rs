//! A weighted, capacity-bounded response cache backed by TinyUFO.

use vstd::prelude::*;
use tinyufo::TinyUfo;

verus! {

/// A cached response in serialised form: its metadata and its body.
#[derive(Clone)]
pub struct CacheObject {
    pub meta: Vec<u8>,
    pub body: Vec<u8>,
}

/// Why a value was not stored.
pub enum CacheError {
    /// A weight of zero carries no cost and is refused.
    ZeroWeight,
    /// The value alone weighs more than the whole cache may hold.
    TooLarge,
}

#[verifier::external_type_specification]
#[verifier::external_body]
#[verifier::reject_recursive_types(K)]
#[verifier::reject_recursive_types(T)]
pub struct ExTinyUfo<K, T>(TinyUfo<K, T>);

/// What a TinyUFO cache holds: for each resident entry, keyed by the slot
/// (the hash of its key under the cache's own hasher), the object's metadata
/// and body and the weight it is charged.
pub uninterp spec fn ufo_entries(c: TinyUfo<String, CacheObject>) -> Map<u64, (Seq<u8>, Seq<u8>, nat)>;

/// The slot that a key takes in a TinyUFO cache: its hash under the hasher
/// the cache was made with. Two keys may share a slot.
pub uninterp spec fn ufo_slot(c: TinyUfo<String, CacheObject>, key: Seq<char>) -> u64;

/// The total weight that a TinyUFO cache charges for its resident entries.
pub uninterp spec fn ufo_weight(c: TinyUfo<String, CacheObject>) -> nat;

/// The total weight limit that a TinyUFO cache was made with.
pub uninterp spec fn ufo_limit(c: TinyUfo<String, CacheObject>) -> nat;

/// Relies on `tinyufo::TinyUfo::new`: an empty cache with the given weight limit.
#[verifier::external_body]
fn ufo_new(total_weight_limit: usize, estimated_size: usize) -> (r: TinyUfo<String, CacheObject>)
    ensures
        ufo_limit(r) == total_weight_limit,
        ufo_weight(r) == 0,
        forall|s: u64| !#[trigger] ufo_entries(r).contains_key(s),
{
    TinyUfo::new(total_weight_limit, estimated_size)
}

/// Relies on `tinyufo::TinyUfo::get`: a clone of the object in the key's
/// slot, or `None` when the slot is empty. Only a use counter changes.
#[verifier::external_body]
fn ufo_get(c: &TinyUfo<String, CacheObject>, key: &String) -> (r: Option<CacheObject>)
    ensures
        match r {
            Some(o) => ufo_entries(*c).contains_key(ufo_slot(*c, key@))
                && ufo_entries(*c)[ufo_slot(*c, key@)].0 == o.meta@
                && ufo_entries(*c)[ufo_slot(*c, key@)].1 == o.body@,
            None => !ufo_entries(*c).contains_key(ufo_slot(*c, key@)),
        },
{
    c.get(key)
}

/// Relies on `tinyufo::TinyUfo::put` (with `admit` and `evict_to_limit`): it
/// panics on a zero weight. Every entry afterwards is the new object in the
/// key's slot or an entry that was resident before, unchanged. When the slot
/// was empty and the new weight fits beside the resident weight, nothing is
/// evicted and the object is admitted. The hasher does not change.
#[verifier::external_body]
fn ufo_put(c: &mut TinyUfo<String, CacheObject>, key: String, data: CacheObject, weight: u16)
    requires
        0 < weight,
    ensures
        ufo_limit(*final(c)) == ufo_limit(*old(c)),
        forall|k: Seq<char>| #[trigger] ufo_slot(*final(c), k) == ufo_slot(*old(c), k),
        forall|s: u64| #[trigger] ufo_entries(*final(c)).contains_key(s) ==> {
            ||| (s == ufo_slot(*old(c), key@) && ufo_entries(*final(c))[s] == (data.meta@, data.body@, weight as nat))
            ||| (s != ufo_slot(*old(c), key@) && ufo_entries(*old(c)).contains_key(s)
                && ufo_entries(*final(c))[s] == ufo_entries(*old(c))[s])
        },
        !ufo_entries(*old(c)).contains_key(ufo_slot(*old(c), key@))
            && ufo_weight(*old(c)) + weight <= ufo_limit(*old(c)) ==> {
            &&& ufo_entries(*final(c)) == ufo_entries(*old(c)).insert(ufo_slot(*old(c), key@), (data.meta@, data.body@, weight as nat))
            &&& ufo_weight(*final(c)) == ufo_weight(*old(c)) + weight
        },
{
    c.put(key, data, weight);
}

/// A weighted cache. Admission and eviction go by estimated access
/// frequency; entries are kept by the hash of their key, so two keys with
/// one hash share an entry.
pub struct TinyUfoCache {
    cache: TinyUfo<String, CacheObject>,
    total_weight_limit: usize,
}

impl TinyUfoCache {
    /// The total weight charged for the resident entries.
    pub closed spec fn weight(&self) -> nat {
        ufo_weight(self.cache)
    }

    /// The total weight limit.
    pub closed spec fn limit(&self) -> nat {
        ufo_limit(self.cache)
    }

    /// The resident entries, by slot: metadata, body and charged weight.
    pub closed spec fn entries(&self) -> Map<u64, (Seq<u8>, Seq<u8>, nat)> {
        ufo_entries(self.cache)
    }

    /// The slot that `key` takes.
    pub closed spec fn slot(&self, key: Seq<char>) -> u64 {
        ufo_slot(self.cache, key)
    }

    /// The limit kept beside the cache is the one it was made with.
    pub closed spec fn inv(&self) -> bool {
        self.total_weight_limit == self.limit()
    }

    fn new(total_weight_limit: usize, estimated_size: usize) -> (r: TinyUfoCache)
        ensures
            r.inv(),
            r.limit() == total_weight_limit,
            r.weight() == 0,
            forall|s: u64| !#[trigger] r.entries().contains_key(s),
    {
        TinyUfoCache { cache: ufo_new(total_weight_limit, estimated_size), total_weight_limit }
    }

    /// The object resident in `key`'s slot, if any; a hit counts as a use.
    pub fn get(&self, key: &str) -> (r: Option<CacheObject>)
        ensures
            match r {
                Some(o) => self.entries().contains_key(self.slot(key@))
                    && self.entries()[self.slot(key@)].0 == o.meta@
                    && self.entries()[self.slot(key@)].1 == o.body@,
                None => !self.entries().contains_key(self.slot(key@)),
            },
    {
        ufo_get(&self.cache, &key.to_owned())
    }

    /// Offers `data` under `key` with cost `weight`. A zero weight, or one
    /// above the whole limit, is refused and changes nothing. Otherwise every
    /// entry afterwards is the new object or one resident before, unchanged;
    /// and when the key's slot was empty and the weight fits, it is admitted.
    pub fn put(&mut self, key: String, data: CacheObject, weight: u16) -> (r: Result<(), CacheError>)
        requires
            old(self).inv(),
        ensures
            final(self).inv(),
            final(self).limit() == old(self).limit(),
            weight == 0 ==> r matches Err(CacheError::ZeroWeight),
            weight > 0 && weight > old(self).limit() ==> r matches Err(CacheError::TooLarge),
            0 < weight <= old(self).limit() ==> r is Ok,
            r is Err ==> *final(self) == *old(self),
            forall|k: Seq<char>| #[trigger] final(self).slot(k) == old(self).slot(k),
            r is Ok ==> forall|s: u64| #[trigger] final(self).entries().contains_key(s) ==> {
                ||| (s == old(self).slot(key@) && final(self).entries()[s] == (data.meta@, data.body@, weight as nat))
                ||| (s != old(self).slot(key@) && old(self).entries().contains_key(s)
                    && final(self).entries()[s] == old(self).entries()[s])
            },
            r is Ok && !old(self).entries().contains_key(old(self).slot(key@))
                && old(self).weight() + weight <= old(self).limit() ==> {
                &&& final(self).entries() == old(self).entries().insert(old(self).slot(key@), (data.meta@, data.body@, weight as nat))
                &&& final(self).weight() == old(self).weight() + weight
            },
    {
        if weight == 0 {
            return Err(CacheError::ZeroWeight);
        }
        if weight as usize > self.total_weight_limit {
            return Err(CacheError::TooLarge);
        }
        ufo_put(&mut self.cache, key, data, weight);
        Ok(())
    }
}

/// A weighted cache with the given total weight limit; `estimated_size`
/// sizes its frequency bookkeeping and bounds nothing. It starts empty.
pub fn new_tiny_ufo_cache(total_weight_limit: usize, estimated_size: usize) -> (r: TinyUfoCache)
    ensures
        r.inv(),
        r.limit() == total_weight_limit,
        r.weight() == 0,
        forall|s: u64| !#[trigger] r.entries().contains_key(s),
{
    TinyUfoCache::new(total_weight_limit, estimated_size)
}

} // verus!

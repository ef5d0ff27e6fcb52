//! The status cache: a process-wide concurrent mapping from server identity
//! to the last-known liveness boolean, read-most and updated
//! opportunistically.  Unknown identities read as "not running", a
//! deliberate fail-safe default.

use vstd::prelude::*;

verus! {

/// Declares `dashmap::DashMap` so that the cache can hold one.  The map is
/// opaque here: everything it holds is spoken of through `cache_contents`.
#[verifier::external_type_specification]
#[verifier::external_body]
#[verifier::reject_recursive_types(K)]
#[verifier::reject_recursive_types(V)]
#[verifier::reject_recursive_types(S)]
pub struct ExDashMap<K, V, S>(dashmap::DashMap<K, V, S>);

/// The status cache.  It wraps `dashmap::DashMap`, whose sharded locking
/// lets many concurrent readers and writers touch records of different
/// servers without a global lock; the embedding shares one cache across
/// all callers.  Records are created on first write, overwritten on every
/// later one, and never deleted.
pub struct StatusCache {
    map: dashmap::DashMap<String, bool, std::collections::hash_map::RandomState>,
}

/// The records the cache holds: at most one liveness boolean per server
/// identity, keyed by the identity's characters.
pub uninterp spec fn cache_contents(c: StatusCache) -> Map<Seq<char>, bool>;

/// The liveness that `m` answers for `id`: the stored record, or `false`
/// when the identity was never recorded (unknown is assumed not running).
pub open spec fn cached_liveness(m: Map<Seq<char>, bool>, id: Seq<char>) -> bool {
    if m.dom().contains(id) {
        m[id]
    } else {
        false
    }
}

impl StatusCache {
    /// Relies on `dashmap::DashMap::new`: creates an empty map.
    #[verifier::external_body]
    pub fn new() -> (c: StatusCache)
        ensures
            cache_contents(c).dom() == Set::<Seq<char>>::empty(),
    {
        StatusCache { map: dashmap::DashMap::new() }
    }

    /// Relies on `dashmap::DashMap::get`: returns the value stored under
    /// the key, or `None` when there is none.
    #[verifier::external_body]
    fn get_record(&self, id: &str) -> (r: Option<bool>)
        ensures
            r == if cache_contents(*self).dom().contains(id@) {
                Some(cache_contents(*self)[id@])
            } else {
                None::<bool>
            },
    {
        self.map.get(id).map(|record| *record)
    }

    /// Relies on `dashmap::DashMap::insert`: maps the key to the value,
    /// replacing any previous record for it.
    #[verifier::external_body]
    pub fn write(&mut self, id: &str, value: bool)
        ensures
            cache_contents(*final(self)) == cache_contents(*old(self)).insert(id@, value),
    {
        self.map.insert(id.to_string(), value);
    }

    /// The cached liveness for `id`, `false` when the identity was never
    /// recorded.
    pub fn read(&self, id: &str) -> (r: bool)
        ensures
            r == cached_liveness(cache_contents(*self), id@),
    {
        match self.get_record(id) {
            Some(value) => value,
            None => false,
        }
    }
}

} // verus!

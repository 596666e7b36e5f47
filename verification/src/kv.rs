//! Per-tenant key/value store abstraction.
//!
//! The interface is intentionally tiny (`get` / `put`, no batch, no scan) so
//! that any backend can stand behind the same surface. Keys reach the store
//! already scoped to a tenant (see `HostCtx::scoped_key`); the store sees only
//! opaque strings.
use vstd::prelude::*;
use vstd::hash_map::StringHashMap;

verus! {

/// The value stored under `key` in `contents`, if any.
pub open spec fn lookup(contents: Map<Seq<char>, Seq<u8>>, key: Seq<char>) -> Option<Seq<u8>> {
    if contents.contains_key(key) {
        Some(contents[key])
    } else {
        None
    }
}

/// The bytes of an optional value, by view.
pub open spec fn bytes_of(value: Option<Vec<u8>>) -> Option<Seq<u8>> {
    match value {
        Some(v) => Some(v@),
        None => None,
    }
}

/// Bytes-in, bytes-out store behind the guest's `kv` capability.
pub trait KvStore {
    /// What the store holds: key to value.
    spec fn contents(&self) -> Map<Seq<char>, Seq<u8>>;

    /// Look up `k`; `None` when the key is absent.
    fn get(&self, k: &str) -> (value: Option<Vec<u8>>)
        ensures
            bytes_of(value) == lookup(self.contents(), k@),
    ;

    /// Write (or overwrite) `k -> v`, leaving every other key as it was.
    fn put(&mut self, k: &str, v: Vec<u8>)
        ensures
            final(self).contents() == old(self).contents().insert(k@, v@),
    ;
}

/// In-process map, used in tests and single-host deployments.
pub struct MemKv {
    inner: StringHashMap<Vec<u8>>,
}

impl MemKv {
    /// The stored values, by view.
    pub closed spec fn view_contents(&self) -> Map<Seq<char>, Seq<u8>> {
        self.inner@.map_values(|v: Vec<u8>| v@)
    }

    /// An empty store.
    pub fn new() -> (kv: MemKv)
        ensures
            kv.contents() == Map::<Seq<char>, Seq<u8>>::empty(),
    {
        let kv = MemKv { inner: StringHashMap::new() };
        assert(kv.view_contents() =~= Map::<Seq<char>, Seq<u8>>::empty());
        kv
    }
}

impl Default for MemKv {
    /// An empty store.
    fn default() -> (kv: MemKv)
        ensures
            kv.contents() == Map::<Seq<char>, Seq<u8>>::empty(),
    {
        MemKv::new()
    }
}

impl KvStore for MemKv {
    open spec fn contents(&self) -> Map<Seq<char>, Seq<u8>> {
        self.view_contents()
    }

    fn get(&self, k: &str) -> (value: Option<Vec<u8>>) {
        match self.inner.get(k) {
            Some(v) => {
                let copy = v.clone();
                assert(copy@ =~= v@);
                Some(copy)
            },
            None => None,
        }
    }

    fn put(&mut self, k: &str, v: Vec<u8>) {
        let key = String::from_str(k);
        self.inner.insert(key, v);
        assert(self.view_contents() =~= old(self).view_contents().insert(k@, v@));
    }
}

/// Read-after-write: right after `put(k, v)`, `get(k)` yields `v`, and every
/// other key reads as it did before.
pub proof fn law_read_after_write(
    contents: Map<Seq<char>, Seq<u8>>,
    k: Seq<char>,
    v: Seq<u8>,
    other: Seq<char>,
)
    ensures
        lookup(contents.insert(k, v), k) == Some(v),
        other != k ==> lookup(contents.insert(k, v), other) == lookup(contents, other),
{
}

/// A fresh in-memory store holds nothing.
pub proof fn law_new_store_is_empty(k: Seq<char>)
    ensures
        lookup(Map::<Seq<char>, Seq<u8>>::empty(), k) == None::<Seq<u8>>,
{
}

} // verus!

//! A least-recently-used cache of downloaded images, keyed by the hash of
//! their URL.
use std::collections::hash_map::DefaultHasher;
use std::hash::Hasher;
use vstd::prelude::*;
use vstd::std_specs::hash::DefaultHasherAdditionalSpecFns;
use vstd::string::StringSliceAdditionalSpecFns;

verus! {

#[verifier::external_type_specification]
#[verifier::external_body]
#[verifier::reject_recursive_types(K)]
#[verifier::reject_recursive_types(V)]
#[verifier::reject_recursive_types(S)]
pub struct ExLruCache<K, V, S>(lru::LruCache<K, V, S>);

#[verifier::external_type_specification]
#[verifier::external_body]
pub struct ExLruHasher(lru::DefaultHasher);

/// The entries of an `lru::LruCache`, most recently used first, each with
/// the bytes of its value.
pub uninterp spec fn lru_entries(cache: lru::LruCache<u64, Vec<u8>>) -> Seq<(u64, Seq<u8>)>;

/// The capacity an `lru::LruCache` was made with.
pub uninterp spec fn lru_capacity(cache: lru::LruCache<u64, Vec<u8>>) -> nat;

/// The position of the first entry with key `key`, if there is one.
pub open spec fn find_key(entries: Seq<(u64, Seq<u8>)>, key: u64) -> Option<int>
    decreases entries.len(),
{
    if entries.len() == 0 {
        None
    } else if entries[0].0 == key {
        Some(0)
    } else {
        match find_key(entries.drop_first(), key) {
            Some(i) => Some(i + 1),
            None => None,
        }
    }
}

/// The entries after looking `key` up: a found entry moves to the front.
pub open spec fn after_get(entries: Seq<(u64, Seq<u8>)>, key: u64) -> Seq<(u64, Seq<u8>)> {
    match find_key(entries, key) {
        Some(i) => seq![entries[i]] + entries.remove(i),
        None => entries,
    }
}

/// The value found for `key`, if any.
pub open spec fn get_result(entries: Seq<(u64, Seq<u8>)>, key: u64) -> Option<Seq<u8>> {
    match find_key(entries, key) {
        Some(i) => Some(entries[i].1),
        None => None,
    }
}

/// The entries after putting `value` under `key` in a cache of capacity
/// `cap`: the entry goes to the front, replacing an entry with the same key;
/// a new key in a full cache pushes out the least recently used entry; a
/// cache of capacity zero stays empty.
pub open spec fn after_put(entries: Seq<(u64, Seq<u8>)>, cap: nat, key: u64, value: Seq<u8>) -> Seq<
    (u64, Seq<u8>),
> {
    match find_key(entries, key) {
        Some(i) => seq![(key, value)] + entries.remove(i),
        None => if cap == 0 {
            entries
        } else if entries.len() == cap {
            seq![(key, value)] + entries.drop_last()
        } else {
            seq![(key, value)] + entries
        },
    }
}

/// Calls `lru::LruCache::new(cap)`: an empty cache of capacity `cap`. Its
/// hash table is sized for `cap` entries up front; `hashbrown` panics with
/// "capacity overflow" when that size overflows `usize`, which no capacity up
/// to `usize::MAX / 64` does (entries take 16 bytes and a control byte).
#[verifier::external_body]
fn lru_new(cap: usize) -> (r: lru::LruCache<u64, Vec<u8>>)
    requires
        cap <= usize::MAX / 64,
    ensures
        lru_entries(r) == Seq::<(u64, Seq<u8>)>::empty(),
        lru_capacity(r) == cap,
{
    lru::LruCache::new(cap)
}

/// Calls `lru::LruCache::get` and copies the value found: the entry of
/// `key`, if there is one, becomes the most recently used.
#[verifier::external_body]
fn lru_get(cache: &mut lru::LruCache<u64, Vec<u8>>, key: u64) -> (r: Option<Vec<u8>>)
    ensures
        lru_capacity(*final(cache)) == lru_capacity(*old(cache)),
        lru_entries(*final(cache)) == after_get(lru_entries(*old(cache)), key),
        match r {
            Some(v) => get_result(lru_entries(*old(cache)), key) == Some(v@),
            None => get_result(lru_entries(*old(cache)), key) is None,
        },
{
    cache.get(&key).cloned()
}

/// Calls `lru::LruCache::put`: returns the value that `key` had, if any.
#[verifier::external_body]
fn lru_put(cache: &mut lru::LruCache<u64, Vec<u8>>, key: u64, value: Vec<u8>) -> (r: Option<
    Vec<u8>,
>)
    ensures
        lru_capacity(*final(cache)) == lru_capacity(*old(cache)),
        lru_entries(*final(cache)) == after_put(
            lru_entries(*old(cache)),
            lru_capacity(*old(cache)),
            key,
            value@,
        ),
        match r {
            Some(v) => get_result(lru_entries(*old(cache)), key) == Some(v@),
            None => get_result(lru_entries(*old(cache)), key) is None,
        },
{
    cache.put(key, value)
}

/// Whether no key occurs twice.
pub open spec fn unique_keys(entries: Seq<(u64, Seq<u8>)>) -> bool {
    forall|i: int, j: int|
        0 <= i < entries.len() && 0 <= j < entries.len() && i != j ==> #[trigger] entries[i].0
            != #[trigger] entries[j].0
}

/// The key that `DefaultHasher` gives a URL (its bytes, then the byte 0xff,
/// as `Hash` writes a string).
pub open spec fn url_key(url: &str) -> u64 {
    DefaultHasher::spec_finish(seq![url.spec_bytes(), seq![0xffu8]])
}

/// Downloaded images, by the hash of their URL, least recently used first
/// to go.
pub struct ImageCache {
    inner: lru::LruCache<u64, Vec<u8>>,
}

impl ImageCache {
    /// The cached images, most recently used first.
    pub closed spec fn entries(&self) -> Seq<(u64, Seq<u8>)> {
        lru_entries(self.inner)
    }

    /// The most images the cache holds.
    pub closed spec fn capacity(&self) -> nat {
        lru_capacity(self.inner)
    }

    /// Keys are unique and the cache holds no more than its capacity.
    pub open spec fn wf(&self) -> bool {
        &&& unique_keys(self.entries())
        &&& self.entries().len() <= self.capacity()
    }

    /// An empty cache for at most `cap` images.
    pub fn new(cap: usize) -> (r: Self)
        requires
            cap <= usize::MAX / 64,
        ensures
            r.wf(),
            r.entries() == Seq::<(u64, Seq<u8>)>::empty(),
            r.capacity() == cap,
    {
        ImageCache { inner: lru_new(cap) }
    }

    /// The cache key of an image URL: its `DefaultHasher` hash.
    pub fn key_for(url: &str) -> (r: u64)
        ensures
            r == url_key(url),
    {
        let mut hasher = DefaultHasher::new();
        hasher.write(url.as_bytes());
        let end: Vec<u8> = vec![0xffu8];
        hasher.write(end.as_slice());
        assert(end@ =~= seq![0xffu8]);
        assert(hasher@ =~= seq![url.spec_bytes(), seq![0xffu8]]);
        hasher.finish()
    }

    /// The cached image under `key`, if there is one; it becomes the most
    /// recently used.
    pub fn lookup(&mut self, key: u64) -> (r: Option<Vec<u8>>)
        requires
            old(self).wf(),
        ensures
            final(self).wf(),
            final(self).capacity() == old(self).capacity(),
            final(self).entries() == after_get(old(self).entries(), key),
            match r {
                Some(v) => get_result(old(self).entries(), key) == Some(v@),
                None => get_result(old(self).entries(), key) is None,
            },
    {
        let r = lru_get(&mut self.inner, key);
        proof {
            lemma_after_get_wf(old(self).entries(), key);
        }
        r
    }

    /// Caches `data` under `key` as the most recently used image.
    pub fn store(&mut self, key: u64, data: Vec<u8>)
        requires
            old(self).wf(),
        ensures
            final(self).wf(),
            final(self).capacity() == old(self).capacity(),
            final(self).entries() == after_put(
                old(self).entries(),
                old(self).capacity(),
                key,
                data@,
            ),
    {
        let _ = lru_put(&mut self.inner, key, data);
        proof {
            lemma_after_put_wf(old(self).entries(), old(self).capacity(), key, data@);
        }
    }
}

proof fn lemma_find_key(entries: Seq<(u64, Seq<u8>)>, key: u64)
    ensures
        match find_key(entries, key) {
            Some(i) => 0 <= i < entries.len() && entries[i].0 == key && forall|j: int|
                0 <= j < i ==> #[trigger] entries[j].0 != key,
            None => forall|j: int| 0 <= j < entries.len() ==> #[trigger] entries[j].0 != key,
        },
    decreases entries.len(),
{
    if entries.len() > 0 {
        let rest = entries.drop_first();
        lemma_find_key(rest, key);
        if entries[0].0 != key {
            match find_key(rest, key) {
                Some(i) => {
                    assert forall|j: int| 0 <= j < i + 1 implies #[trigger] entries[j].0 != key by {
                        if j > 0 {
                            assert(entries[j] == rest[j - 1]);
                        }
                    }
                },
                None => {
                    assert forall|j: int| 0 <= j < entries.len() implies #[trigger] entries[j].0
                        != key by {
                        if j > 0 {
                            assert(entries[j] == rest[j - 1]);
                        }
                    }
                },
            }
        }
    }
}

proof fn lemma_after_get_wf(entries: Seq<(u64, Seq<u8>)>, key: u64)
    requires
        unique_keys(entries),
    ensures
        unique_keys(after_get(entries, key)),
        after_get(entries, key).len() == entries.len(),
{
    lemma_find_key(entries, key);
    match find_key(entries, key) {
        Some(i) => {
            let r = entries.remove(i);
            let out = seq![entries[i]] + r;
            assert forall|a: int, b: int|
                0 <= a < out.len() && 0 <= b < out.len() && a != b implies #[trigger] out[a].0
                != #[trigger] out[b].0 by {
                let ia = if a == 0 { i } else if a - 1 < i { a - 1 } else { a };
                let ib = if b == 0 { i } else if b - 1 < i { b - 1 } else { b };
                assert(out[a] == entries[ia]);
                assert(out[b] == entries[ib]);
            }
        },
        None => {},
    }
}

proof fn lemma_after_put_wf(entries: Seq<(u64, Seq<u8>)>, cap: nat, key: u64, value: Seq<u8>)
    requires
        unique_keys(entries),
        entries.len() <= cap,
    ensures
        unique_keys(after_put(entries, cap, key, value)),
        after_put(entries, cap, key, value).len() <= cap,
{
    lemma_find_key(entries, key);
    let out = after_put(entries, cap, key, value);
    match find_key(entries, key) {
        Some(i) => {
            assert forall|a: int, b: int|
                0 <= a < out.len() && 0 <= b < out.len() && a != b implies #[trigger] out[a].0
                != #[trigger] out[b].0 by {
                let ia = if a == 0 { i } else if a - 1 < i { a - 1 } else { a };
                let ib = if b == 0 { i } else if b - 1 < i { b - 1 } else { b };
                assert(out[a].0 == entries[ia].0);
                assert(out[b].0 == entries[ib].0);
            }
        },
        None => {
            if cap != 0 {
                let rest = if entries.len() == cap {
                    entries.drop_last()
                } else {
                    entries
                };
                assert(out == seq![(key, value)] + rest);
                assert forall|a: int, b: int|
                    0 <= a < out.len() && 0 <= b < out.len() && a != b implies #[trigger] out[a].0
                    != #[trigger] out[b].0 by {
                    if a > 0 {
                        assert(out[a] == entries[a - 1]);
                    }
                    if b > 0 {
                        assert(out[b] == entries[b - 1]);
                    }
                }
            }
        },
    }
}

/// What a cache holds after storing `value` under `key` is found again
/// under `key`, as long as the cache can hold anything at all.
pub proof fn lemma_store_then_lookup(
    entries: Seq<(u64, Seq<u8>)>,
    cap: nat,
    key: u64,
    value: Seq<u8>,
)
    requires
        cap > 0,
    ensures
        get_result(after_put(entries, cap, key, value), key) == Some(value),
        after_get(after_put(entries, cap, key, value), key) == after_put(entries, cap, key, value),
{
}

/// A lookup reorders the cache but keeps every image under its key.
pub proof fn lemma_lookup_keeps_images(entries: Seq<(u64, Seq<u8>)>, key: u64, other: u64)
    requires
        unique_keys(entries),
    ensures
        get_result(after_get(entries, key), other) == get_result(entries, other),
{
    lemma_find_key(entries, key);
    lemma_find_key(entries, other);
    lemma_after_get_wf(entries, key);
    let out = after_get(entries, key);
    lemma_find_key(out, other);
    match find_key(entries, key) {
        Some(i) => {
            match find_key(out, other) {
                Some(k) => {
                    let ik = if k == 0 { i } else if k - 1 < i { k - 1 } else { k };
                    assert(out[k] == entries[ik]);
                },
                None => {
                    match find_key(entries, other) {
                        Some(m) => {
                            let km = if m == i { 0 } else if m < i { m + 1 } else { m };
                            assert(out[km] == entries[m]);
                        },
                        None => {},
                    }
                },
            }
        },
        None => {},
    }
}

} // verus!

//! Vector text support: glyph geometry reuse.
//!
//! Tessellated glyph outlines are kept in a least-recently-used cache keyed by
//! (font id, glyph id). The geometry itself is stored by the caller in a table of
//! [`GLYPH_CACHE_CAPACITY`] slots; this module decides which slot each glyph
//! occupies, which glyph is evicted when the cache is full, and how a cached glyph
//! is appended to a mesh.

use vstd::prelude::*;

use lru::LruCache;
use std::num::NonZeroUsize;

use crate::mesh::{appended, offset_pattern, MeshBuffer};
use crate::topology::valid_pattern;

verus! {

/// Number of glyphs kept before the least recently used one is evicted.
pub const GLYPH_CACHE_CAPACITY: usize = 2000;

/// Uniquely identifies a glyph's geometry across fonts: (font id, glyph id).
pub type CacheKey = (usize, u16);

/// Declares the least-recently-used cache of the `lru` crate.
#[verifier::external_type_specification]
#[verifier::external_body]
#[verifier::reject_recursive_types(K)]
#[verifier::reject_recursive_types(V)]
#[verifier::reject_recursive_types(S)]
pub struct ExLruCache<K, V, S>(lru::LruCache<K, V, S>);

/// The (key, slot) entries of the glyph cache, most recently used first.
pub uninterp spec fn glyph_lru_entries(cache: LruCache<(usize, u16), u32>) -> Seq<((usize, u16), u32)>;

/// The capacity the glyph cache was created with.
pub uninterp spec fn glyph_lru_capacity(cache: LruCache<(usize, u16), u32>) -> nat;

/// No key occurs twice.
pub open spec fn keys_unique(entries: Seq<(CacheKey, u32)>) -> bool {
    forall|i: int, j: int|
        0 <= i < entries.len() && 0 <= j < entries.len() && i != j ==> (#[trigger] entries[i]).0
            != (#[trigger] entries[j]).0
}

/// The position of `key` among the entries, if present.
pub open spec fn key_position(entries: Seq<(CacheKey, u32)>, key: CacheKey) -> Option<int> {
    if exists|i: int| 0 <= i < entries.len() && (#[trigger] entries[i]).0 == key {
        Some(choose|i: int| 0 <= i < entries.len() && (#[trigger] entries[i]).0 == key)
    } else {
        None
    }
}

/// The slot stored for `key`, if present.
pub open spec fn slot_of(entries: Seq<(CacheKey, u32)>, key: CacheKey) -> Option<u32> {
    match key_position(entries, key) {
        Some(i) => Some(entries[i].1),
        None => None,
    }
}

/// The entries with the one at position `i` moved to the front.
pub open spec fn promoted(entries: Seq<(CacheKey, u32)>, i: int) -> Seq<(CacheKey, u32)> {
    seq![entries[i]] + entries.remove(i)
}

/// The entries after `put(key, slot)` on a cache of capacity `cap`: an existing key
/// takes the new value and moves to the front; a new key goes to the front,
/// evicting the least recently used entry (the last) when the cache is full.
pub open spec fn put_result(
    entries: Seq<(CacheKey, u32)>,
    cap: nat,
    key: CacheKey,
    slot: u32,
) -> Seq<(CacheKey, u32)> {
    match key_position(entries, key) {
        Some(i) => seq![(key, slot)] + entries.remove(i),
        None => if entries.len() == cap {
            seq![(key, slot)] + entries.drop_last()
        } else {
            seq![(key, slot)] + entries
        },
    }
}

/// `LruCache::new`: an empty cache holding at most `cap` entries.
#[verifier::external_body]
fn lru_new(cap: usize) -> (cache: LruCache<(usize, u16), u32>)
    requires
        cap > 0,
    ensures
        glyph_lru_entries(cache) == Seq::<(CacheKey, u32)>::empty(),
        glyph_lru_capacity(cache) == cap,
{
    LruCache::new(NonZeroUsize::new(cap).unwrap())
}

/// `LruCache::len`: the number of entries.
#[verifier::external_body]
fn lru_len(cache: &LruCache<(usize, u16), u32>) -> (n: usize)
    ensures
        n == glyph_lru_entries(*cache).len(),
{
    cache.len()
}

/// `LruCache::get`: the value of a present key, which becomes the most recently
/// used entry; an absent key leaves the cache unchanged.
#[verifier::external_body]
fn lru_get(cache: &mut LruCache<(usize, u16), u32>, key: CacheKey) -> (r: Option<u32>)
    requires
        keys_unique(glyph_lru_entries(*old(cache))),
    ensures
        r == slot_of(glyph_lru_entries(*old(cache)), key),
        glyph_lru_capacity(*final(cache)) == glyph_lru_capacity(*old(cache)),
        glyph_lru_entries(*final(cache)) == match key_position(glyph_lru_entries(*old(cache)), key) {
            Some(i) => promoted(glyph_lru_entries(*old(cache)), i),
            None => glyph_lru_entries(*old(cache)),
        },
{
    cache.get(&key).copied()
}

/// `LruCache::peek_lru`: the least recently used entry (the last), without
/// changing the order.
#[verifier::external_body]
fn lru_peek_lru(cache: &LruCache<(usize, u16), u32>) -> (r: Option<(CacheKey, u32)>)
    ensures
        glyph_lru_entries(*cache).len() == 0 ==> r is None,
        glyph_lru_entries(*cache).len() > 0 ==> r == Some(glyph_lru_entries(*cache).last()),
{
    cache.peek_lru().map(|(k, v)| (*k, *v))
}

/// `LruCache::put`: see [`put_result`]. The previous value of an existing key
/// is returned.
#[verifier::external_body]
fn lru_put(cache: &mut LruCache<(usize, u16), u32>, key: CacheKey, slot: u32) -> (r: Option<u32>)
    requires
        keys_unique(glyph_lru_entries(*old(cache))),
        glyph_lru_entries(*old(cache)).len() <= glyph_lru_capacity(*old(cache)),
    ensures
        r == slot_of(glyph_lru_entries(*old(cache)), key),
        glyph_lru_capacity(*final(cache)) == glyph_lru_capacity(*old(cache)),
        glyph_lru_entries(*final(cache)) == put_result(
            glyph_lru_entries(*old(cache)),
            glyph_lru_capacity(*old(cache)),
            key,
            slot,
        ),
{
    cache.put(key, slot)
}

/// `LruCache::clear`: removes every entry; the capacity is kept.
#[verifier::external_body]
fn lru_clear(cache: &mut LruCache<(usize, u16), u32>)
    ensures
        glyph_lru_entries(*final(cache)) == Seq::<(CacheKey, u32)>::empty(),
        glyph_lru_capacity(*final(cache)) == glyph_lru_capacity(*old(cache)),
{
    cache.clear()
}


/// Slots are distinct and name positions `0..entries.len()`.
pub open spec fn slots_compact(entries: Seq<(CacheKey, u32)>) -> bool {
    &&& forall|i: int| 0 <= i < entries.len() ==> (#[trigger] entries[i]).1 < entries.len()
    &&& forall|i: int, j: int|
        0 <= i < entries.len() && 0 <= j < entries.len() && i != j ==> (#[trigger] entries[i]).1
            != (#[trigger] entries[j]).1
}

/// The glyph cache: which glyphs have stored geometry, in which slot, and in
/// what order they were last used.
pub struct TextTessellationCache {
    cache: LruCache<(usize, u16), u32>,
}

impl TextTessellationCache {
    /// The (key, slot) entries, most recently used first.
    pub closed spec fn entries(&self) -> Seq<(CacheKey, u32)> {
        glyph_lru_entries(self.cache)
    }

    /// The cache is consistent: keys are unique, it holds at most
    /// [`GLYPH_CACHE_CAPACITY`] glyphs, and the glyphs occupy distinct slots.
    pub closed spec fn well_formed(&self) -> bool {
        let entries = glyph_lru_entries(self.cache);
        &&& glyph_lru_capacity(self.cache) == GLYPH_CACHE_CAPACITY
        &&& entries.len() <= GLYPH_CACHE_CAPACITY
        &&& keys_unique(entries)
        &&& slots_compact(entries)
    }

    /// An empty cache.
    pub fn new() -> (c: Self)
        ensures
            c.well_formed(),
            c.entries() == Seq::<(CacheKey, u32)>::empty(),
    {
        TextTessellationCache { cache: lru_new(GLYPH_CACHE_CAPACITY) }
    }

    /// The slot holding the geometry of `key`, if cached. A cached glyph becomes
    /// the most recently used one.
    pub fn get(&mut self, key: CacheKey) -> (r: Option<u32>)
        requires
            old(self).well_formed(),
        ensures
            final(self).well_formed(),
            final(self).entries().len() <= GLYPH_CACHE_CAPACITY,
            r == slot_of(old(self).entries(), key),
            final(self).entries() == match key_position(old(self).entries(), key) {
                Some(i) => promoted(old(self).entries(), i),
                None => old(self).entries(),
            },
    {
        let ghost before = self.entries();
        let r = lru_get(&mut self.cache, key);
        proof {
            if let Some(i) = key_position(before, key) {
                lemma_promoted_well_formed(before, i);
            }
        }
        r
    }

    /// Makes room for the geometry of `key` and returns the slot where it is to
    /// be stored. A cached key keeps its slot; a new key takes the next unused
    /// slot or, when the cache is full, the slot of the least recently used glyph,
    /// which is evicted. Either way `key` becomes the most recently used glyph.
    pub fn insert(&mut self, key: CacheKey) -> (slot: u32)
        requires
            old(self).well_formed(),
        ensures
            final(self).well_formed(),
            final(self).entries().len() <= GLYPH_CACHE_CAPACITY,
            slot < GLYPH_CACHE_CAPACITY,
            slot_of(final(self).entries(), key) == Some(slot),
            slot_of(old(self).entries(), key) matches Some(s) ==> slot == s,
            final(self).entries() == match key_position(old(self).entries(), key) {
                Some(i) => promoted(old(self).entries(), i),
                None => if old(self).entries().len() == GLYPH_CACHE_CAPACITY {
                    seq![(key, old(self).entries().last().1)] + old(self).entries().drop_last()
                } else {
                    seq![(key, old(self).entries().len() as u32)] + old(self).entries()
                },
            },
    {
        let ghost before = self.entries();
        match lru_get(&mut self.cache, key) {
            Some(slot) => {
                proof {
                    let i = key_position(before, key)->0;
                    lemma_promoted_well_formed(before, i);
                    lemma_front_slot(promoted(before, i), key);
                }
                slot
            },
            None => {
                let n = lru_len(&self.cache);
                let slot: u32 = if n < GLYPH_CACHE_CAPACITY {
                    n as u32
                } else {
                    match lru_peek_lru(&self.cache) {
                        Some(lru) => lru.1,
                        None => 0,
                    }
                };
                let _ = lru_put(&mut self.cache, key, slot);
                proof {
                    let after = self.entries();
                    if n < GLYPH_CACHE_CAPACITY {
                        lemma_fresh_well_formed(before, key);
                    } else {
                        lemma_evict_well_formed(before, key);
                    }
                    lemma_front_slot(after, key);
                }
                slot
            },
        }
    }

    /// Forgets every cached glyph.
    pub fn clear(&mut self)
        requires
            old(self).well_formed(),
        ensures
            final(self).well_formed(),
            final(self).entries() == Seq::<(CacheKey, u32)>::empty(),
    {
        lru_clear(&mut self.cache);
    }
}

/// Moving an entry to the front keeps keys unique and slots compact.
proof fn lemma_promoted_well_formed(entries: Seq<(CacheKey, u32)>, i: int)
    requires
        0 <= i < entries.len(),
        keys_unique(entries),
        slots_compact(entries),
    ensures
        keys_unique(promoted(entries, i)),
        slots_compact(promoted(entries, i)),
        promoted(entries, i).len() == entries.len(),
{
    let p = promoted(entries, i);
    // Position `a` of the promoted sequence came from this position of `entries`.
    assert forall|a: int| 0 <= a < p.len() implies #[trigger] p[a] == entries[
        if a == 0 { i } else if a - 1 < i { a - 1 } else { a }
    ] by {}
    assert forall|a: int, b: int| 0 <= a < p.len() && 0 <= b < p.len() && a != b implies
        (#[trigger] p[a]).0 != (#[trigger] p[b]).0 && p[a].1 != p[b].1 by {
        let sa = if a == 0 { i } else if a - 1 < i { a - 1 } else { a };
        let sb = if b == 0 { i } else if b - 1 < i { b - 1 } else { b };
        assert(p[a] == entries[sa] && p[b] == entries[sb]);
    }
    assert forall|a: int| 0 <= a < p.len() implies (#[trigger] p[a]).1 < p.len() by {
        let sa = if a == 0 { i } else if a - 1 < i { a - 1 } else { a };
        assert(p[a] == entries[sa]);
    }
}

/// Adding a new key at the front with the next unused slot keeps the cache
/// consistent.
proof fn lemma_fresh_well_formed(entries: Seq<(CacheKey, u32)>, key: CacheKey)
    requires
        key_position(entries, key) is None,
        keys_unique(entries),
        slots_compact(entries),
        entries.len() < u32::MAX,
    ensures
        keys_unique(seq![(key, entries.len() as u32)] + entries),
        slots_compact(seq![(key, entries.len() as u32)] + entries),
{
    let p = seq![(key, entries.len() as u32)] + entries;
    assert forall|a: int| 1 <= a < p.len() implies #[trigger] p[a] == entries[a - 1] by {}
    assert forall|a: int, b: int| 0 <= a < p.len() && 0 <= b < p.len() && a != b implies
        (#[trigger] p[a]).0 != (#[trigger] p[b]).0 && p[a].1 != p[b].1 by {
        if a == 0 {
            assert(p[b] == entries[b - 1]);
        } else if b == 0 {
            assert(p[a] == entries[a - 1]);
        } else {
            assert(p[a] == entries[a - 1] && p[b] == entries[b - 1]);
        }
    }
    assert forall|a: int| 0 <= a < p.len() implies (#[trigger] p[a]).1 < p.len() by {
        if a > 0 {
            assert(p[a] == entries[a - 1]);
        }
    }
}

/// Replacing the least recently used entry by a new key that takes over its
/// slot keeps the cache consistent.
proof fn lemma_evict_well_formed(entries: Seq<(CacheKey, u32)>, key: CacheKey)
    requires
        entries.len() > 0,
        key_position(entries, key) is None,
        keys_unique(entries),
        slots_compact(entries),
    ensures
        keys_unique(seq![(key, entries.last().1)] + entries.drop_last()),
        slots_compact(seq![(key, entries.last().1)] + entries.drop_last()),
{
    let n = entries.len() as int;
    let p = seq![(key, entries.last().1)] + entries.drop_last();
    assert forall|a: int| 1 <= a < p.len() implies #[trigger] p[a] == entries[a - 1] by {}
    assert forall|a: int, b: int| 0 <= a < p.len() && 0 <= b < p.len() && a != b implies
        (#[trigger] p[a]).0 != (#[trigger] p[b]).0 && p[a].1 != p[b].1 by {
        if a == 0 {
            assert(p[b] == entries[b - 1]);
            assert(entries[n - 1] == entries.last());
        } else if b == 0 {
            assert(p[a] == entries[a - 1]);
            assert(entries[n - 1] == entries.last());
        } else {
            assert(p[a] == entries[a - 1] && p[b] == entries[b - 1]);
        }
    }
    assert forall|a: int| 0 <= a < p.len() implies (#[trigger] p[a]).1 < p.len() by {
        if a > 0 {
            assert(p[a] == entries[a - 1]);
        } else {
            assert(entries[n - 1] == entries.last());
        }
    }
}

/// In a cache with unique keys, the slot of the front entry's key is its slot.
proof fn lemma_front_slot(entries: Seq<(CacheKey, u32)>, key: CacheKey)
    requires
        entries.len() > 0,
        entries[0].0 == key,
        keys_unique(entries),
    ensures
        slot_of(entries, key) == Some(entries[0].1),
{
    let i = choose|i: int| 0 <= i < entries.len() && (#[trigger] entries[i]).0 == key;
    assert(entries[i].0 == key);
}


/// Two different cached glyphs never share a storage slot, and every slot lies
/// below the cache capacity.
pub proof fn lemma_slots_distinct(cache: TextTessellationCache, a: CacheKey, b: CacheKey)
    requires
        cache.well_formed(),
        slot_of(cache.entries(), a) is Some,
        slot_of(cache.entries(), b) is Some,
    ensures
        a != b ==> slot_of(cache.entries(), a) != slot_of(cache.entries(), b),
        slot_of(cache.entries(), a)->0 < GLYPH_CACHE_CAPACITY,
{
    let e = cache.entries();
    let i = key_position(e, a)->0;
    let j = key_position(e, b)->0;
    assert(e[i].0 == a && e[j].0 == b);
}

/// Glyph indices widened to the index type of a mesh.
pub open spec fn widened(indices: Seq<u16>) -> Seq<u32> {
    indices.map_values(|i: u16| i as u32)
}

/// Every glyph index is kept and widened unchanged: same length, same entries.
pub proof fn lemma_widened(indices: Seq<u16>)
    ensures
        widened(indices).len() == indices.len(),
        forall|k: int| 0 <= k < indices.len() ==> #[trigger] widened(indices)[k] == indices[k] as u32,
{
}

/// Appending a glyph keeps the mesh's earlier indices and adds one index per
/// glyph index: entry `k` of the glyph becomes `indices[k]` plus the number of
/// vertices the mesh had before, and the glyph's vertices follow the old ones.
pub proof fn lemma_glyph_append<V>(
    old_buffer: MeshBuffer<V>,
    new_buffer: MeshBuffer<V>,
    vertices: Seq<V>,
    indices: Seq<u16>,
)
    requires
        appended(&old_buffer, &new_buffer, vertices, widened(indices)),
        forall|k: int|
            0 <= k < indices.len() ==> old_buffer.vertices@.len() + (#[trigger] indices[k]) <= u32::MAX,
    ensures
        new_buffer.vertices@ == old_buffer.vertices@ + vertices,
        new_buffer.indices@.len() == old_buffer.indices@.len() + indices.len(),
        forall|k: int|
            0 <= k < old_buffer.indices@.len() ==> #[trigger] new_buffer.indices@[k] == old_buffer.indices@[k],
        forall|k: int|
            0 <= k < indices.len() ==> #[trigger] new_buffer.indices@[old_buffer.indices@.len() + k]
                == indices[k] + old_buffer.vertices@.len(),
{
    let n = old_buffer.indices@.len();
    assert forall|k: int| 0 <= k < indices.len() implies #[trigger] new_buffer.indices@[n + k]
        == indices[k] + old_buffer.vertices@.len() by {
        assert(new_buffer.indices@[n + k] == offset_pattern(
            widened(indices),
            old_buffer.vertices@.len() as int,
        )[k]);
    }
}

/// Appends one cached glyph to the mesh: its (already placed) vertices, and its
/// indices shifted to the position of its first vertex.
pub fn flush_character_to_mesh<V>(buffer: &mut MeshBuffer<V>, vertices: Vec<V>, indices: &[u16])
    requires
        old(buffer).has_room_for(vertices@.len()),
        forall|k: int|
            0 <= k < indices@.len() ==> old(buffer).vertices@.len() + (#[trigger] indices@[k])
                <= u32::MAX,
    ensures
        appended(old(buffer), final(buffer), vertices@, widened(indices@)),
        final(buffer).vertices@ == old(buffer).vertices@ + vertices@,
        final(buffer).indices@.len() == old(buffer).indices@.len() + indices@.len(),
        forall|k: int|
            0 <= k < indices@.len() ==> #[trigger] final(buffer).indices@[old(buffer).indices@.len() + k]
                == indices@[k] + old(buffer).vertices@.len(),
        old(buffer).well_formed() && valid_pattern(widened(indices@), vertices@.len() as int)
            ==> final(buffer).well_formed(),
{
    let mut wide: Vec<u32> = Vec::new();
    let mut i: usize = 0;
    while i < indices.len()
        invariant
            0 <= i <= indices@.len(),
            wide@ == widened(indices@).take(i as int),
        decreases indices@.len() - i,
    {
        wide.push(indices[i] as u32);
        assert(wide@ =~= widened(indices@).take(i + 1));
        i = i + 1;
    }
    assert(wide@ =~= widened(indices@));
    let ghost old_buffer = *buffer;
    let ghost glyph = vertices@;
    buffer.add(wide.as_slice(), vertices);
    proof {
        lemma_glyph_append(old_buffer, *buffer, glyph, indices@);
    }
}

} // verus!

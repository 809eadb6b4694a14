//! Hit-box bookkeeping for chart interactions.
//!
//! Interactions are registered while a frame is drawn and later tested against
//! the pointer. The geometric hit test works on screen coordinates and is run by
//! the caller; this module keeps the registry (in registration order, one entry
//! per id) and decides which of the hit interactions wins.

use vstd::prelude::*;

use indexmap::IndexMap;
use rapidhash::fast::RandomState;

verus! {

/// Declares the insertion-ordered map of the `indexmap` crate.
#[verifier::external_type_specification]
#[verifier::external_body]
#[verifier::reject_recursive_types(K)]
#[verifier::reject_recursive_types(V)]
#[verifier::reject_recursive_types(S)]
pub struct ExIndexMap<K, V, S>(indexmap::IndexMap<K, V, S>);

/// Declares the randomly seeded hasher of the `rapidhash` crate.
#[verifier::external_type_specification]
#[verifier::external_body]
pub struct ExRapidRandomState<const AVALANCHE: bool, const SPONGE: bool, const COMPACT: bool, const PROTECTED: bool>(
    rapidhash::inner::RandomState<AVALANCHE, SPONGE, COMPACT, PROTECTED>,
);

/// The (id, priority) entries of the registry map, in the map's order.
pub uninterp spec fn registry_entries(map: IndexMap<u64, u16, RandomState>) -> Seq<(u64, u16)>;


/// No key occurs twice among the entries.
pub open spec fn unique_ids(entries: Seq<(u64, u16)>) -> bool {
    forall|i: int, j: int|
        0 <= i < entries.len() && 0 <= j < entries.len() && i != j ==> (#[trigger] entries[i]).0
            != (#[trigger] entries[j]).0
}

/// The position of `id` among the entries, if it occurs.
pub open spec fn position_of(entries: Seq<(u64, u16)>, id: u64) -> Option<int> {
    if exists|i: int| 0 <= i < entries.len() && (#[trigger] entries[i]).0 == id {
        Some(choose|i: int| 0 <= i < entries.len() && (#[trigger] entries[i]).0 == id)
    } else {
        None
    }
}

/// The entries after inserting `id` with `priority`: an id already present keeps
/// its place and takes the new priority; a new id goes last.
pub open spec fn inserted(entries: Seq<(u64, u16)>, id: u64, priority: u16) -> Seq<(u64, u16)> {
    match position_of(entries, id) {
        Some(i) => entries.update(i, (id, priority)),
        None => entries.push((id, priority)),
    }
}

/// The priority registered for `id`, if any.
pub open spec fn priority_of(entries: Seq<(u64, u16)>, id: u64) -> Option<u16> {
    match position_of(entries, id) {
        Some(i) => Some(entries[i].1),
        None => None,
    }
}

/// `rapidhash::fast::RandomState::new`: a hasher with a fresh per-instance seed.
/// Nothing is stated of the seed.
#[verifier::external_body]
fn fresh_random_state() -> RandomState {
    RandomState::new()
}

/// `IndexMap::with_hasher`: an empty map using the given hasher.
#[verifier::external_body]
fn map_with_hasher(hasher: RandomState) -> (map: IndexMap<u64, u16, RandomState>)
    ensures
        registry_entries(map) == Seq::<(u64, u16)>::empty(),
{
    IndexMap::with_hasher(hasher)
}

/// `IndexMap::insert`: an existing key keeps its place in the order and its
/// value is replaced (the old value is returned); a new key is appended last
/// (and `None` is returned).
#[verifier::external_body]
fn map_insert(map: &mut IndexMap<u64, u16, RandomState>, id: u64, priority: u16) -> (previous:
    Option<u16>)
    ensures
        registry_entries(*final(map)) == inserted(registry_entries(*old(map)), id, priority),
        previous == priority_of(registry_entries(*old(map)), id),
{
    map.insert(id, priority)
}

/// `IndexMap::get`: the value stored under the key, if present.
#[verifier::external_body]
fn map_get(map: &IndexMap<u64, u16, RandomState>, id: u64) -> (r: Option<u16>)
    ensures
        r == priority_of(registry_entries(*map), id),
{
    map.get(&id).copied()
}

/// `IndexMap::get_index`: the entry at a position of the order, if in range.
#[verifier::external_body]
fn map_get_index(map: &IndexMap<u64, u16, RandomState>, index: usize) -> (r: Option<(u64, u16)>)
    ensures
        index < registry_entries(*map).len() ==> r == Some(registry_entries(*map)[index as int]),
        index >= registry_entries(*map).len() ==> r is None,
{
    map.get_index(index).map(|(k, v)| (*k, *v))
}

/// `IndexMap::len`: the number of entries.
#[verifier::external_body]
fn map_len(map: &IndexMap<u64, u16, RandomState>) -> (n: usize)
    ensures
        n == registry_entries(*map).len(),
{
    map.len()
}

/// `IndexMap::clear`: removes every entry.
#[verifier::external_body]
fn map_clear(map: &mut IndexMap<u64, u16, RandomState>)
    ensures
        registry_entries(*final(map)) == Seq::<(u64, u16)>::empty(),
{
    map.clear()
}


/// Registering keeps ids unique, and the registered priority is the one read
/// back for that id.
pub proof fn lemma_inserted_unique(entries: Seq<(u64, u16)>, id: u64, priority: u16)
    requires
        unique_ids(entries),
    ensures
        unique_ids(inserted(entries, id, priority)),
        priority_of(inserted(entries, id, priority), id) == Some(priority),
{
    let after = inserted(entries, id, priority);
    match position_of(entries, id) {
        Some(p) => {
            assert(after[p].0 == id);
            assert forall|i: int, j: int|
                0 <= i < after.len() && 0 <= j < after.len() && i != j implies (#[trigger] after[i]).0
                != (#[trigger] after[j]).0 by {
                assert(entries[i].0 == after[i].0 && entries[j].0 == after[j].0);
            }
            assert(position_of(after, id) == Some(p)) by {
                let q = choose|i: int| 0 <= i < after.len() && (#[trigger] after[i]).0 == id;
                assert(after[q].0 == id);
            }
        },
        None => {
            let n = entries.len() as int;
            assert(after[n].0 == id);
            assert forall|i: int, j: int|
                0 <= i < after.len() && 0 <= j < after.len() && i != j implies (#[trigger] after[i]).0
                != (#[trigger] after[j]).0 by {
                if i < n && j < n {
                    assert(entries[i].0 == after[i].0 && entries[j].0 == after[j].0);
                } else if i == n {
                    assert(after[j] == entries[j]);
                } else {
                    assert(after[i] == entries[i]);
                }
            }
            assert(position_of(after, id) == Some(n)) by {
                let q = choose|i: int| 0 <= i < after.len() && (#[trigger] after[i]).0 == id;
                assert(after[q].0 == id);
            }
        },
    }
}

/// Whether the entry at `position` passed the hit test.
pub open spec fn is_hit(hits: Seq<bool>, position: int) -> bool {
    0 <= position < hits.len() && hits[position]
}

/// The hit entries at positions `from..len`, most recently registered first.
pub open spec fn hits_from(entries: Seq<(u64, u16)>, hits: Seq<bool>, from: int) -> Seq<(u64, u16)>
    decreases entries.len() - from,
{
    if from >= entries.len() || from < 0 {
        Seq::empty()
    } else {
        let later = hits_from(entries, hits, from + 1);
        if is_hit(hits, from) {
            later.push(entries[from])
        } else {
            later
        }
    }
}

/// `position` holds the winning hit: among the hit entries it has the smallest
/// priority value, and no later-registered hit entry ties with it.
pub open spec fn is_winner(entries: Seq<(u64, u16)>, hits: Seq<bool>, position: int) -> bool {
    &&& 0 <= position < entries.len()
    &&& is_hit(hits, position)
    &&& forall|j: int|
        0 <= j < entries.len() && is_hit(hits, j) ==> entries[position].1 <= (#[trigger] entries[j]).1
    &&& forall|j: int|
        position < j < entries.len() && is_hit(hits, j) ==> entries[position].1 < (#[trigger] entries[j]).1
}

/// The registry that collects hit boxes while a frame is drawn: one entry per
/// interaction id, holding its priority, in registration order.
pub struct InteractionsCache {
    map: IndexMap<u64, u16, RandomState>,
}

impl InteractionsCache {
    /// The registered (id, priority) entries in registration order.
    pub closed spec fn entries(&self) -> Seq<(u64, u16)> {
        registry_entries(self.map)
    }

    #[verifier::type_invariant]
    closed spec fn ids_unique(&self) -> bool {
        unique_ids(self.entries())
    }

    /// An empty registry.
    pub fn new() -> (c: Self)
        ensures
            c.entries() == Seq::<(u64, u16)>::empty(),
    {
        let map = map_with_hasher(fresh_random_state());
        InteractionsCache { map }
    }

    /// Number of registered interactions.
    pub fn len(&self) -> (n: usize)
        ensures
            n == self.entries().len(),
            unique_ids(self.entries()),
    {
        proof {
            use_type_invariant(self);
        }
        map_len(&self.map)
    }

    /// The entry registered at `index` (in registration order), if in range.
    pub fn entry_at(&self, index: usize) -> (r: Option<(u64, u16)>)
        ensures
            index < self.entries().len() ==> r == Some(self.entries()[index as int]),
            index >= self.entries().len() ==> r is None,
    {
        map_get_index(&self.map, index)
    }

    /// The priority registered for `id`, if any.
    pub fn get(&self, id: u64) -> (r: Option<u16>)
        ensures
            r == priority_of(self.entries(), id),
    {
        map_get(&self.map, id)
    }

    /// Registers an interaction. Re-registering an id keeps its place and
    /// replaces its priority.
    pub fn insert(&mut self, id: u64, priority: u16)
        ensures
            final(self).entries() == inserted(old(self).entries(), id, priority),
            priority_of(final(self).entries(), id) == Some(priority),
            unique_ids(final(self).entries()),
    {
        proof {
            use_type_invariant(&*self);
            lemma_inserted_unique(self.entries(), id, priority);
        }
        let mut map = map_with_hasher(fresh_random_state());
        std::mem::swap(&mut map, &mut self.map);
        let _ = map_insert(&mut map, id, priority);
        self.map = map;
    }

    /// Removes every registration.
    pub fn clear(&mut self)
        ensures
            final(self).entries() == Seq::<(u64, u16)>::empty(),
    {
        let mut map = map_with_hasher(fresh_random_state());
        std::mem::swap(&mut map, &mut self.map);
        map_clear(&mut map);
        self.map = map;
    }

    /// The hit interactions, most recently registered first. `hits[i]` tells
    /// whether the interaction at registration position `i` intersects the query;
    /// positions beyond `hits` count as missed.
    pub fn query(&self, hits: &Vec<bool>) -> (r: Vec<(u64, u16)>)
        ensures
            r@ == hits_from(self.entries(), hits@, 0),
    {
        let n = self.len();
        let mut r: Vec<(u64, u16)> = Vec::new();
        let mut i: usize = n;
        while i > 0
            invariant
                n == self.entries().len(),
                i <= n,
                r@ == hits_from(self.entries(), hits@, i as int),
            decreases i,
        {
            i = i - 1;
            let entry = self.entry_at(i);
            if i < hits.len() && hits[i] {
                match entry {
                    Some(e) => {
                        r.push(e);
                    },
                    None => {},
                }
            }
        }
        r
    }

    /// The hit interaction with the highest priority (the smallest priority
    /// value); among equal priorities the most recently registered one wins.
    /// `None` when nothing is hit.
    pub fn query_prioritized(&self, hits: &Vec<bool>) -> (r: Option<(u64, u16)>)
        ensures
            r is None <==> (forall|j: int| 0 <= j < self.entries().len() ==> !is_hit(hits@, j)),
            r matches Some(e) ==> exists|p: int|
                is_winner(self.entries(), hits@, p) && self.entries()[p] == e,
    {
        let n = self.len();
        let mut current: Option<(u64, u16)> = None;
        let ghost mut current_pos: int = -1;
        let mut i: usize = n;
        while i > 0
            invariant
                n == self.entries().len(),
                i <= n,
                current is None <==> (forall|j: int| i <= j < n ==> !is_hit(hits@, j)),
                current is Some ==> {
                    &&& i <= current_pos < n
                    &&& is_hit(hits@, current_pos)
                    &&& current == Some(self.entries()[current_pos])
                    &&& forall|j: int|
                        i <= j < n && is_hit(hits@, j) ==> self.entries()[current_pos].1 <= (
                        #[trigger] self.entries()[j]).1
                    &&& forall|j: int|
                        current_pos < j < n && is_hit(hits@, j) ==> self.entries()[current_pos].1
                            < (#[trigger] self.entries()[j]).1
                },
            decreases i,
        {
            i = i - 1;
            if i < hits.len() && hits[i] {
                assert(is_hit(hits@, i as int));
                let entry = self.entry_at(i);
                match entry {
                    Some(e) => {
                        let better = match current {
                            None => true,
                            Some(c) => c.1 > e.1,
                        };
                        if better {
                            current = Some(e);
                            proof {
                                current_pos = i as int;
                            }
                        }
                    },
                    None => {},
                }
            } else {
                assert(!is_hit(hits@, i as int));
            }
        }
        proof {
            if current is Some {
                assert(is_winner(self.entries(), hits@, current_pos));
            }
        }
        current
    }
}


/// The priority an interaction has until one is set: the lowest.
pub open spec fn default_priority() -> u16 {
    255
}

/// An interactive region of a chart: an id, a priority (0 is the highest) and an
/// area to hit-test.
pub struct Interaction<A> {
    pub id: u64,
    pub priority: u16,
    pub area: A,
}

impl<A> Interaction<A> {
    /// A new interaction with the default (lowest) priority.
    pub fn new(id: u64, area: A) -> (r: Self)
        ensures
            r.id == id,
            r.area == area,
            r.priority == default_priority(),
    {
        Interaction { id, priority: 255, area }
    }

    /// Sets the priority of the interaction: 0 is the highest priority,
    /// 255 the lowest; the default is 255.
    pub fn priority(self, prio: u16) -> (r: Self)
        ensures
            r.id == self.id,
            r.area == self.area,
            r.priority == prio,
    {
        Interaction { priority: prio, ..self }
    }
}


/// Laws of re-registration: the last priority registered for an id wins, a known
/// id keeps its place (the order of ids does not change), and only a new id
/// lengthens the registry, by exactly one entry at the end.
pub proof fn lemma_registry_laws(entries: Seq<(u64, u16)>, id: u64, p: u16, q: u16)
    requires
        unique_ids(entries),
    ensures
        inserted(inserted(entries, id, p), id, q) == inserted(entries, id, q),
        position_of(entries, id) is Some ==> {
            &&& inserted(entries, id, p).len() == entries.len()
            &&& forall|i: int|
                0 <= i < entries.len() ==> (#[trigger] inserted(entries, id, p)[i]).0 == entries[i].0
        },
        position_of(entries, id) is None ==> inserted(entries, id, p) == entries.push((id, p)),
{
    lemma_inserted_unique(entries, id, p);
    let once = inserted(entries, id, p);
    match position_of(entries, id) {
        Some(i) => {
            assert(position_of(once, id) == Some(i)) by {
                let k = choose|k: int| 0 <= k < once.len() && (#[trigger] once[k]).0 == id;
                assert(once[k].0 == id && once[i].0 == id);
            }
            assert(inserted(once, id, q) =~= inserted(entries, id, q));
        },
        None => {
            let n = entries.len() as int;
            assert(position_of(once, id) == Some(n)) by {
                let k = choose|k: int| 0 <= k < once.len() && (#[trigger] once[k]).0 == id;
                assert(once[k].0 == id && once[n].0 == id);
            }
            assert(inserted(once, id, q) =~= inserted(entries, id, q));
        },
    }
}

} // verus!

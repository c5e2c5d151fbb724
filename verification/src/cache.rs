//! The append-only cache of entities already decoded and kept.

use vstd::prelude::*;

verus! {

/// One cached entity: its runtime-assigned id, the label decoded from its
/// payload, and the persistent reference created for it.
#[derive(Debug)]
pub struct CacheEntry {
    pub entity_id: u64,
    pub label: String,
    pub handle: u64,
}

/// The mathematical content of the cache: each entry's id and label,
/// in insertion order.
pub type CacheModel = Seq<(u64, Seq<char>)>;

/// Looks an id up in a cache model; the first (and, for a cache kept free of
/// duplicates, only) entry with that id wins.
pub open spec fn model_lookup(m: CacheModel, id: u64) -> Option<Seq<char>>
    decreases m.len(),
{
    if m.len() == 0 {
        None
    } else if m[0].0 == id {
        Some(m[0].1)
    } else {
        model_lookup(m.drop_first(), id)
    }
}

/// A lookup misses exactly when no entry carries the id.
pub proof fn lemma_model_lookup_none(m: CacheModel, id: u64)
    ensures
        model_lookup(m, id) is None <==> forall|i: int| 0 <= i < m.len() ==> m[i].0 != id,
    decreases m.len(),
{
    if m.len() > 0 {
        lemma_model_lookup_none(m.drop_first(), id);
        assert(forall|i: int|
            0 <= i < m.drop_first().len() ==> #[trigger] m.drop_first()[i] == m[i + 1]);
        if model_lookup(m, id) is None {
            assert forall|i: int| 0 <= i < m.len() implies m[i].0 != id by {
                if i > 0 {
                    assert(m.drop_first()[i - 1] == m[i]);
                }
            }
        }
        if forall|i: int| 0 <= i < m.len() ==> m[i].0 != id {
            assert(forall|i: int|
                0 <= i < m.drop_first().len() ==> (#[trigger] m.drop_first()[i]).0 != id);
            assert(model_lookup(m, id) is None);
        }
    }
}

/// A hit returns the label of some entry carrying the id.
pub proof fn lemma_model_lookup_some(m: CacheModel, id: u64)
    requires
        model_lookup(m, id) is Some,
    ensures
        exists|i: int|
            0 <= i < m.len() && m[i].0 == id && m[i].1 == model_lookup(m, id).unwrap(),
    decreases m.len(),
{
    if m[0].0 != id {
        lemma_model_lookup_some(m.drop_first(), id);
        let j = choose|i: int|
            0 <= i < m.drop_first().len() && m.drop_first()[i].0 == id
                && m.drop_first()[i].1 == model_lookup(m.drop_first(), id).unwrap();
        assert(m[j + 1] == m.drop_first()[j]);
    }
}

/// Appending an entry changes lookups only for ids that missed before.
pub proof fn lemma_model_lookup_push(m: CacheModel, p: (u64, Seq<char>), id: u64)
    ensures
        model_lookup(m.push(p), id) == if model_lookup(m, id) is Some {
            model_lookup(m, id)
        } else if p.0 == id {
            Some(p.1)
        } else {
            None::<Seq<char>>
        },
    decreases m.len(),
{
    if m.len() == 0 {
        assert(m.push(p).drop_first() =~= Seq::<(u64, Seq<char>)>::empty());
    } else {
        assert(m.push(p).drop_first() =~= m.drop_first().push(p));
        lemma_model_lookup_push(m.drop_first(), p, id);
    }
}

/// A lookup in a concatenation searches the front part first.
pub proof fn lemma_model_lookup_append(m1: CacheModel, m2: CacheModel, id: u64)
    ensures
        model_lookup(m1 + m2, id) == if model_lookup(m1, id) is Some {
            model_lookup(m1, id)
        } else {
            model_lookup(m2, id)
        },
    decreases m1.len(),
{
    if m1.len() == 0 {
        assert(m1 + m2 =~= m2);
    } else {
        assert((m1 + m2).drop_first() =~= m1.drop_first() + m2);
        lemma_model_lookup_append(m1.drop_first(), m2, id);
    }
}

/// The append-only mapping from entity id to decoded label and persistent
/// reference. Once inserted, an entity is never evicted, even if its
/// tracking state is later lost.
#[derive(Debug)]
pub struct EntityCache {
    pub entries: Vec<CacheEntry>,
}

impl EntityCache {
    /// The cache's id-and-label content, in insertion order.
    pub open spec fn model(self) -> CacheModel {
        self.entries@.map_values(|e: CacheEntry| (e.entity_id, e.label@))
    }

    /// The cached persistent references, in insertion order.
    pub open spec fn spec_handles(self) -> Seq<u64> {
        self.entries@.map_values(|e: CacheEntry| e.handle)
    }

    /// No id occurs twice.
    pub open spec fn wf(self) -> bool {
        forall|i: int, j: int|
            0 <= i < j < self.entries@.len()
                ==> self.entries@[i].entity_id != self.entries@[j].entity_id
    }

    /// An empty cache.
    pub fn new() -> (r: Self)
        ensures
            r.entries@.len() == 0,
            r.wf(),
    {
        EntityCache { entries: Vec::new() }
    }

    /// Looks an entity id up, returning a copy of the stored label.
    pub fn lookup_label(&self, id: u64) -> (r: Option<String>)
        ensures
            r is Some <==> model_lookup(self.model(), id) is Some,
            r is Some ==> r.unwrap()@ == model_lookup(self.model(), id).unwrap(),
    {
        let ghost m = self.model();
        let mut k: usize = 0;
        while k < self.entries.len()
            invariant
                k <= self.entries@.len(),
                m == self.model(),
                forall|i: int| 0 <= i < k ==> self.entries@[i].entity_id != id,
            decreases self.entries@.len() - k,
        {
            if self.entries[k].entity_id == id {
                proof {
                    assert(forall|i: int|
                        0 <= i < m.len() ==> #[trigger] m[i]
                            == (self.entries@[i].entity_id, self.entries@[i].label@));
                    lemma_model_lookup_first_match(m, id, k as int);
                }
                return Some(self.entries[k].label.clone());
            }
            k += 1;
        }
        proof {
            assert(forall|i: int|
                0 <= i < m.len() ==> #[trigger] m[i]
                    == (self.entries@[i].entity_id, self.entries@[i].label@));
            lemma_model_lookup_none(m, id);
        }
        None
    }

    /// Appends an entity that is not yet present.
    pub fn insert(&mut self, entity_id: u64, label: String, handle: u64)
        requires
            old(self).wf(),
            model_lookup(old(self).model(), entity_id) is None,
        ensures
            final(self).wf(),
            final(self).entries@.len() == old(self).entries@.len() + 1,
            forall|i: int|
                0 <= i < old(self).entries@.len()
                    ==> final(self).entries@[i] == old(self).entries@[i],
            final(self).entries@.last().entity_id == entity_id,
            final(self).entries@.last().label@ == label@,
            final(self).entries@.last().handle == handle,
            final(self).model() == old(self).model().push((entity_id, label@)),
            final(self).spec_handles() == old(self).spec_handles().push(handle),
    {
        let ghost m = self.model();
        proof {
            lemma_model_lookup_none(m, entity_id);
            assert(forall|i: int|
                0 <= i < m.len() ==> #[trigger] m[i]
                    == (self.entries@[i].entity_id, self.entries@[i].label@));
        }
        self.entries.push(CacheEntry { entity_id, label, handle });
        proof {
            let oe = old(self).entries@;
            let ne = self.entries@;
            assert(forall|i: int| 0 <= i < oe.len() ==> (#[trigger] ne[i]) == oe[i]);
            assert(forall|i: int, j: int|
                0 <= i < j < ne.len() ==> (#[trigger] ne[i].entity_id)
                    != (#[trigger] ne[j].entity_id)) by {
                assert(ne.last().entity_id == entity_id);
                assert(forall|i: int| 0 <= i < m.len() ==> (#[trigger] m[i]).0 != entity_id);
                assert(forall|i: int|
                    0 <= i < oe.len() ==> (#[trigger] oe[i].entity_id) == m[i].0);
            };
            assert(self.model() =~= m.push((entity_id, ne.last().label@)));
            assert(self.spec_handles() =~= old(self).spec_handles().push(handle));
        }
    }

    /// The cached persistent references, for scoping an update snapshot to
    /// exactly the already-known entities.
    pub fn handles(&self) -> (r: Vec<u64>)
        ensures
            r@ == self.spec_handles(),
    {
        let mut r: Vec<u64> = Vec::new();
        let mut k: usize = 0;
        while k < self.entries.len()
            invariant
                k <= self.entries@.len(),
                r@.len() == k,
                forall|i: int| 0 <= i < k ==> r@[i] == self.entries@[i].handle,
            decreases self.entries@.len() - k,
        {
            r.push(self.entries[k].handle);
            k += 1;
        }
        proof {
            assert(r@ =~= self.spec_handles());
        }
        r
    }
}

/// If the first entry carrying `id` sits at index `k`, the lookup returns
/// that entry's label.
pub proof fn lemma_model_lookup_first_match(m: CacheModel, id: u64, k: int)
    requires
        0 <= k < m.len(),
        m[k].0 == id,
        forall|i: int| 0 <= i < k ==> m[i].0 != id,
    ensures
        model_lookup(m, id) == Some(m[k].1),
    decreases k,
{
    if k > 0 {
        assert(forall|i: int|
            0 <= i < m.drop_first().len() ==> #[trigger] m.drop_first()[i] == m[i + 1]);
        lemma_model_lookup_first_match(m.drop_first(), id, k - 1);
    }
}

} // verus!

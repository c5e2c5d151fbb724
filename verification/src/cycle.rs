//! What one poll cycle does with the entities a snapshot query reported:
//! per-entity classification, label decoding, filtering, and the assembled
//! output, all as one mathematical description.

use vstd::prelude::*;
use crate::cache::{model_lookup, CacheModel};
use crate::cache::{lemma_model_lookup_append, lemma_model_lookup_push, lemma_model_lookup_some};
use crate::decode::spec_decode_label;
use crate::entity::{entity_valid, EntityRecord};
use crate::filter::LabelFilter;
use crate::pose::Pose;

verus! {

/// How one queried entity is handled this cycle.
#[derive(Clone, Copy, Debug, PartialEq, Eq, Structural)]
pub enum EntityPlan {
    /// Failed a validation check: skipped for this cycle only.
    Skip,
    /// Valid and already cached: the stored label is reused, never re-decoded.
    UseCached,
    /// Valid but not yet cached: its label payload must be fetched from the
    /// buffer with this id, scoped to the current snapshot.
    Fetch(u64),
}

/// Classifies one entity against the cache: invalid entities are skipped,
/// cached ones reuse their label, and the rest need a payload fetch.
pub open spec fn classify(m: CacheModel, target_capability: u64, e: EntityRecord) -> EntityPlan {
    if !entity_valid(e, target_capability) {
        EntityPlan::Skip
    } else if model_lookup(m, e.entity_id) is Some {
        EntityPlan::UseCached
    } else {
        EntityPlan::Fetch(e.marker.buffer_id)
    }
}

/// The label this entity contributes to the cycle's output, if any: its
/// cached label, or its freshly decoded label when that passes the filter.
pub open spec fn step_emits(
    m: CacheModel,
    filter: LabelFilter,
    target_capability: u64,
    e: EntityRecord,
    buf: Option<Seq<u8>>,
) -> Option<Seq<char>> {
    match classify(m, target_capability, e) {
        EntityPlan::Skip => None,
        EntityPlan::UseCached => Some(model_lookup(m, e.entity_id).unwrap()),
        EntityPlan::Fetch(_) => match spec_decode_label(buf.unwrap()) {
            Some(l) => if filter.allows(l) {
                Some(l)
            } else {
                None
            },
            None => None,
        },
    }
}

/// The label under which this entity is newly cached this cycle, if any:
/// only a freshly decoded label that passes the filter is cached.
pub open spec fn step_registers(
    m: CacheModel,
    filter: LabelFilter,
    target_capability: u64,
    e: EntityRecord,
    buf: Option<Seq<u8>>,
) -> Option<Seq<char>> {
    if classify(m, target_capability, e) is Fetch {
        match spec_decode_label(buf.unwrap()) {
            Some(l) => if filter.allows(l) {
                Some(l)
            } else {
                None
            },
            None => None,
        }
    } else {
        None
    }
}

/// Whether this entity's payload had to be decoded and was not valid text —
/// fatal to the whole poll call.
pub open spec fn step_fails(
    m: CacheModel,
    filter: LabelFilter,
    target_capability: u64,
    e: EntityRecord,
    buf: Option<Seq<u8>>,
) -> bool {
    classify(m, target_capability, e) is Fetch && spec_decode_label(buf.unwrap()) is None
}

/// The `(label, pose)` pairs assembled from the first `n` entities, in
/// query order.
pub open spec fn outputs_upto(
    m: CacheModel,
    filter: LabelFilter,
    target_capability: u64,
    entities: Seq<EntityRecord>,
    bufs: Seq<Option<Seq<u8>>>,
    n: int,
) -> Seq<(Seq<char>, Pose)>
    decreases n,
{
    if n <= 0 {
        Seq::empty()
    } else {
        let prev = outputs_upto(m, filter, target_capability, entities, bufs, n - 1);
        match step_emits(m, filter, target_capability, entities[n - 1], bufs[n - 1]) {
            Some(l) => prev.push((l, entities[n - 1].pose)),
            None => prev,
        }
    }
}

/// The `(entity id, label)` pairs newly cached by the first `n` entities,
/// in query order.
pub open spec fn new_entities_upto(
    m: CacheModel,
    filter: LabelFilter,
    target_capability: u64,
    entities: Seq<EntityRecord>,
    bufs: Seq<Option<Seq<u8>>>,
    n: int,
) -> Seq<(u64, Seq<char>)>
    decreases n,
{
    if n <= 0 {
        Seq::empty()
    } else {
        let prev = new_entities_upto(m, filter, target_capability, entities, bufs, n - 1);
        match step_registers(m, filter, target_capability, entities[n - 1], bufs[n - 1]) {
            Some(l) => prev.push((entities[n - 1].entity_id, l)),
            None => prev,
        }
    }
}

/// Whether any of the first `n` entities hit a label-decode failure.
pub open spec fn decode_failure_upto(
    m: CacheModel,
    filter: LabelFilter,
    target_capability: u64,
    entities: Seq<EntityRecord>,
    bufs: Seq<Option<Seq<u8>>>,
    n: int,
) -> bool
    decreases n,
{
    if n <= 0 {
        false
    } else {
        decode_failure_upto(m, filter, target_capability, entities, bufs, n - 1)
            || step_fails(m, filter, target_capability, entities[n - 1], bufs[n - 1])
    }
}

/// An entity the cycle freshly decoded and admitted: to be cached under
/// the persistent reference the driver creates for it.
#[derive(Debug)]
pub struct NewEntity {
    pub entity_id: u64,
    pub label: String,
}

/// What one cycle's processing produced: the `(label, pose)` pairs for the
/// caller, and the entities to cache.
#[derive(Debug)]
pub struct CycleOutcome {
    pub outputs: Vec<(String, Pose)>,
    pub new_entities: Vec<NewEntity>,
}

/// The fetched payload buffers as byte sequences.
pub open spec fn bufs_view(f: Seq<Option<Vec<u8>>>) -> Seq<Option<Seq<u8>>> {
    f.map_values(
        |o: Option<Vec<u8>>|
            match o {
                Some(v) => Some(v@),
                None => None::<Seq<u8>>,
            },
    )
}

/// The executable output list agrees element-wise with the specified one.
pub open spec fn outputs_match(v: Seq<(String, Pose)>, s: Seq<(Seq<char>, Pose)>) -> bool {
    &&& v.len() == s.len()
    &&& forall|i: int|
        0 <= i < v.len() ==> (#[trigger] v[i]).0@ == s[i].0 && v[i].1 == s[i].1
}

/// The executable newly-cached list agrees element-wise with the specified
/// one.
pub open spec fn new_entities_match(v: Seq<NewEntity>, s: Seq<(u64, Seq<char>)>) -> bool {
    &&& v.len() == s.len()
    &&& forall|i: int|
        0 <= i < v.len() ==> (#[trigger] v[i]).entity_id == s[i].0 && v[i].label@ == s[i].1
}

/// Every cached label passes the filter: the invariant the tracker keeps,
/// since only filtered labels are ever inserted.
pub open spec fn cache_labels_allowed(m: CacheModel, filter: LabelFilter) -> bool {
    forall|i: int| 0 <= i < m.len() ==> filter.allows(#[trigger] m[i].1)
}

/// A query reports each entity at most once among the first `n` rows.
pub open spec fn distinct_entity_ids(entities: Seq<EntityRecord>, n: int) -> bool {
    forall|i: int, j: int|
        0 <= i < j < n ==> entities[i].entity_id != entities[j].entity_id
}

/// A decode failure among the first `k` entities stays one among the
/// first `n`.
pub proof fn lemma_decode_failure_monotone(
    m: CacheModel,
    filter: LabelFilter,
    target_capability: u64,
    entities: Seq<EntityRecord>,
    bufs: Seq<Option<Seq<u8>>>,
    k: int,
    n: int,
)
    requires
        0 <= k <= n,
        decode_failure_upto(m, filter, target_capability, entities, bufs, k),
    ensures
        decode_failure_upto(m, filter, target_capability, entities, bufs, n),
    decreases n,
{
    if k < n {
        lemma_decode_failure_monotone(m, filter, target_capability, entities, bufs, k, n - 1);
    }
}

/// An entity failing a validation check contributes nothing to the cycle:
/// it never appears in the output, is not cached, and cannot abort the
/// batch with a decode failure.
pub proof fn lemma_invalid_entity_excluded(
    m: CacheModel,
    filter: LabelFilter,
    target_capability: u64,
    entities: Seq<EntityRecord>,
    bufs: Seq<Option<Seq<u8>>>,
    k: int,
)
    requires
        0 <= k,
        !entity_valid(entities[k], target_capability),
    ensures
        step_emits(m, filter, target_capability, entities[k], bufs[k]) is None,
        step_registers(m, filter, target_capability, entities[k], bufs[k]) is None,
        !step_fails(m, filter, target_capability, entities[k], bufs[k]),
        outputs_upto(m, filter, target_capability, entities, bufs, k + 1) == outputs_upto(
            m,
            filter,
            target_capability,
            entities,
            bufs,
            k,
        ),
        new_entities_upto(m, filter, target_capability, entities, bufs, k + 1)
            == new_entities_upto(m, filter, target_capability, entities, bufs, k),
        decode_failure_upto(m, filter, target_capability, entities, bufs, k + 1)
            == decode_failure_upto(m, filter, target_capability, entities, bufs, k),
{
}

/// When every cached label passes the filter, so does every label the
/// cycle outputs: a non-empty allow-set bounds the output's label set.
pub proof fn lemma_outputs_allowed(
    m: CacheModel,
    filter: LabelFilter,
    target_capability: u64,
    entities: Seq<EntityRecord>,
    bufs: Seq<Option<Seq<u8>>>,
    n: int,
)
    requires
        cache_labels_allowed(m, filter),
    ensures
        forall|k: int|
            0 <= k < outputs_upto(m, filter, target_capability, entities, bufs, n).len()
                ==> filter.allows(
                #[trigger] outputs_upto(m, filter, target_capability, entities, bufs, n)[k].0,
            ),
    decreases n,
{
    if n > 0 {
        lemma_outputs_allowed(m, filter, target_capability, entities, bufs, n - 1);
        let e = entities[n - 1];
        let prev = outputs_upto(m, filter, target_capability, entities, bufs, n - 1);
        let cur = outputs_upto(m, filter, target_capability, entities, bufs, n);
        assert forall|k: int| 0 <= k < cur.len() implies filter.allows(cur[k].0) by {
            match step_emits(m, filter, target_capability, e, bufs[n - 1]) {
                Some(l) => {
                    assert(cur == prev.push((l, e.pose)));
                    if classify(m, target_capability, e) is UseCached {
                        lemma_model_lookup_some(m, e.entity_id);
                    }
                    if k < prev.len() {
                        assert(cur[k] == prev[k]);
                        assert(filter.allows(prev[k].0));
                    } else {
                        assert(cur[k].0 == l);
                    }
                },
                None => {
                    assert(cur == prev);
                    assert(filter.allows(prev[k].0));
                },
            }
        }
    }
}

/// Every entry of the newly-cached list comes from some entity that was
/// freshly decoded and admitted this cycle.
proof fn lemma_new_entities_source(
    m: CacheModel,
    filter: LabelFilter,
    target_capability: u64,
    entities: Seq<EntityRecord>,
    bufs: Seq<Option<Seq<u8>>>,
    t: int,
    id: u64,
)
    ensures
        model_lookup(new_entities_upto(m, filter, target_capability, entities, bufs, t), id)
            is Some ==> exists|i: int|
            0 <= i < t && entities[i].entity_id == id && #[trigger] step_registers(
                m,
                filter,
                target_capability,
                entities[i],
                bufs[i],
            ) == model_lookup(
                new_entities_upto(m, filter, target_capability, entities, bufs, t),
                id,
            ),
    decreases t,
{
    if t > 0 {
        lemma_new_entities_source(m, filter, target_capability, entities, bufs, t - 1, id);
        let prev = new_entities_upto(m, filter, target_capability, entities, bufs, t - 1);
        let cur = new_entities_upto(m, filter, target_capability, entities, bufs, t);
        match step_registers(m, filter, target_capability, entities[t - 1], bufs[t - 1]) {
            Some(l) => {
                lemma_model_lookup_push(prev, (entities[t - 1].entity_id, l), id);
            },
            None => {
                assert(cur == prev);
            },
        }
    }
}

/// An entity freshly decoded and admitted at index `k` is found in the
/// newly-cached list under exactly its decoded label.
proof fn lemma_new_entities_contains(
    m: CacheModel,
    filter: LabelFilter,
    target_capability: u64,
    entities: Seq<EntityRecord>,
    bufs: Seq<Option<Seq<u8>>>,
    k: int,
    n: int,
)
    requires
        0 <= k < n,
        distinct_entity_ids(entities, n),
        step_registers(m, filter, target_capability, entities[k], bufs[k]) is Some,
    ensures
        model_lookup(
            new_entities_upto(m, filter, target_capability, entities, bufs, n),
            entities[k].entity_id,
        ) == step_registers(m, filter, target_capability, entities[k], bufs[k]),
    decreases n,
{
    let id = entities[k].entity_id;
    let prev = new_entities_upto(m, filter, target_capability, entities, bufs, n - 1);
    if k == n - 1 {
        lemma_new_entities_source(m, filter, target_capability, entities, bufs, n - 1, id);
        if model_lookup(prev, id) is Some {
            let i = choose|i: int|
                0 <= i < n - 1 && entities[i].entity_id == id && #[trigger] step_registers(
                    m,
                    filter,
                    target_capability,
                    entities[i],
                    bufs[i],
                ) == model_lookup(prev, id);
            assert(entities[i].entity_id != entities[k].entity_id);
            assert(false);
        }
        let l = step_registers(m, filter, target_capability, entities[k], bufs[k]).unwrap();
        lemma_model_lookup_push(prev, (id, l), id);
    } else {
        lemma_new_entities_contains(m, filter, target_capability, entities, bufs, k, n - 1);
        match step_registers(m, filter, target_capability, entities[n - 1], bufs[n - 1]) {
            Some(l) => {
                assert(entities[n - 1].entity_id != id);
                lemma_model_lookup_push(prev, (entities[n - 1].entity_id, l), id);
            },
            None => {},
        }
    }
}

/// Polling again with unchanged scene data changes nothing: against the
/// cache grown by a first, decode-failure-free cycle, the same entities and
/// payloads yield exactly the same `(label, pose)` list, cache nothing new,
/// and cannot hit a decode failure — in particular, no already-cached label
/// is ever decoded again.
pub proof fn lemma_cycle_idempotent(
    m: CacheModel,
    filter: LabelFilter,
    target_capability: u64,
    entities: Seq<EntityRecord>,
    bufs: Seq<Option<Seq<u8>>>,
    n: int,
)
    requires
        distinct_entity_ids(entities, n),
        !decode_failure_upto(m, filter, target_capability, entities, bufs, n),
    ensures
        ({
            let m2 = m + new_entities_upto(m, filter, target_capability, entities, bufs, n);
            &&& outputs_upto(m2, filter, target_capability, entities, bufs, n) == outputs_upto(
                m,
                filter,
                target_capability,
                entities,
                bufs,
                n,
            )
            &&& new_entities_upto(m2, filter, target_capability, entities, bufs, n)
                == Seq::<(u64, Seq<char>)>::empty()
            &&& !decode_failure_upto(m2, filter, target_capability, entities, bufs, n)
        }),
{
    lemma_cycle_idempotent_upto(m, filter, target_capability, entities, bufs, n, n);
}

/// Induction step for `lemma_cycle_idempotent`, over the first `k` of the
/// `n` entities the first cycle processed.
proof fn lemma_cycle_idempotent_upto(
    m: CacheModel,
    filter: LabelFilter,
    target_capability: u64,
    entities: Seq<EntityRecord>,
    bufs: Seq<Option<Seq<u8>>>,
    k: int,
    n: int,
)
    requires
        k <= n,
        distinct_entity_ids(entities, n),
        !decode_failure_upto(m, filter, target_capability, entities, bufs, n),
    ensures
        ({
            let m2 = m + new_entities_upto(m, filter, target_capability, entities, bufs, n);
            &&& outputs_upto(m2, filter, target_capability, entities, bufs, k) == outputs_upto(
                m,
                filter,
                target_capability,
                entities,
                bufs,
                k,
            )
            &&& new_entities_upto(m2, filter, target_capability, entities, bufs, k)
                == Seq::<(u64, Seq<char>)>::empty()
            &&& !decode_failure_upto(m2, filter, target_capability, entities, bufs, k)
        }),
    decreases k,
{
    let new1 = new_entities_upto(m, filter, target_capability, entities, bufs, n);
    let m2 = m + new1;
    if k > 0 {
        lemma_cycle_idempotent_upto(m, filter, target_capability, entities, bufs, k - 1, n);
        let e = entities[k - 1];
        let b = bufs[k - 1];
        let id = e.entity_id;
        if step_fails(m, filter, target_capability, e, b) {
            lemma_decode_failure_monotone(m, filter, target_capability, entities, bufs, k, n);
        }
        assert(!step_fails(m, filter, target_capability, e, b));
        lemma_model_lookup_append(m, new1, id);
        match classify(m, target_capability, e) {
            EntityPlan::Skip => {},
            EntityPlan::UseCached => {
                assert(model_lookup(m2, id) == model_lookup(m, id));
            },
            EntityPlan::Fetch(_) => {
                let l = spec_decode_label(b.unwrap()).unwrap();
                if filter.allows(l) {
                    lemma_new_entities_contains(
                        m,
                        filter,
                        target_capability,
                        entities,
                        bufs,
                        k - 1,
                        n,
                    );
                    assert(model_lookup(m2, id) == Some(l));
                    assert(classify(m2, target_capability, e) is UseCached);
                    assert(step_emits(m2, filter, target_capability, e, b) == Some(l));
                    assert(step_emits(m, filter, target_capability, e, b) == Some(l));
                } else {
                    lemma_new_entities_source(m, filter, target_capability, entities, bufs, n, id);
                    if model_lookup(new1, id) is Some {
                        let i = choose|i: int|
                            0 <= i < n && entities[i].entity_id == id && #[trigger] step_registers(
                                m,
                                filter,
                                target_capability,
                                entities[i],
                                bufs[i],
                            ) == model_lookup(new1, id);
                        if i < k - 1 {
                            assert(entities[i].entity_id != entities[k - 1].entity_id);
                        } else if i > k - 1 {
                            assert(entities[k - 1].entity_id != entities[i].entity_id);
                        }
                        assert(i == k - 1);
                        assert(false);
                    }
                    assert(classify(m2, target_capability, e)
                        == classify(m, target_capability, e));
                }
            },
        }
        assert(step_emits(m2, filter, target_capability, e, b) == step_emits(
            m,
            filter,
            target_capability,
            e,
            b,
        ));
        assert(step_registers(m2, filter, target_capability, e, b) is None);
        assert(!step_fails(m2, filter, target_capability, e, b));
    }
}

} // verus!

//! The tracker: context lifecycle, per-frame cycle steps, and cleanup.

use vstd::prelude::*;
use crate::cache::{model_lookup, CacheModel, EntityCache};
use crate::cycle::{
    bufs_view, cache_labels_allowed, classify, decode_failure_upto, lemma_decode_failure_monotone,
    lemma_outputs_allowed, new_entities_match, new_entities_upto, outputs_match, outputs_upto,
    step_emits, step_fails, CycleOutcome, EntityPlan, NewEntity,
};
use crate::decode::decode_label;
use crate::discovery::{DiscoveryAction, DiscoveryEvent, DiscoveryScheduler};
use crate::entity::{validate_entity, EntityRecord};
use crate::filter::LabelFilter;
use crate::pose::Pose;
use crate::{TrackerError, MAX_MARKERS_COUNT};

verus! {

/// What the driver found when it checked the context-creation future.
#[derive(Clone, Copy, Debug, PartialEq, Eq, Structural)]
pub enum ContextEvent {
    /// The future is not ready yet.
    StillPending,
    /// The future was completed with this result code and, on success
    /// (code zero), this context handle.
    Completed { result_code: i64, context_handle: u64 },
}

/// Per-context data once the tracking context is ready.
#[derive(Debug)]
pub struct ReadyData {
    /// The opaque context handle, destroyed exactly once at teardown.
    pub context_handle: u64,
    /// Entities already decoded and kept; append-only.
    pub cache: EntityCache,
    /// The snapshot obtained by the cycle in progress, if any; it must be
    /// handed back for destruction before the cycle ends.
    pub active_snapshot: Option<u64>,
}

/// Lifecycle of the opaque tracking context. `Ready` is terminal: there is
/// no transition back to `Creating`.
#[derive(Debug)]
pub enum ContextState {
    /// Waiting on the asynchronous creation future.
    Creating(u64),
    /// The context is up, with its caches.
    Ready(ReadyData),
}

/// The ready-state transition of recording a freshly obtained snapshot.
pub open spec fn spec_record(d: ReadyData, snapshot: u64) -> ReadyData {
    ReadyData {
        context_handle: d.context_handle,
        cache: d.cache,
        active_snapshot: Some(snapshot),
    }
}

/// The cycle-end transition: clear the recorded snapshot and hand it back
/// for destruction.
pub open spec fn spec_finish(d: ReadyData) -> (ReadyData, Option<u64>) {
    (
        ReadyData {
            context_handle: d.context_handle,
            cache: d.cache,
            active_snapshot: None::<u64>,
        },
        d.active_snapshot,
    )
}

/// A snapshot obtained by a cycle is destroyed exactly once: ending the
/// cycle hands the recorded snapshot back for destruction and clears it,
/// and ending the cycle again hands back nothing.
pub proof fn lemma_snapshot_destroyed_once(d: ReadyData, snapshot: u64)
    ensures
        spec_finish(spec_record(d, snapshot)).1 == Some(snapshot),
        spec_finish(spec_finish(spec_record(d, snapshot)).0).1 is None,
{
}

/// Tracks QR-code markers through a spatial-tracking runtime: one instance
/// per context, polled once per frame by the driver, which performs the
/// runtime calls these functions decide on.
#[derive(Debug)]
pub struct QRCodesSpatialContext {
    /// Which decoded labels are worth caching and reporting.
    pub filter: LabelFilter,
    /// The capability whose markers are tracked; a marker reported with any
    /// other capability fails validation.
    pub target_capability: u64,
    /// Discovery-scan throttling state.
    pub scheduler: DiscoveryScheduler,
    /// Context lifecycle state.
    pub state: ContextState,
}

impl QRCodesSpatialContext {
    /// The per-context data; meaningful only once ready.
    pub open spec fn ready_data(self) -> ReadyData
        recommends
            self.state is Ready,
    {
        self.state->Ready_0
    }

    /// The cache's id-and-label content; meaningful only once ready.
    pub open spec fn cache_model(self) -> CacheModel
        recommends
            self.state is Ready,
    {
        self.ready_data().cache.model()
    }

    /// Well-formedness: before the context is up no discovery is in
    /// flight, and afterwards the cache holds no duplicate ids and only
    /// labels that pass the filter.
    pub open spec fn wf(self) -> bool {
        match self.state {
            ContextState::Creating(_) => self.scheduler.outstanding_future is None,
            ContextState::Ready(d) => d.cache.wf() && cache_labels_allowed(
                d.cache.model(),
                self.filter,
            ),
        }
    }

    /// Builds the tracker. Both runtime extensions must be present, or
    /// construction fails with `ExtensionUnsupported`; the driver passes
    /// the future of the asynchronous context-creation call it issued, and
    /// the tracker starts in `Creating`. An empty `codes_to_track` means
    /// every discovered label is tracked.
    pub fn new(
        ext_spatial_entity: bool,
        ext_spatial_marker_tracking: bool,
        target_capability: u64,
        codes_to_track: Vec<String>,
        create_context_future: u64,
        now: u64,
    ) -> (r: Result<Self, TrackerError>)
        ensures
            r is Ok <==> ext_spatial_entity && ext_spatial_marker_tracking,
            r is Err ==> r.unwrap_err() == TrackerError::ExtensionUnsupported,
            r is Ok ==> ({
                let t = r.unwrap();
                &&& t.wf()
                &&& t.state == ContextState::Creating(create_context_future)
                &&& t.target_capability == target_capability
                &&& t.scheduler == (DiscoveryScheduler {
                    outstanding_future: None::<u64>,
                    deadline: now,
                })
                &&& (codes_to_track@.len() == 0 ==> t.filter == LabelFilter::MatchAll)
                &&& (codes_to_track@.len() > 0 ==> t.filter == LabelFilter::MatchSet(
                    codes_to_track,
                ))
            }),
    {
        if !(ext_spatial_entity && ext_spatial_marker_tracking) {
            return Err(TrackerError::ExtensionUnsupported);
        }
        Ok(
            QRCodesSpatialContext {
                filter: LabelFilter::from_labels(codes_to_track),
                target_capability,
                scheduler: DiscoveryScheduler::new(now),
                state: ContextState::Creating(create_context_future),
            },
        )
    }

    /// Whether the context is up. Until it is, every poll yields "no data
    /// yet" and never a result list.
    pub fn is_context_ready(&self) -> (r: bool)
        ensures
            r == (self.state is Ready),
    {
        match &self.state {
            ContextState::Ready(_) => true,
            ContextState::Creating(_) => false,
        }
    }

    /// The context-creation future still being waited on, if any.
    pub fn creating_future(&self) -> (r: Option<u64>)
        ensures
            r == match self.state {
                ContextState::Creating(f) => Some(f),
                ContextState::Ready(_) => None::<u64>,
            },
    {
        match &self.state {
            ContextState::Creating(f) => Some(*f),
            ContextState::Ready(_) => None,
        }
    }

    /// The context handle to destroy at teardown: only a context that
    /// finished creating is destroyed.
    pub fn teardown_context_handle(&self) -> (r: Option<u64>)
        ensures
            r == match self.state {
                ContextState::Creating(_) => None::<u64>,
                ContextState::Ready(d) => Some(d.context_handle),
            },
    {
        match &self.state {
            ContextState::Creating(_) => None,
            ContextState::Ready(d) => Some(d.context_handle),
        }
    }

    /// Advances the context lifecycle with what the driver found. While the
    /// future is pending the cycle yields no data — and `Ok(())` here never
    /// carries a result list, so before `Ready` a poll cannot produce one.
    /// On a successful completion the state becomes `Ready` with empty
    /// caches, and this transition frame also yields no data. On a failed
    /// completion the state is left in `Creating`, so the next poll checks
    /// the same future again.
    pub fn handle_context_event(&mut self, event: ContextEvent) -> (r: Result<(), TrackerError>)
        requires
            old(self).wf(),
            old(self).state is Creating,
        ensures
            final(self).wf(),
            final(self).filter == old(self).filter,
            final(self).target_capability == old(self).target_capability,
            final(self).scheduler == old(self).scheduler,
            match event {
                ContextEvent::StillPending => r == Ok::<(), TrackerError>(()) && final(self).state
                    == old(self).state,
                ContextEvent::Completed { result_code, context_handle } => {
                    if result_code == 0 {
                        &&& r == Ok::<(), TrackerError>(())
                        &&& final(self).state is Ready
                        &&& final(self).ready_data().context_handle == context_handle
                        &&& final(self).ready_data().cache.entries@.len() == 0
                        &&& final(self).ready_data().active_snapshot is None
                    } else {
                        &&& r == Err::<(), TrackerError>(
                            TrackerError::AsyncOperationFailure(result_code),
                        )
                        &&& final(self).state == old(self).state
                    }
                },
            },
    {
        match event {
            ContextEvent::StillPending => Ok(()),
            ContextEvent::Completed { result_code, context_handle } => {
                if result_code == 0 {
                    self.state = ContextState::Ready(
                        ReadyData {
                            context_handle,
                            cache: EntityCache::new(),
                            active_snapshot: None,
                        },
                    );
                    Ok(())
                } else {
                    Err(TrackerError::AsyncOperationFailure(result_code))
                }
            },
        }
    }

    /// The discovery action due this cycle.
    pub fn discovery_action(&self, now: u64) -> (r: DiscoveryAction)
        requires
            self.state is Ready,
        ensures
            r == self.scheduler.spec_action(now),
    {
        self.scheduler.action(now)
    }

    /// Applies the driver's discovery report; see
    /// `DiscoveryScheduler::apply_event`.
    pub fn apply_discovery_event(&mut self, now: u64, ev: DiscoveryEvent) -> (r: Result<
        Option<u64>,
        TrackerError,
    >)
        requires
            old(self).wf(),
            old(self).state is Ready,
            !(ev is Requested) ==> old(self).scheduler.outstanding_future is Some,
            ev is Requested ==> old(self).scheduler.spec_action(now)
                == DiscoveryAction::IssueRequest,
        ensures
            final(self).wf(),
            final(self).filter == old(self).filter,
            final(self).target_capability == old(self).target_capability,
            final(self).state == old(self).state,
            (final(self).scheduler, r) == old(self).scheduler.spec_apply(now, ev),
    {
        self.scheduler.apply_event(now, ev)
    }

    /// The persistent references of all cached entities, for scoping an
    /// update snapshot to exactly the already-known entities.
    pub fn cached_entity_handles(&self) -> (r: Vec<u64>)
        requires
            self.state is Ready,
        ensures
            r@ == self.ready_data().cache.spec_handles(),
    {
        match &self.state {
            ContextState::Ready(d) => d.cache.handles(),
            ContextState::Creating(_) => {
                proof {
                    assert(false);
                }
                Vec::new()
            },
        }
    }

    /// Records the snapshot this cycle obtained (from discovery or as an
    /// update snapshot), to be handed back for destruction at cycle end.
    pub fn record_snapshot(&mut self, snapshot: u64)
        requires
            old(self).wf(),
            old(self).state is Ready,
            old(self).ready_data().active_snapshot is None,
        ensures
            final(self).wf(),
            final(self).filter == old(self).filter,
            final(self).target_capability == old(self).target_capability,
            final(self).scheduler == old(self).scheduler,
            final(self).state is Ready,
            final(self).ready_data() == spec_record(old(self).ready_data(), snapshot),
    {
        match &mut self.state {
            ContextState::Ready(d) => {
                d.active_snapshot = Some(snapshot);
            },
            ContextState::Creating(_) => {
                proof {
                    assert(false);
                }
            },
        }
    }

    /// Ends the cycle: hands back the snapshot to destroy, exactly once,
    /// on every exit path — success, partial skip, or error after the
    /// snapshot was obtained.
    pub fn finish_cycle(&mut self) -> (r: Option<u64>)
        requires
            old(self).wf(),
            old(self).state is Ready,
        ensures
            final(self).wf(),
            final(self).filter == old(self).filter,
            final(self).target_capability == old(self).target_capability,
            final(self).scheduler == old(self).scheduler,
            final(self).state is Ready,
            (final(self).ready_data(), r) == spec_finish(old(self).ready_data()),
    {
        match &mut self.state {
            ContextState::Ready(d) => {
                let r = d.active_snapshot;
                d.active_snapshot = None;
                r
            },
            ContextState::Creating(_) => {
                proof {
                    assert(false);
                }
                None
            },
        }
    }

    /// Classifies every queried entity against the cache: invalid entities
    /// are skipped, cached ones reuse their stored label, and the rest need
    /// their label payload fetched.
    #[verifier::loop_isolation(false)]
    pub fn plan_cycle(&self, entities: &Vec<EntityRecord>) -> (plan: Vec<EntityPlan>)
        requires
            self.state is Ready,
            entities@.len() <= MAX_MARKERS_COUNT,
        ensures
            plan@.len() == entities@.len(),
            forall|i: int|
                0 <= i < entities@.len() ==> plan@[i] == classify(
                    self.cache_model(),
                    self.target_capability,
                    entities@[i],
                ),
    {
        let d = match &self.state {
            ContextState::Ready(d) => d,
            ContextState::Creating(_) => {
                proof {
                    assert(false);
                }
                return Vec::new();
            },
        };
        let mut plan: Vec<EntityPlan> = Vec::new();
        let mut k: usize = 0;
        while k < entities.len()
            invariant
                k <= entities@.len(),
                plan@.len() == k,
                forall|i: int|
                    0 <= i < k ==> plan@[i] == classify(
                        self.cache_model(),
                        self.target_capability,
                        entities@[i],
                    ),
            decreases entities@.len() - k,
        {
            let e = &entities[k];
            let next: EntityPlan = if !validate_entity(e, self.target_capability) {
                EntityPlan::Skip
            } else {
                match d.cache.lookup_label(e.entity_id) {
                    Some(_) => EntityPlan::UseCached,
                    None => EntityPlan::Fetch(e.marker.buffer_id),
                }
            };
            plan.push(next);
            k += 1;
        }
        plan
    }

    /// Processes the queried entities with the payloads the driver fetched
    /// for the `Fetch`-classified ones: validates, decodes each uncached
    /// label once, filters, and assembles the cycle's `(label, pose)` pairs
    /// together with the entities to cache. A payload that is not valid
    /// text fails the whole call with `DecodeError`; every other
    /// per-entity failure only excludes that entity. When the allow-set is
    /// non-empty, every output label is in it.
    #[verifier::loop_isolation(false)]
    pub fn integrate_cycle(&self, entities: &Vec<EntityRecord>, fetched: &Vec<Option<Vec<u8>>>)
        -> (r: Result<CycleOutcome, TrackerError>)
        requires
            self.wf(),
            self.state is Ready,
            entities@.len() <= MAX_MARKERS_COUNT,
            fetched@.len() == entities@.len(),
            forall|i: int|
                0 <= i < entities@.len() && classify(
                    self.cache_model(),
                    self.target_capability,
                    entities@[i],
                ) is Fetch ==> fetched@[i] is Some,
        ensures
            ({
                let m = self.cache_model();
                let bufs = bufs_view(fetched@);
                let n = entities@.len() as int;
                &&& (r is Ok <==> !decode_failure_upto(
                    m,
                    self.filter,
                    self.target_capability,
                    entities@,
                    bufs,
                    n,
                ))
                &&& (r is Err ==> r.unwrap_err() == TrackerError::DecodeError)
                &&& (r is Ok ==> outputs_match(
                    r.unwrap().outputs@,
                    outputs_upto(m, self.filter, self.target_capability, entities@, bufs, n),
                ))
                &&& (r is Ok ==> new_entities_match(
                    r.unwrap().new_entities@,
                    new_entities_upto(m, self.filter, self.target_capability, entities@, bufs, n),
                ))
                &&& (r is Ok ==> forall|k: int|
                    0 <= k < r.unwrap().outputs@.len() ==> self.filter.allows(
                        (#[trigger] r.unwrap().outputs@[k]).0@,
                    ))
            }),
    {
        let d = match &self.state {
            ContextState::Ready(d) => d,
            ContextState::Creating(_) => {
                proof {
                    assert(false);
                }
                return Err(TrackerError::DecodeError);
            },
        };
        let ghost m = self.cache_model();
        let ghost bufs = bufs_view(fetched@);
        let mut outputs: Vec<(String, Pose)> = Vec::new();
        let mut new_entities: Vec<NewEntity> = Vec::new();
        let n = entities.len();
        let mut k: usize = 0;
        while k < n
            invariant
                k <= n,
                outputs_match(
                    outputs@,
                    outputs_upto(m, self.filter, self.target_capability, entities@, bufs, k as int),
                ),
                new_entities_match(
                    new_entities@,
                    new_entities_upto(
                        m,
                        self.filter,
                        self.target_capability,
                        entities@,
                        bufs,
                        k as int,
                    ),
                ),
                !decode_failure_upto(
                    m,
                    self.filter,
                    self.target_capability,
                    entities@,
                    bufs,
                    k as int,
                ),
            decreases n - k,
        {
            let e = &entities[k];
            let ghost b = bufs[k as int];
            if validate_entity(e, self.target_capability) {
                match d.cache.lookup_label(e.entity_id) {
                    Some(label) => {
                        proof {
                            assert(step_emits(
                                m,
                                self.filter,
                                self.target_capability,
                                entities@[k as int],
                                b,
                            ) == Some(label@));
                        }
                        outputs.push((label, e.pose));
                    },
                    None => {
                        match &fetched[k] {
                            Some(buf) => {
                                proof {
                                    assert(b == Some(buf@));
                                }
                                match decode_label(buf) {
                                    Ok(label) => {
                                        if self.filter.allows_label(&label) {
                                            let stored = label.clone();
                                            outputs.push((label, e.pose));
                                            new_entities.push(
                                                NewEntity { entity_id: e.entity_id, label: stored },
                                            );
                                        }
                                    },
                                    Err(_) => {
                                        proof {
                                            assert(step_fails(
                                                m,
                                                self.filter,
                                                self.target_capability,
                                                entities@[k as int],
                                                b,
                                            ));
                                            lemma_decode_failure_monotone(
                                                m,
                                                self.filter,
                                                self.target_capability,
                                                entities@,
                                                bufs,
                                                k as int + 1,
                                                n as int,
                                            );
                                        }
                                        return Err(TrackerError::DecodeError);
                                    },
                                }
                            },
                            None => {
                                proof {
                                    assert(false);
                                }
                                return Err(TrackerError::DecodeError);
                            },
                        }
                    },
                }
            }
            k += 1;
        }
        proof {
            lemma_outputs_allowed(
                m,
                self.filter,
                self.target_capability,
                entities@,
                bufs,
                n as int,
            );
        }
        Ok(CycleOutcome { outputs, new_entities })
    }

    /// Caches one entity the cycle freshly decoded, under the persistent
    /// reference the driver created for it. An entity already cached, or a
    /// label the filter does not allow, is left uncached.
    pub fn register_entity(&mut self, entity_id: u64, label: String, handle: u64)
        requires
            old(self).wf(),
            old(self).state is Ready,
        ensures
            final(self).wf(),
            final(self).filter == old(self).filter,
            final(self).target_capability == old(self).target_capability,
            final(self).scheduler == old(self).scheduler,
            final(self).state is Ready,
            final(self).ready_data().context_handle == old(self).ready_data().context_handle,
            final(self).ready_data().active_snapshot == old(self).ready_data().active_snapshot,
            if model_lookup(old(self).cache_model(), entity_id) is None && old(self).filter.allows(
                label@,
            ) {
                &&& final(self).cache_model() == old(self).cache_model().push((entity_id, label@))
                &&& final(self).ready_data().cache.spec_handles() == old(
                    self,
                ).ready_data().cache.spec_handles().push(handle)
            } else {
                final(self).ready_data().cache == old(self).ready_data().cache
            },
    {
        let allowed = self.filter.allows_label(&label);
        match &mut self.state {
            ContextState::Ready(d) => {
                if allowed {
                    match d.cache.lookup_label(entity_id) {
                        Some(_) => {},
                        None => {
                            let ghost m_old = d.cache.model();
                            d.cache.insert(entity_id, label, handle);
                            proof {
                                let m_new = d.cache.model();
                                assert forall|i: int|
                                    0 <= i < m_new.len() implies self.filter.allows(
                                    #[trigger] m_new[i].1,
                                ) by {
                                    if i < m_old.len() {
                                        assert(m_new[i] == m_old[i]);
                                    }
                                }
                            }
                        },
                    }
                }
            },
            ContextState::Creating(_) => {
                proof {
                    assert(false);
                }
            },
        }
    }
}

} // verus!

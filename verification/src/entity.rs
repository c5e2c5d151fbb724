//! Queried entity records and their per-entity validation.

use vstd::prelude::*;
use crate::pose::Pose;

verus! {

/// The runtime's null buffer id.
pub const NULL_BUFFER_ID: u64 = 0;

/// Tracking state of an entity as reported by a component query.
#[derive(Clone, Copy, Debug, PartialEq, Eq, Structural)]
pub enum TrackingState {
    Tracking,
    Paused,
    Stopped,
    Other,
}

/// Kind of payload buffer a marker component points at.
#[derive(Clone, Copy, Debug, PartialEq, Eq, Structural)]
pub enum BufferKind {
    /// A text payload, the only kind a label can be decoded from.
    Text,
    Other,
}

/// Marker-metadata component of one queried entity.
#[derive(Clone, Copy, Debug, PartialEq, Eq, Structural)]
pub struct MarkerComponent {
    /// The capability that produced this marker.
    pub capability: u64,
    /// Id of the buffer holding the label payload; `NULL_BUFFER_ID` if none.
    pub buffer_id: u64,
    /// Kind of that buffer's payload.
    pub buffer_kind: BufferKind,
}

/// One row of a two-phase component query: the entity id and tracking state
/// from the first pass, and the 2D-bound pose and marker metadata the second
/// pass attached for the same index.
#[derive(Clone, Copy, Debug, PartialEq, Eq, Structural)]
pub struct EntityRecord {
    pub entity_id: u64,
    pub state: TrackingState,
    pub pose: Pose,
    pub marker: MarkerComponent,
}

/// The four validation checks applied to every queried entity, in order:
/// it must be tracking, its marker must come from the configured capability,
/// its buffer id must be non-null, and its buffer must hold text.
pub open spec fn entity_valid(e: EntityRecord, target_capability: u64) -> bool {
    &&& e.state == TrackingState::Tracking
    &&& e.marker.capability == target_capability
    &&& e.marker.buffer_id != NULL_BUFFER_ID
    &&& e.marker.buffer_kind == BufferKind::Text
}

/// Runs the four validation checks on one entity. An entity failing any
/// check is skipped for the cycle; the failure never aborts the batch.
pub fn validate_entity(e: &EntityRecord, target_capability: u64) -> (r: bool)
    ensures
        r == entity_valid(*e, target_capability),
{
    e.state == TrackingState::Tracking && e.marker.capability == target_capability
        && e.marker.buffer_id != NULL_BUFFER_ID && e.marker.buffer_kind == BufferKind::Text
}

} // verus!

use qr_marker_tracking::cycle::EntityPlan;
use qr_marker_tracking::entity::{BufferKind, EntityRecord, MarkerComponent, TrackingState};
use qr_marker_tracking::pose::Pose;
use qr_marker_tracking::tracker::{ContextEvent, QRCodesSpatialContext};
use qr_marker_tracking::TrackerError;

const CAP: u64 = 1000;

fn pose(seed: u32) -> Pose {
    Pose {
        position_x_bits: seed,
        position_y_bits: seed + 1,
        position_z_bits: seed + 2,
        orientation_x_bits: seed + 3,
        orientation_y_bits: seed + 4,
        orientation_z_bits: seed + 5,
        orientation_w_bits: seed + 6,
    }
}

fn entity(id: u64, state: TrackingState, capability: u64, buffer_id: u64, kind: BufferKind, seed: u32) -> EntityRecord {
    EntityRecord {
        entity_id: id,
        state,
        pose: pose(seed),
        marker: MarkerComponent { capability, buffer_id, buffer_kind: kind },
    }
}

fn tracking_entity(id: u64, buffer_id: u64, seed: u32) -> EntityRecord {
    entity(id, TrackingState::Tracking, CAP, buffer_id, BufferKind::Text, seed)
}

fn ready_tracker(codes: Vec<String>) -> QRCodesSpatialContext {
    let mut t = QRCodesSpatialContext::new(true, true, CAP, codes, 7, 0).unwrap();
    assert!(!t.is_context_ready());
    t.handle_context_event(ContextEvent::Completed { result_code: 0, context_handle: 99 })
        .unwrap();
    assert!(t.is_context_ready());
    t
}

fn label_buf(s: &str) -> Option<Vec<u8>> {
    let mut v = s.as_bytes().to_vec();
    v.push(0);
    v.extend([0u8; 8]);
    Some(v)
}

#[test]
fn construction_requires_both_extensions() {
    assert_eq!(
        QRCodesSpatialContext::new(false, true, CAP, Vec::new(), 0, 0).unwrap_err(),
        TrackerError::ExtensionUnsupported
    );
    assert_eq!(
        QRCodesSpatialContext::new(true, false, CAP, Vec::new(), 0, 0).unwrap_err(),
        TrackerError::ExtensionUnsupported
    );
    assert!(QRCodesSpatialContext::new(true, true, CAP, Vec::new(), 0, 0).is_ok());
}

#[test]
fn pending_creation_yields_no_data() {
    let mut t = QRCodesSpatialContext::new(true, true, CAP, Vec::new(), 7, 0).unwrap();
    assert_eq!(t.creating_future(), Some(7));
    t.handle_context_event(ContextEvent::StillPending).unwrap();
    assert!(!t.is_context_ready());
    assert_eq!(t.teardown_context_handle(), None);
}

#[test]
fn failed_creation_keeps_state_non_ready() {
    let mut t = QRCodesSpatialContext::new(true, true, CAP, Vec::new(), 7, 0).unwrap();
    let err = t
        .handle_context_event(ContextEvent::Completed { result_code: -5, context_handle: 0 })
        .unwrap_err();
    assert_eq!(err, TrackerError::AsyncOperationFailure(-5));
    assert!(!t.is_context_ready());
    // the next poll checks the same future again and fails the same way
    assert_eq!(t.creating_future(), Some(7));
    let err2 = t
        .handle_context_event(ContextEvent::Completed { result_code: -5, context_handle: 0 })
        .unwrap_err();
    assert_eq!(err2, TrackerError::AsyncOperationFailure(-5));
    assert!(!t.is_context_ready());
}

#[test]
fn successful_creation_builds_empty_caches() {
    let t = ready_tracker(Vec::new());
    assert_eq!(t.teardown_context_handle(), Some(99));
    assert_eq!(t.cached_entity_handles(), Vec::<u64>::new());
}

#[test]
fn allow_set_filters_output() {
    let t = ready_tracker(vec!["ABC123".to_string()]);
    let entities = vec![tracking_entity(1, 51, 100), tracking_entity(2, 52, 200)];
    let fetched = vec![label_buf("ABC123"), label_buf("XYZ999")];
    let out = t.integrate_cycle(&entities, &fetched).unwrap();
    assert_eq!(out.outputs.len(), 1);
    assert_eq!(out.outputs[0].0, "ABC123");
    assert_eq!(out.outputs[0].1, pose(100));
    assert_eq!(out.new_entities.len(), 1);
    assert_eq!(out.new_entities[0].entity_id, 1);
    assert_eq!(out.new_entities[0].label, "ABC123");
}

#[test]
fn empty_allow_set_tracks_everything() {
    let t = ready_tracker(Vec::new());
    let entities = vec![tracking_entity(1, 51, 100), tracking_entity(2, 52, 200)];
    let fetched = vec![label_buf("ABC123"), label_buf("XYZ999")];
    let out = t.integrate_cycle(&entities, &fetched).unwrap();
    assert_eq!(out.outputs.len(), 2);
    assert_eq!(out.outputs[0].0, "ABC123");
    assert_eq!(out.outputs[0].1, pose(100));
    assert_eq!(out.outputs[1].0, "XYZ999");
    assert_eq!(out.outputs[1].1, pose(200));
    assert_eq!(out.new_entities.len(), 2);
}

#[test]
fn stopped_entity_is_excluded_without_failing() {
    let t = ready_tracker(Vec::new());
    let entities = vec![
        entity(1, TrackingState::Stopped, CAP, 51, BufferKind::Text, 100),
        tracking_entity(2, 52, 200),
    ];
    let fetched = vec![None, label_buf("XYZ999")];
    let out = t.integrate_cycle(&entities, &fetched).unwrap();
    assert_eq!(out.outputs.len(), 1);
    assert_eq!(out.outputs[0].0, "XYZ999");
}

#[test]
fn each_validation_check_excludes_the_entity() {
    let t = ready_tracker(Vec::new());
    let entities = vec![
        entity(1, TrackingState::Paused, CAP, 51, BufferKind::Text, 100),
        entity(2, TrackingState::Tracking, CAP + 1, 52, BufferKind::Text, 200),
        entity(3, TrackingState::Tracking, CAP, 0, BufferKind::Text, 300),
        entity(4, TrackingState::Tracking, CAP, 54, BufferKind::Other, 400),
        tracking_entity(5, 55, 500),
    ];
    let fetched = vec![None, None, None, None, label_buf("KEEP")];
    let plan = t.plan_cycle(&entities);
    assert_eq!(
        plan,
        vec![
            EntityPlan::Skip,
            EntityPlan::Skip,
            EntityPlan::Skip,
            EntityPlan::Skip,
            EntityPlan::Fetch(55),
        ]
    );
    let out = t.integrate_cycle(&entities, &fetched).unwrap();
    assert_eq!(out.outputs.len(), 1);
    assert_eq!(out.outputs[0].0, "KEEP");
}

#[test]
fn invalid_label_payload_fails_the_whole_poll() {
    let t = ready_tracker(Vec::new());
    let entities = vec![tracking_entity(1, 51, 100), tracking_entity(2, 52, 200)];
    // 0xC3 0x28 is not valid UTF-8
    let fetched = vec![Some(vec![0xC3, 0x28, 0]), label_buf("XYZ999")];
    let err = t.integrate_cycle(&entities, &fetched).unwrap_err();
    assert_eq!(err, TrackerError::DecodeError);
}

#[test]
fn repolling_unchanged_scene_reuses_cache_and_repeats_output() {
    let mut t = ready_tracker(vec!["ABC123".to_string()]);
    let entities = vec![tracking_entity(1, 51, 100), tracking_entity(2, 52, 200)];
    let fetched = vec![label_buf("ABC123"), label_buf("XYZ999")];
    let first = t.integrate_cycle(&entities, &fetched).unwrap();
    for n in &first.new_entities {
        t.register_entity(n.entity_id, n.label.clone(), 7000 + n.entity_id);
    }
    assert_eq!(t.cached_entity_handles(), vec![7001]);

    // second cycle: the cached entity needs no fetch, the filtered-out one
    // is fetched again but neither cached nor reported
    let plan2 = t.plan_cycle(&entities);
    assert_eq!(plan2, vec![EntityPlan::UseCached, EntityPlan::Fetch(52)]);
    let fetched2 = vec![None, label_buf("XYZ999")];
    let second = t.integrate_cycle(&entities, &fetched2).unwrap();
    assert_eq!(second.outputs.len(), first.outputs.len());
    assert_eq!(second.outputs[0].0, first.outputs[0].0);
    assert_eq!(second.outputs[0].1, first.outputs[0].1);
    assert!(second.new_entities.is_empty());
}

#[test]
fn disallowed_label_is_not_cached() {
    let mut t = ready_tracker(vec!["ABC123".to_string()]);
    t.register_entity(2, "XYZ999".to_string(), 7002);
    assert_eq!(t.cached_entity_handles(), Vec::<u64>::new());
    t.register_entity(1, "ABC123".to_string(), 7001);
    assert_eq!(t.cached_entity_handles(), vec![7001]);
    // registering the same entity again does not duplicate it
    t.register_entity(1, "ABC123".to_string(), 8001);
    assert_eq!(t.cached_entity_handles(), vec![7001]);
}

#[test]
fn full_capacity_batch_is_processed() {
    let t = ready_tracker(Vec::new());
    let n = qr_marker_tracking::MAX_MARKERS_COUNT as u64;
    let mut entities = Vec::new();
    let mut fetched = Vec::new();
    for i in 0..n {
        entities.push(tracking_entity(i + 1, 50 + i, 100 * (i as u32 + 1)));
        fetched.push(label_buf(&format!("MARKER{}", i)));
    }
    let out = t.integrate_cycle(&entities, &fetched).unwrap();
    assert_eq!(out.outputs.len(), n as usize);
    assert_eq!(out.new_entities.len(), n as usize);
    assert_eq!(out.outputs[0].0, "MARKER0");
    assert_eq!(out.outputs[31].0, "MARKER31");
}

#[test]
fn snapshot_destroyed_exactly_once() {
    let mut t = ready_tracker(Vec::new());
    assert_eq!(t.finish_cycle(), None);
    t.record_snapshot(1234);
    assert_eq!(t.finish_cycle(), Some(1234));
    assert_eq!(t.finish_cycle(), None);
}

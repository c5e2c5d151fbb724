use qr_marker_tracking::decode::decode_label;
use qr_marker_tracking::discovery::{DiscoveryAction, DiscoveryEvent};
use qr_marker_tracking::filter::LabelFilter;
use qr_marker_tracking::tracker::{ContextEvent, QRCodesSpatialContext};
use qr_marker_tracking::{TrackerError, DISCOVERY_TIMEOUT_NS};

const CAP: u64 = 1000;

fn ready_tracker_at(now: u64) -> QRCodesSpatialContext {
    let mut t = QRCodesSpatialContext::new(true, true, CAP, Vec::new(), 7, now).unwrap();
    t.handle_context_event(ContextEvent::Completed { result_code: 0, context_handle: 99 })
        .unwrap();
    t
}

#[test]
fn decode_label_stops_at_first_nul() {
    let buf = vec![b'A', b'B', 0, b'C', b'D'];
    assert_eq!(decode_label(&buf).unwrap(), "AB");
}

#[test]
fn decode_label_takes_whole_buffer_without_nul() {
    let buf = b"ABC123".to_vec();
    assert_eq!(decode_label(&buf).unwrap(), "ABC123");
}

#[test]
fn decode_label_handles_multibyte_text() {
    // "héllo" in UTF-8
    let buf = vec![0x68, 0xC3, 0xA9, 0x6C, 0x6C, 0x6F, 0, 0];
    assert_eq!(decode_label(&buf).unwrap(), "h\u{e9}llo");
}

#[test]
fn decode_label_rejects_invalid_utf8() {
    let buf = vec![0xFF, 0xFE, 0];
    assert_eq!(decode_label(&buf).unwrap_err(), TrackerError::DecodeError);
    // a lone continuation byte is invalid too
    let buf2 = vec![0x80];
    assert_eq!(decode_label(&buf2).unwrap_err(), TrackerError::DecodeError);
}

#[test]
fn decode_label_of_empty_payload_is_empty() {
    assert_eq!(decode_label(&vec![0, 0, 0]).unwrap(), "");
    assert_eq!(decode_label(&Vec::new()).unwrap(), "");
}

#[test]
fn empty_filter_allows_everything() {
    let f = LabelFilter::from_labels(Vec::new());
    assert!(f.allows_label(&"anything".to_string()));
    assert!(f.allows_label(&"".to_string()));
}

#[test]
fn non_empty_filter_allows_only_its_labels() {
    let f = LabelFilter::from_labels(vec!["ABC123".to_string(), "DEF456".to_string()]);
    assert!(f.allows_label(&"ABC123".to_string()));
    assert!(f.allows_label(&"DEF456".to_string()));
    assert!(!f.allows_label(&"XYZ999".to_string()));
    assert!(!f.allows_label(&"abc123".to_string()));
}

#[test]
fn discovery_waits_until_deadline_passes() {
    let t = ready_tracker_at(100);
    assert_eq!(t.discovery_action(50), DiscoveryAction::Wait);
    assert_eq!(t.discovery_action(100), DiscoveryAction::Wait);
    assert_eq!(t.discovery_action(101), DiscoveryAction::IssueRequest);
}

#[test]
fn discovery_issues_at_most_one_request_per_interval() {
    let mut t = ready_tracker_at(0);
    assert_eq!(t.discovery_action(1), DiscoveryAction::IssueRequest);
    let r = t.apply_discovery_event(1, DiscoveryEvent::Requested { future: 42 }).unwrap();
    assert_eq!(r, None);

    // while the request is outstanding, even far past the deadline, the
    // only action is checking its future
    let far = 1 + 10 * DISCOVERY_TIMEOUT_NS;
    assert_eq!(t.discovery_action(far), DiscoveryAction::CheckFuture(42));
    let r2 = t.apply_discovery_event(far, DiscoveryEvent::FutureStillPending).unwrap();
    assert_eq!(r2, None);
    assert_eq!(t.discovery_action(far), DiscoveryAction::CheckFuture(42));

    // completing the future yields the snapshot and clears the request,
    // but the deadline set at issuance still throttles the next request
    let snap = t
        .apply_discovery_event(far, DiscoveryEvent::FutureCompleted { result_code: 0, snapshot: 77 })
        .unwrap();
    assert_eq!(snap, Some(77));
    assert_eq!(t.discovery_action(1 + DISCOVERY_TIMEOUT_NS), DiscoveryAction::Wait);
    assert_eq!(t.discovery_action(2 + DISCOVERY_TIMEOUT_NS), DiscoveryAction::IssueRequest);
}

#[test]
fn failed_discovery_completion_aborts_the_poll() {
    let mut t = ready_tracker_at(0);
    t.apply_discovery_event(1, DiscoveryEvent::Requested { future: 42 }).unwrap();
    let err = t
        .apply_discovery_event(5, DiscoveryEvent::FutureCompleted { result_code: -2, snapshot: 0 })
        .unwrap_err();
    assert_eq!(err, TrackerError::AsyncOperationFailure(-2));
    // the failed future is cleared: the next cycle may request again once
    // the deadline passes
    assert_eq!(
        t.discovery_action(2 + DISCOVERY_TIMEOUT_NS),
        DiscoveryAction::IssueRequest
    );
}

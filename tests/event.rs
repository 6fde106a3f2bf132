use scheduler::alert::Topic;
use scheduler::event::{InputEvent, BACKOFF_SCALE, QUOTA_CEILING};

#[test]
fn quota_constants() {
    assert_eq!(QUOTA_CEILING, 100);
    assert_eq!(BACKOFF_SCALE, 1);
}

#[test]
fn decodes_complete_message() {
    let e = InputEvent::from_fields(Some(4), Some("1234567890123"), Some(42), None).unwrap();
    assert_eq!(e, InputEvent { region_id: 4, max_id: 1234567890123, resources_count: 42, error: None });
    let e = InputEvent::from_fields(Some(4), Some("+7"), Some(100), Some(900)).unwrap();
    assert_eq!(e, InputEvent { region_id: 4, max_id: 7, resources_count: 100, error: Some(900) });
}

#[test]
fn drops_malformed_messages() {
    assert_eq!(InputEvent::from_fields(None, Some("1"), Some(1), None), None);
    assert_eq!(InputEvent::from_fields(Some(1), None, Some(1), None), None);
    assert_eq!(InputEvent::from_fields(Some(1), Some("1"), None, None), None);
    assert_eq!(InputEvent::from_fields(Some(1), Some("abc"), Some(1), None), None);
    assert_eq!(InputEvent::from_fields(Some(1), Some(""), Some(1), None), None);
    assert_eq!(InputEvent::from_fields(Some(1), Some("-3"), Some(1), None), None);
    assert_eq!(InputEvent::from_fields(Some(1), Some(" 3"), Some(1), None), None);
    assert_eq!(InputEvent::from_fields(Some(1), Some("18446744073709551616"), Some(1), None), None);
    assert_eq!(InputEvent::from_fields(Some(1), Some("5"), Some(101), None), None);
}

#[test]
fn largest_id_decodes() {
    let e = InputEvent::from_fields(Some(1), Some("18446744073709551615"), Some(0), None).unwrap();
    assert_eq!(e.max_id, u64::MAX);
}

#[test]
fn alert_messages() {
    assert_eq!(Topic::UnknownRegion { region_id: 1 }.message(), "Unknown region.");
    assert_eq!(Topic::SqsConnDropped.message(), "Connection to SQS dropped.");
    assert_eq!(Topic::DispatchSinkClosed { region_id: 1 }.message(), "Dispatch channel closed.");
}


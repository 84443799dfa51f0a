use mqtt2influxdb::influxdb::{authorization, is_error_status, outcome, request_body, write_endpoint, WriteError};
use mqtt2influxdb::mqtt::{client_id, react, BusEvent, Reaction};

#[test]
fn error_statuses() {
    for status in [100, 200, 204, 301, 399, 600] {
        assert!(!is_error_status(status), "{status}");
        assert!(outcome(status, String::new()).is_ok());
    }
    for status in [400, 404, 499, 500, 503, 599] {
        assert!(is_error_status(status), "{status}");
    }
    match outcome(400, "bad line".to_string()) {
        Err(WriteError::Rejected(status, reason)) => {
            assert_eq!(status, 400);
            assert_eq!(reason, "bad line");
        }
        other => panic!("{other:?}"),
    }
}

#[test]
fn body_joins_lines() {
    assert_eq!(request_body(&vec!["a b".to_string(), "c".to_string(), "d".to_string()]), "a b\nc\nd");
    assert_eq!(request_body(&vec!["one".to_string()]), "one");
    assert_eq!(request_body(&Vec::new()), "");
}

#[test]
fn endpoint_variants() {
    let v2 = write_endpoint(Some("acme"), Some("sensors"), None);
    assert_eq!(v2.path, "/api/v2/write");
    assert_eq!(v2.query.as_deref(), Some("org=acme&bucket=sensors"));
    let v1 = write_endpoint(None, None, Some("telemetry"));
    assert_eq!(v1.path, "/write");
    assert_eq!(v1.query.as_deref(), Some("db=telemetry"));
    let half = write_endpoint(Some("acme"), None, Some("telemetry"));
    assert_eq!(half.path, "/write");
    assert_eq!(half.query.as_deref(), Some("db=telemetry"));
    let bare = write_endpoint(None, Some("sensors"), None);
    assert_eq!(bare.path, "/write");
    assert_eq!(bare.query, None);
}

#[test]
fn token_header() {
    assert_eq!(authorization("s3cr3t"), "Token s3cr3t");
}

#[test]
fn client_ids() {
    assert_eq!(client_id(0), "mqtt2influxdb-0");
    assert_eq!(client_id(0xdead_beef), "mqtt2influxdb-deadbeef");
    assert_eq!(client_id(u32::MAX), "mqtt2influxdb-ffffffff");
    assert_eq!(client_id(0x00ab_0001), "mqtt2influxdb-ab0001");
}

#[test]
fn session_reactions() {
    assert_eq!(react(&BusEvent::ConnAck { session_present: false }), Reaction::Subscribe);
    assert_eq!(react(&BusEvent::ConnAck { session_present: true }), Reaction::Ignore);
    assert_eq!(react(&BusEvent::Publish { dup: false, retain: false, payload_len: 3 }), Reaction::Forward);
    assert_eq!(react(&BusEvent::Publish { dup: true, retain: false, payload_len: 3 }), Reaction::Ignore);
    assert_eq!(react(&BusEvent::Publish { dup: false, retain: true, payload_len: 3 }), Reaction::Ignore);
    assert_eq!(react(&BusEvent::Publish { dup: false, retain: false, payload_len: 0 }), Reaction::Ignore);
    assert_eq!(react(&BusEvent::Disconnect), Reaction::Stop);
    assert_eq!(react(&BusEvent::Other), Reaction::Ignore);
    assert_eq!(react(&BusEvent::Error), Reaction::Pause);
}

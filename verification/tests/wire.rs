use muse::protocol::{API_VERSION, Ack, Command, Event, MAX_MESSAGE_BYTES, Notice, Request};
use muse::wire::{Json, check_budget, decode_event, decode_request};

fn request(version: u64, id: u64) -> Request {
    Request {
        version,
        id,
        command: Command::Snapshot,
    }
}

fn event(version: u64, id: Option<u64>, sequence: u64) -> Event {
    Event {
        version,
        id,
        sequence,
        event: Notice::Ack(Ack {
            message: "ok".into(),
        }),
    }
}

#[test]
fn resource_limits_and_invalid_numbers() {
    let oversized = vec![b' '; MAX_MESSAGE_BYTES + 1];
    assert_eq!(
        decode_request(&oversized, Ok(Json::Null), Ok(request(API_VERSION, 1))).unwrap_err(),
        "Message exceeds 1 MiB"
    );
    let long_text = Json::Text("가".repeat(8193));
    assert!(check_budget(&long_text, 0).is_err());
    let wide = Json::Array((0..32769).map(|_| Json::Null).collect());
    assert!(check_budget(&wide, 0).is_err());
    assert!(check_budget(&Json::Null, 25).is_err());
}

#[test]
fn budget_errors_name_the_first_exceeded_limit() {
    assert_eq!(
        check_budget(&Json::Null, 25),
        Err("Message is too deeply nested".to_string())
    );
    assert_eq!(check_budget(&Json::Null, 24), Ok(()));
    assert_eq!(
        check_budget(&Json::Text("가".repeat(8193)), 0),
        Err("String is too long".to_string())
    );
    assert_eq!(check_budget(&Json::Text("가".repeat(8192)), 0), Ok(()));
    assert_eq!(
        check_budget(&Json::Array((0..32769).map(|_| Json::Null).collect()), 0),
        Err("Array is too large".to_string())
    );
    let key = "k".repeat(8193);
    assert_eq!(
        check_budget(&Json::Object(vec![(key, Json::Null)]), 0),
        Err("Object key is too long".to_string())
    );
    let mut nested = Json::Number("1".into());
    for _ in 0..25 {
        nested = Json::Array(vec![nested]);
    }
    assert_eq!(
        check_budget(&nested, 0),
        Err("Message is too deeply nested".to_string())
    );
    let mut shallow = Json::Bool(true);
    for _ in 0..24 {
        shallow = Json::Object(vec![("a".into(), shallow)]);
    }
    assert_eq!(check_budget(&shallow, 0), Ok(()));
}

#[test]
fn requests_need_the_protocol_version_and_an_id() {
    let bytes = b"{}";
    assert_eq!(
        decode_request(bytes, Ok(Json::Null), Ok(request(API_VERSION, 3))),
        Ok(request(API_VERSION, 3))
    );
    assert_eq!(
        decode_request(bytes, Ok(Json::Null), Ok(request(API_VERSION, 0))).unwrap_err(),
        "Unsupported protocol version or request ID"
    );
    assert_eq!(
        decode_request(bytes, Ok(Json::Null), Ok(request(2, 3))).unwrap_err(),
        "Unsupported protocol version or request ID"
    );
    assert_eq!(
        decode_request(bytes, Err("expected value".into()), Ok(request(API_VERSION, 3))).unwrap_err(),
        "expected value"
    );
    assert_eq!(
        decode_request(bytes, Ok(Json::Null), Err("missing field `id`".into())).unwrap_err(),
        "missing field `id`"
    );
    assert_eq!(
        decode_request(bytes, Ok(Json::Text("가".repeat(8193))), Ok(request(API_VERSION, 3)))
            .unwrap_err(),
        "String is too long"
    );
}

#[test]
fn events_need_the_protocol_version_and_an_identity() {
    let bytes = b"{}";
    assert_eq!(
        decode_event(bytes, Ok(Json::Null), Ok(event(API_VERSION, None, 1))),
        Ok(event(API_VERSION, None, 1))
    );
    assert_eq!(
        decode_event(bytes, Ok(Json::Null), Ok(event(API_VERSION, Some(4), 1))),
        Ok(event(API_VERSION, Some(4), 1))
    );
    for bad in [
        event(API_VERSION, Some(0), 1),
        event(API_VERSION, None, 0),
        event(0, None, 1),
    ] {
        assert_eq!(
            decode_event(bytes, Ok(Json::Null), Ok(bad)).unwrap_err(),
            "Unsupported protocol version or event identity"
        );
    }
}

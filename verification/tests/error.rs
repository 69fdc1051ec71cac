use mrpc::{DecodeError, ProtocolError, RpcError, ServiceError, Value};
use std::io::{Error, ErrorKind};

#[test]
fn test_task_failed_wraps_join_error() {
    let runtime = tokio::runtime::Builder::new_current_thread().enable_all().build().unwrap();
    let join_error = runtime.block_on(async {
        let handle = tokio::spawn(async {
            std::future::pending::<()>().await;
        });
        handle.abort();
        handle.await.unwrap_err()
    });

    let error = RpcError::task_failed("demo task", join_error);

    match error {
        RpcError::Protocol(ProtocolError::TaskFailed { task, source }) => {
            assert_eq!(task, "demo task");
            assert!(source.is_cancelled());
        }
        other => panic!("expected task failure, got {other:?}"),
    }
}

#[test]
fn test_resource_already_taken_uses_protocol_error() {
    let error = RpcError::resource_already_taken("message receiver");

    match error {
        RpcError::Protocol(ProtocolError::ResourceAlreadyTaken { resource }) => {
            assert_eq!(resource, "message receiver");
        }
        other => panic!("expected resource-taken error, got {other:?}"),
    }
}

#[test]
fn test_service_error_round_trip() {
    let error = ServiceError { name: "MethodNotFound".to_string(), value: Value::from("missing") };

    let encoded = Value::from(error);
    let decoded = ServiceError::try_from(encoded).unwrap();

    assert_eq!(decoded.name, "MethodNotFound");
    assert_eq!(decoded.value, Value::from("missing"));
}

#[test]
fn test_service_error_try_from_requires_name_and_value() {
    let missing_name = Value::Mapping(vec![(Value::from("value"), Value::from("missing"))]);
    assert!(ServiceError::try_from(missing_name).is_err());

    let missing_value = Value::Mapping(vec![(Value::from("name"), Value::from("SomeError"))]);
    assert!(ServiceError::try_from(missing_value).is_err());
}

#[test]
fn test_from_remote_error_value_preserves_service_errors() {
    let value = Value::Mapping(vec![
        (Value::from("name"), Value::from("SomeError")),
        (Value::from("value"), Value::from("payload")),
    ]);

    let error = RpcError::from_remote_error_value(value);

    match error {
        RpcError::Service(service_error) => {
            assert_eq!(service_error.name, "SomeError");
            assert_eq!(service_error.value, Value::from("payload"));
        }
        other => panic!("expected service error, got {other:?}"),
    }
}

#[test]
fn test_from_remote_error_value_uses_fallback_names() {
    let malformed_map = Value::Mapping(vec![(Value::from("value"), Value::from("payload"))]);
    let error = RpcError::from_remote_error_value(malformed_map);

    match error {
        RpcError::Service(service_error) => {
            assert_eq!(service_error.name, "UnknownError");
            assert_eq!(
                service_error.value,
                Value::Mapping(vec![(Value::from("value"), Value::from("payload"))])
            );
        }
        other => panic!("expected service error, got {other:?}"),
    }

    let scalar_error = RpcError::from_remote_error_value(Value::from("boom"));
    match scalar_error {
        RpcError::Service(service_error) => {
            assert_eq!(service_error.name, "RemoteError");
            assert_eq!(service_error.value, Value::from("boom"));
        }
        other => panic!("expected service error, got {other:?}"),
    }
}

#[test]
fn service_error_encodes_as_a_name_value_map() {
    let error = ServiceError { name: "Oops".to_string(), value: Value::from(3u64) };
    assert_eq!(
        Value::from(error),
        Value::Mapping(vec![
            (Value::from("name"), Value::from("Oops")),
            (Value::from("value"), Value::from(3u64)),
        ])
    );
}

#[test]
fn service_error_decoding_takes_the_last_entry_of_a_key() {
    let value = Value::Mapping(vec![
        (Value::from("name"), Value::from("First")),
        (Value::from("value"), Value::from(1u64)),
        (Value::from("other"), Value::Nil),
        (Value::from("name"), Value::from("Second")),
        (Value::from("value"), Value::from(2u64)),
    ]);
    let decoded = ServiceError::try_from(value).unwrap();
    assert_eq!(decoded.name, "Second");
    assert_eq!(decoded.value, Value::from(2u64));
}

#[test]
fn service_error_decoding_hands_back_the_value_unchanged() {
    let not_a_string_name = Value::Mapping(vec![
        (Value::from("name"), Value::from(5u64)),
        (Value::from("value"), Value::Nil),
    ]);
    let copy = not_a_string_name.clone();
    assert_eq!(ServiceError::try_from(not_a_string_name).unwrap_err(), copy);
    assert_eq!(ServiceError::try_from(Value::Nil).unwrap_err(), Value::Nil);
}

#[test]
fn io_errors_are_classified_by_kind() {
    for kind in [
        ErrorKind::UnexpectedEof,
        ErrorKind::BrokenPipe,
        ErrorKind::ConnectionAborted,
        ErrorKind::ConnectionReset,
        ErrorKind::NotConnected,
    ] {
        let e = RpcError::from(Error::new(kind, "gone"));
        assert!(matches!(e, RpcError::Disconnect { source: Some(_) }), "{kind:?}");
    }
    let e = RpcError::from(Error::new(ErrorKind::PermissionDenied, "no"));
    assert!(matches!(e, RpcError::Io(_)));
}

#[test]
fn protocol_error_from_text_is_a_malformed_message() {
    assert!(matches!(ProtocolError::from("x"), ProtocolError::MalformedMessage(s) if s == "x"));
    assert!(matches!(ProtocolError::from("y".to_string()), ProtocolError::MalformedMessage(s) if s == "y"));
}

#[test]
fn display_texts_follow_the_error_messages() {
    assert_eq!(ProtocolError::InvalidMessageType(42).display_text(), "Invalid message type: 42");
    assert_eq!(ProtocolError::InvalidMessageType(0).display_text(), "Invalid message type: 0");
    assert_eq!(
        ProtocolError::UnexpectedResponse { id: 4294967295 }.display_text(),
        "Unexpected response id: 4294967295"
    );
    assert_eq!(ProtocolError::DepthLimitExceeded.display_text(), "Depth limit exceeded");
    assert_eq!(
        ProtocolError::ResourceAlreadyTaken { resource: "message receiver" }.display_text(),
        "Resource already taken: message receiver"
    );
    assert_eq!(
        RpcError::Protocol(ProtocolError::from("boom")).display_text(),
        "Malformed message: boom"
    );
    assert_eq!(RpcError::Disconnect { source: None }.display_text(), "Connection disconnected");
    assert_eq!(
        RpcError::Connect { source: Error::new(ErrorKind::Other, "x") }.display_text(),
        "Connection failed"
    );
    assert_eq!(
        RpcError::Io(Error::new(ErrorKind::Other, "disk")).display_text(),
        "I/O error: disk"
    );
    assert_eq!(
        RpcError::Deserialization(DecodeError::DepthLimitExceeded).display_text(),
        "Deserialization error: depth limit exceeded"
    );
    assert_eq!(
        RpcError::Deserialization(DecodeError::InvalidMarkerRead(Error::new(ErrorKind::Other, "eof")))
            .display_text(),
        "Deserialization error: I/O error while reading marker byte: eof"
    );
    let service = ServiceError { name: "Oops".to_string(), value: Value::Nil };
    assert_eq!(service.display_text(), "Service error Oops: Nil");
    let named = ServiceError { name: "Oops".to_string(), value: Value::from("x") };
    assert_eq!(named.display_text(), "Service error Oops: String(Utf8String { s: Ok(\"x\") })");
    assert_eq!(RpcError::Service(service).display_text(), "Service error: Service error Oops: Nil");
}

#[test]
fn typed_codec_errors_show_their_cause() {
    assert_eq!(
        RpcError::RequestSerialization(rmp_serde::encode::Error::Syntax("no map".to_string()))
            .display_text(),
        "Request serialization error: no map"
    );
    assert_eq!(
        RpcError::ResponseDeserialization(rmp_serde::decode::Error::Syntax("bad type".to_string()))
            .display_text(),
        "Response deserialization error: bad type"
    );
    assert_eq!(
        RpcError::Serialization(mrpc::EncodeError::InvalidDataWrite(Error::new(ErrorKind::Other, "x")))
            .display_text(),
        "Serialization error: error while writing multi-byte MessagePack value"
    );
}

#[test]
fn a_failed_task_shows_its_name_and_cause() {
    let runtime = tokio::runtime::Builder::new_current_thread().enable_all().build().unwrap();
    let join_error = runtime.block_on(async {
        let handle = tokio::spawn(async {
            std::future::pending::<()>().await;
        });
        handle.abort();
        handle.await.unwrap_err()
    });
    let text = RpcError::task_failed("reader", join_error).display_text();
    assert!(text.starts_with("Task 'reader' failed: "), "{text}");
    assert!(text.contains("cancelled"), "{text}");
}

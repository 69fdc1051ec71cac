use mrpc::{DecodeError, Message, Notification, ProtocolError, Request, Response, RpcError, Value};
use std::io::{Error, ErrorKind};

const REQUEST_MESSAGE: u64 = 0;
const RESPONSE_MESSAGE: u64 = 1;

fn test_cases() -> Vec<Message> {
    vec![
        Message::Request(Request {
            id: 1,
            method: "test_method".to_string(),
            params: vec![Value::from("param1"), Value::from(42i64)],
        }),
        Message::Response(Response { id: 2, result: Ok(Value::from("success")) }),
        Message::Response(Response { id: 3, result: Err(Value::from("error")) }),
        Message::Notification(Notification {
            method: "test_notification".to_string(),
            params: vec![Value::Boolean(true), Value::F64(2.14f64.to_bits())],
        }),
        Message::Request(Request {
            id: 4,
            method: "complex_method".to_string(),
            params: vec![
                Value::Array(vec![Value::from("nested"), Value::from(1i64)]),
                Value::Mapping(vec![
                    (Value::from("key"), Value::Boolean(true)),
                    (Value::from("value"), Value::F64(1.718f64.to_bits())),
                ]),
            ],
        }),
    ]
}

#[test]
fn test_message_idempotence_and_invalid_inputs() {
    for message in test_cases().iter() {
        let value = message.to_value();
        let roundtrip_message = Message::from_value(value).unwrap();
        assert_eq!(message, &roundtrip_message);
    }

    let invalid_values = vec![
        Value::Nil,
        Value::Boolean(true),
        Value::from(42i64),
        Value::from("not an array"),
        Value::Array(vec![]),
        Value::Array(vec![Value::from(999i64)]),
        Value::Array(vec![Value::from(REQUEST_MESSAGE)]),
    ];

    for invalid_value in invalid_values {
        assert!(Message::from_value(invalid_value).is_err());
    }
}

#[test]
fn test_rejects_message_ids_outside_u32_range() {
    let request = Value::Array(vec![
        Value::from(REQUEST_MESSAGE),
        Value::from(u64::from(u32::MAX) + 1),
        Value::from("overflow"),
        Value::Array(vec![]),
    ]);
    assert!(Message::from_value(request).is_err());

    let response = Value::Array(vec![
        Value::from(RESPONSE_MESSAGE),
        Value::from(u64::from(u32::MAX) + 1),
        Value::Nil,
        Value::Nil,
    ]);
    assert!(Message::from_value(response).is_err());
}

fn malformed_text(r: Result<Message, RpcError>) -> String {
    match r {
        Err(RpcError::Protocol(ProtocolError::MalformedMessage(s))) => s,
        other => panic!("expected a malformed-message error, got {other:?}"),
    }
}

#[test]
fn request_value_has_the_wire_layout() {
    let m = Message::Request(Request { id: 7, method: "add".to_string(), params: vec![Value::from(1u64)] });
    assert_eq!(
        m.to_value(),
        Value::Array(vec![
            Value::from(0u64),
            Value::from(7u64),
            Value::from("add"),
            Value::Array(vec![Value::from(1u64)]),
        ])
    );
}

#[test]
fn response_value_puts_nil_in_the_unused_slot() {
    let ok = Message::Response(Response { id: 9, result: Ok(Value::from(5u64)) });
    assert_eq!(
        ok.to_value(),
        Value::Array(vec![Value::from(1u64), Value::from(9u64), Value::Nil, Value::from(5u64)])
    );
    let err = Message::Response(Response { id: 9, result: Err(Value::from("bad")) });
    assert_eq!(
        err.to_value(),
        Value::Array(vec![Value::from(1u64), Value::from(9u64), Value::from("bad"), Value::Nil])
    );
}

#[test]
fn notification_value_has_the_wire_layout() {
    let m = Message::Notification(Notification { method: "tick".to_string(), params: vec![] });
    assert_eq!(
        m.to_value(),
        Value::Array(vec![Value::from(2u64), Value::from("tick"), Value::Array(vec![])])
    );
}

#[test]
fn response_with_nil_error_reads_back_as_success() {
    let m = Message::Response(Response { id: 1, result: Err(Value::Nil) });
    let back = Message::from_value(m.to_value()).unwrap();
    assert_eq!(back, Message::Response(Response { id: 1, result: Ok(Value::Nil) }));
}

#[test]
fn from_value_reports_each_malformation() {
    assert_eq!(malformed_text(Message::from_value(Value::Nil)), "Invalid message format");
    assert_eq!(malformed_text(Message::from_value(Value::Array(vec![]))), "Empty message array");
    assert_eq!(
        malformed_text(Message::from_value(Value::Array(vec![Value::from("x")]))),
        "Invalid message type"
    );
    assert_eq!(
        malformed_text(Message::from_value(Value::Array(vec![Value::from(0u64)]))),
        "Invalid request message length"
    );
    assert_eq!(
        malformed_text(Message::from_value(Value::Array(vec![Value::from(1u64), Value::Nil]))),
        "Invalid response message length"
    );
    assert_eq!(
        malformed_text(Message::from_value(Value::Array(vec![Value::from(2u64)]))),
        "Invalid notification message length"
    );
    assert_eq!(
        malformed_text(Message::from_value(Value::Array(vec![
            Value::from(0u64),
            Value::from(-1i64),
            Value::from("m"),
            Value::Array(vec![]),
        ]))),
        "Invalid request id"
    );
    assert_eq!(
        malformed_text(Message::from_value(Value::Array(vec![
            Value::from(0u64),
            Value::from(1u64),
            Value::from(3u64),
            Value::Array(vec![]),
        ]))),
        "Invalid request method"
    );
    assert_eq!(
        malformed_text(Message::from_value(Value::Array(vec![
            Value::from(0u64),
            Value::from(1u64),
            Value::from("m"),
            Value::Nil,
        ]))),
        "Invalid request params"
    );
    assert_eq!(
        malformed_text(Message::from_value(Value::Array(vec![
            Value::from(2u64),
            Value::from("m"),
            Value::from(1u64),
        ]))),
        "Invalid notification params"
    );
    assert_eq!(
        malformed_text(Message::from_value(Value::Array(vec![
            Value::from(2u64),
            Value::Nil,
            Value::Array(vec![]),
        ]))),
        "Invalid notification method"
    );
    assert_eq!(
        malformed_text(Message::from_value(Value::Array(vec![
            Value::from(1u64),
            Value::from("id"),
            Value::Nil,
            Value::Nil,
        ]))),
        "Invalid response id"
    );
}

#[test]
fn from_value_reports_an_unknown_type_tag() {
    match Message::from_value(Value::Array(vec![Value::from(999u64)])) {
        Err(RpcError::Protocol(ProtocolError::InvalidMessageType(999))) => {}
        other => panic!("expected an invalid message type, got {other:?}"),
    }
}

#[test]
fn message_clone_keeps_the_message() {
    for message in test_cases() {
        assert_eq!(message.clone(), message);
    }
}

#[test]
fn from_read_classifies_read_failures() {
    let m = Message::Notification(Notification { method: "n".to_string(), params: vec![] });
    assert_eq!(Message::from_read(Ok(m.to_value())).unwrap(), m);

    let eof = DecodeError::InvalidMarkerRead(Error::new(ErrorKind::UnexpectedEof, "eof"));
    assert!(matches!(Message::from_read(Err(eof)), Err(RpcError::Disconnect { source: Some(_) })));

    let other = DecodeError::InvalidDataRead(Error::new(ErrorKind::InvalidData, "bad"));
    assert!(matches!(Message::from_read(Err(other)), Err(RpcError::Io(_))));

    assert!(matches!(
        Message::from_read(Err(DecodeError::DepthLimitExceeded)),
        Err(RpcError::Protocol(ProtocolError::DepthLimitExceeded))
    ));
}

#[test]
fn test_message_round_trip_with_buffer() {
    for original_message in test_cases().iter() {
        let mut write_buffer = Vec::new();
        original_message.encode(&mut write_buffer).unwrap();

        let (deserialized_message, consumed) = Message::decode(&write_buffer).unwrap();

        assert_eq!(original_message, &deserialized_message);
        assert_eq!(consumed, write_buffer.len());
    }
}

#[test]
fn encode_appends_the_wire_bytes() {
    let message = Message::Notification(Notification { method: "a".to_string(), params: vec![] });
    let mut buffer = vec![0xc0u8];
    message.encode(&mut buffer).unwrap();
    assert_eq!(buffer, vec![0xc0, 0x93, 0x02, 0xa1, 0x61, 0x90]);
}

#[test]
fn decode_reads_only_the_first_message() {
    let first = Message::Response(Response { id: 7, result: Ok(Value::Nil) });
    let second = Message::Notification(Notification { method: "n".to_string(), params: vec![] });
    let mut buffer = Vec::new();
    first.encode(&mut buffer).unwrap();
    let first_len = buffer.len();
    second.encode(&mut buffer).unwrap();
    let (message, consumed) = Message::decode(&buffer).unwrap();
    assert_eq!(message, first);
    assert_eq!(consumed, first_len);
    let (message, consumed) = Message::decode(&buffer[first_len..]).unwrap();
    assert_eq!(message, second);
    assert_eq!(consumed, buffer.len() - first_len);
}

#[test]
fn decode_reports_truncated_and_malformed_input() {
    let mut buffer = Vec::new();
    test_cases()[0].encode(&mut buffer).unwrap();
    buffer.truncate(buffer.len() - 1);
    assert!(matches!(Message::decode(&buffer), Err(RpcError::Disconnect { source: Some(_) })));
    assert!(matches!(Message::decode(&[]), Err(RpcError::Disconnect { source: Some(_) })));
    match Message::decode(&[0xc0]) {
        Err(RpcError::Protocol(ProtocolError::MalformedMessage(text))) => {
            assert_eq!(text, "Invalid message format")
        }
        other => panic!("unexpected result: {:?}", other.map(|(_, n)| n)),
    }
}

#[test]
fn decode_reports_a_value_nested_too_deep() {
    let mut bytes = vec![0x91u8; 2000];
    bytes.push(0xc0);
    assert!(matches!(
        Message::decode(&bytes),
        Err(RpcError::Protocol(ProtocolError::DepthLimitExceeded))
    ));
}

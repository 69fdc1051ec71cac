use mrpc::{
    ConnectionMaker, DecodeError, HandlerAction, HandlerEvent, Message, Notification, ProtocolError, ReadBuffer, ReadProgress,
    ReaderAction,
    Request, Response, RpcConnection, RpcError, ServiceError, Value, classify_read, handler_step,
    method_not_implemented, params_from_value, read_progress, reader_step, response_for_request,
    single_param, try_decode_message,
};
use std::io::{Error, ErrorKind};

fn cancelled_join_error() -> tokio::task::JoinError {
    let runtime = tokio::runtime::Builder::new_current_thread().enable_all().build().unwrap();
    runtime.block_on(async {
        let handle = tokio::spawn(async {
            std::future::pending::<()>().await;
        });
        handle.abort();
        handle.await.unwrap_err()
    })
}

#[test]
fn requests_get_increasing_ids_from_one() {
    let mut conn: RpcConnection<&str, ()> = RpcConnection::new(());
    assert_eq!(conn.next_request_id(), 1);
    let first = conn.send_request("a".to_string(), vec![], "w1");
    let second = conn.send_request("b".to_string(), vec![Value::from(1u64)], "w2");
    assert_eq!(
        first,
        Message::Request(Request { id: 1, method: "a".to_string(), params: vec![] })
    );
    assert_eq!(
        second,
        Message::Request(Request { id: 2, method: "b".to_string(), params: vec![Value::from(1u64)] })
    );
    assert_eq!(conn.next_request_id(), 3);
}

#[test]
fn a_response_reaches_the_waiter_of_its_request_once() {
    let mut conn: RpcConnection<&str, ()> = RpcConnection::new(());
    conn.send_request("a".to_string(), vec![], "w1");
    conn.send_request("b".to_string(), vec![], "w2");

    let (waiter, outcome) =
        conn.handle_response(Response { id: 2, result: Ok(Value::from(7u64)) }).unwrap();
    assert_eq!(waiter, "w2");
    assert_eq!(outcome.unwrap(), Value::from(7u64));

    match conn.handle_response(Response { id: 2, result: Ok(Value::Nil) }) {
        Err(RpcError::Protocol(ProtocolError::UnexpectedResponse { id: 2 })) => {}
        other => panic!("expected an unexpected response, got {other:?}"),
    }

    let (waiter, _) = conn.handle_response(Response { id: 1, result: Ok(Value::Nil) }).unwrap();
    assert_eq!(waiter, "w1");
}

#[test]
fn an_unknown_response_id_is_refused() {
    let mut conn: RpcConnection<u8, ()> = RpcConnection::new(());
    match conn.handle_response(Response { id: 5, result: Ok(Value::Nil) }) {
        Err(RpcError::Protocol(ProtocolError::UnexpectedResponse { id: 5 })) => {}
        other => panic!("expected an unexpected response, got {other:?}"),
    }
}

#[test]
fn an_error_response_becomes_a_service_error() {
    let mut conn: RpcConnection<u8, ()> = RpcConnection::new(());
    conn.send_request("a".to_string(), vec![], 1);
    let payload = Value::from(ServiceError { name: "Bad".to_string(), value: Value::from(3u64) });
    let (_, outcome) = conn.handle_response(Response { id: 1, result: Err(payload) }).unwrap();
    match outcome {
        Err(RpcError::Service(e)) => {
            assert_eq!(e.name, "Bad");
            assert_eq!(e.value, Value::from(3u64));
        }
        other => panic!("expected a service error, got {other:?}"),
    }

    conn.send_request("b".to_string(), vec![], 2);
    let (_, outcome) =
        conn.handle_response(Response { id: 2, result: Err(Value::from("boom")) }).unwrap();
    match outcome {
        Err(RpcError::Service(e)) => {
            assert_eq!(e.name, "RemoteError");
            assert_eq!(e.value, Value::from("boom"));
        }
        other => panic!("expected a service error, got {other:?}"),
    }
}

#[test]
fn the_receiver_is_taken_once() {
    let mut conn: RpcConnection<u8, &str> = RpcConnection::new("rx");
    assert!(conn.has_receiver());
    assert_eq!(conn.receiver(), "rx");
    assert!(!conn.has_receiver());
}

#[test]
fn notifications_leave_the_state_alone() {
    let conn: RpcConnection<u8, ()> = RpcConnection::new(());
    let m = conn.send_notification("tick".to_string(), vec![Value::Nil]);
    assert_eq!(
        m.to_value(),
        Value::Array(vec![Value::from(2u64), Value::from("tick"), Value::Array(vec![Value::Nil])])
    );
    assert_eq!(conn.next_request_id(), 1);
}

#[test]
fn responses_answer_handler_results() {
    let ok = response_for_request(3, Ok(Value::from(5u64)));
    assert_eq!(ok, Response { id: 3, result: Ok(Value::from(5u64)) });

    let service = response_for_request(
        4,
        Err(RpcError::Service(ServiceError { name: "MethodNotFound".to_string(), value: Value::Nil })),
    );
    assert_eq!(
        service,
        Response {
            id: 4,
            result: Err(Value::Mapping(vec![
                (Value::from("name"), Value::from("MethodNotFound")),
                (Value::from("value"), Value::Nil),
            ])),
        }
    );

    let internal = response_for_request(5, Err(method_not_implemented("nope")));
    assert_eq!(
        internal,
        Response {
            id: 5,
            result: Err(Value::from("Internal error: Malformed message: Method 'nope' not implemented")),
        }
    );
}

#[test]
fn params_come_from_an_array_or_a_single_value() {
    let array = Value::Array(vec![Value::from(1u64), Value::from(2u64)]);
    assert_eq!(params_from_value(array), vec![Value::from(1u64), Value::from(2u64)]);
    assert_eq!(params_from_value(Value::from("one")), vec![Value::from("one")]);
}

#[test]
fn a_single_param_must_be_alone() {
    assert_eq!(single_param(vec![Value::from(9u64)]).unwrap(), Value::from(9u64));
    for params in [vec![], vec![Value::Nil, Value::Nil]] {
        match single_param(params) {
            Err(RpcError::Protocol(ProtocolError::ExpectedSingleParameter)) => {}
            other => panic!("expected an arity error, got {other:?}"),
        }
    }
}

#[test]
fn decoding_waits_for_more_bytes_only_when_input_ran_out() {
    let eof = DecodeError::InvalidMarkerRead(Error::new(ErrorKind::UnexpectedEof, "short"));
    assert!(matches!(classify_read(Err(eof), mrpc::IoErrorKind::UnexpectedEof), Ok(None)));

    let data_eof = DecodeError::InvalidDataRead(Error::new(ErrorKind::UnexpectedEof, "short"));
    assert!(matches!(classify_read(Err(data_eof), mrpc::IoErrorKind::UnexpectedEof), Ok(None)));

    let broken = DecodeError::InvalidDataRead(Error::new(ErrorKind::InvalidData, "bad"));
    assert!(matches!(
        classify_read(Err(broken), mrpc::IoErrorKind::Other),
        Err(RpcError::Deserialization(DecodeError::InvalidDataRead(_)))
    ));

    match classify_read(Err(DecodeError::DepthLimitExceeded), mrpc::IoErrorKind::Other) {
        Err(RpcError::Protocol(ProtocolError::DepthLimitExceeded)) => {}
        other => panic!("expected a depth error, got {other:?}"),
    }

    let m = Message::Request(Request { id: 1, method: "m".to_string(), params: vec![] });
    match classify_read(Ok((m.to_value(), 12)), mrpc::IoErrorKind::Other) {
        Ok(Some((decoded, 12))) => assert_eq!(decoded, m),
        other => panic!("expected a message, got {other:?}"),
    }

    assert!(matches!(classify_read(Ok((Value::Nil, 1)), mrpc::IoErrorKind::Other), Err(RpcError::Protocol(_))));
    let other = DecodeError::InvalidMarkerRead(Error::new(ErrorKind::Other, "x"));
    assert!(matches!(classify_read(Err(other), mrpc::IoErrorKind::UnexpectedEof), Ok(None)));
    let eof = DecodeError::InvalidMarkerRead(Error::new(ErrorKind::UnexpectedEof, "x"));
    assert!(matches!(classify_read(Err(eof), mrpc::IoErrorKind::Other), Err(RpcError::Deserialization(_))));
}

#[test]
fn the_reader_delivers_waits_or_finishes() {
    let m = Message::Request(Request { id: 1, method: "m".to_string(), params: vec![] });
    match reader_step(false, Ok(Some((m.clone(), 8)))) {
        ReaderAction::Deliver { message, consumed: 8 } => assert_eq!(message, m),
        _ => panic!("expected a delivery"),
    }
    assert!(matches!(reader_step(false, Ok(None)), ReaderAction::ReadMore));
    assert!(matches!(
        reader_step(true, Ok(None)),
        ReaderAction::Finish(RpcError::Disconnect { source: None })
    ));
    assert!(matches!(
        reader_step(true, Err(RpcError::Protocol(ProtocolError::DepthLimitExceeded))),
        ReaderAction::Finish(RpcError::Protocol(ProtocolError::DepthLimitExceeded))
    ));
}

#[test]
fn reads_report_the_end_of_the_stream() {
    assert!(matches!(read_progress(Ok(0)), ReadProgress::Eof));
    assert!(matches!(read_progress(Ok(10)), ReadProgress::Data));
    assert!(matches!(
        read_progress(Err(Error::new(ErrorKind::ConnectionReset, "reset"))),
        ReadProgress::Failed(RpcError::Disconnect { source: Some(_) })
    ));
    assert!(matches!(
        read_progress(Err(Error::new(ErrorKind::Other, "x"))),
        ReadProgress::Failed(RpcError::Io(_))
    ));
}

#[test]
fn the_handler_dispatches_and_stops() {
    let m = Message::Request(Request { id: 1, method: "m".to_string(), params: vec![] });
    match handler_step(false, HandlerEvent::Incoming(Some(Ok(m.clone())))) {
        (false, HandlerAction::Dispatch(d)) => assert_eq!(d, m),
        _ => panic!("expected a dispatch"),
    }
    assert!(matches!(handler_step(true, HandlerEvent::Incoming(None)), (true, HandlerAction::Stop(Ok(())))));
    assert!(matches!(
        handler_step(false, HandlerEvent::Incoming(Some(Err(RpcError::Disconnect { source: None })))),
        (false, HandlerAction::Stop(Err(RpcError::Disconnect { .. })))
    ));
    assert!(matches!(handler_step(false, HandlerEvent::Connected(Ok(Ok(())))), (true, HandlerAction::Continue)));
    assert!(matches!(
        handler_step(false, HandlerEvent::Connected(Ok(Err(RpcError::Disconnect { source: None })))),
        (true, HandlerAction::Stop(Err(RpcError::Disconnect { .. })))
    ));
    match handler_step(false, HandlerEvent::Connected(Err(cancelled_join_error()))) {
        (true, HandlerAction::Stop(Err(RpcError::Protocol(ProtocolError::MalformedMessage(s))))) => {
            assert_eq!(s, "Connected task failed")
        }
        _ => panic!("expected a stop"),
    }
    assert!(matches!(
        handler_step(true, HandlerEvent::MessageHandled(Err(cancelled_join_error()))),
        (true, HandlerAction::Continue)
    ));
    assert!(matches!(handler_step(true, HandlerEvent::MessageHandled(Ok(()))), (true, HandlerAction::Continue)));
    assert!(matches!(handler_step(false, HandlerEvent::Idle), (false, HandlerAction::Stop(Ok(())))));
}

#[test]
fn unimplemented_methods_are_named() {
    match method_not_implemented("frobnicate") {
        RpcError::Protocol(ProtocolError::MalformedMessage(s)) => {
            assert_eq!(s, "Method 'frobnicate' not implemented")
        }
        other => panic!("unexpected {other:?}"),
    }
}

fn encoded(m: &Message) -> Vec<u8> {
    let mut bytes = Vec::new();
    rmpv::encode::write_value(&mut bytes, &mrpc::value_to_pack(&m.to_value())).unwrap();
    bytes
}

#[test]
fn a_buffer_yields_its_messages_in_order() {
    let first = Message::Request(Request { id: 1, method: "add".to_string(), params: vec![Value::from(2u64)] });
    let second = Message::Response(Response { id: 7, result: Err(Value::from("bad")) });
    let mut buffer = encoded(&first);
    let first_len = buffer.len();
    buffer.extend(encoded(&second));

    match try_decode_message(&buffer) {
        Ok(Some((m, n))) => {
            assert_eq!(m, first);
            assert_eq!(n, first_len);
        }
        other => panic!("expected the first message, got {other:?}"),
    }
    match try_decode_message(&buffer[first_len..]) {
        Ok(Some((m, n))) => {
            assert_eq!(m, second);
            assert_eq!(n, buffer.len() - first_len);
        }
        other => panic!("expected the second message, got {other:?}"),
    }
}

#[test]
fn a_partial_buffer_waits_for_more_bytes() {
    let m = Message::Notification(mrpc::Notification { method: "tick".to_string(), params: vec![] });
    let bytes = encoded(&m);
    for cut in 0..bytes.len() {
        assert!(matches!(try_decode_message(&bytes[..cut]), Ok(None)), "cut at {cut}");
    }
}

#[test]
fn a_buffer_nested_too_deep_is_refused() {
    let mut bytes = vec![0x91u8; 2000];
    bytes.push(0xc0);
    assert!(matches!(
        try_decode_message(&bytes),
        Err(RpcError::Protocol(ProtocolError::DepthLimitExceeded))
    ));
}

#[test]
fn a_buffer_holding_no_message_is_refused() {
    let mut bytes = Vec::new();
    rmpv::encode::write_value(&mut bytes, &rmpv::Value::from(5)).unwrap();
    assert!(matches!(try_decode_message(&bytes), Err(RpcError::Protocol(ProtocolError::MalformedMessage(_)))));
}

fn delivered(action: ReaderAction) -> Message {
    match action {
        ReaderAction::Deliver { message, .. } => message,
        ReaderAction::ReadMore => panic!("expected a message, got ReadMore"),
        ReaderAction::Finish(e) => panic!("expected a message, got {}", e.display_text()),
    }
}

#[test]
fn read_buffer_hands_on_messages_in_order_across_reads() {
    let first = Message::Request(Request { id: 1, method: "a".to_string(), params: vec![] });
    let second = Message::Notification(Notification { method: "b".to_string(), params: vec![Value::Nil] });
    let third = Message::Response(Response { id: 1, result: Ok(Value::from(5i64)) });
    let mut bytes = encoded(&first);
    bytes.extend(encoded(&second));
    bytes.extend(encoded(&third));
    let cut = bytes.len() - 2;

    let mut buffer = ReadBuffer::new();
    assert!(matches!(buffer.next_action(), ReaderAction::ReadMore));
    buffer.extend(&bytes[..3]);
    assert!(matches!(buffer.next_action(), ReaderAction::ReadMore));
    buffer.extend(&bytes[3..cut]);
    assert_eq!(delivered(buffer.next_action()), first);
    assert_eq!(delivered(buffer.next_action()), second);
    assert!(matches!(buffer.next_action(), ReaderAction::ReadMore));
    buffer.extend(&bytes[cut..]);
    assert_eq!(delivered(buffer.next_action()), third);
    assert!(matches!(buffer.next_action(), ReaderAction::ReadMore));
    buffer.mark_eof();
    assert!(matches!(
        buffer.next_action(),
        ReaderAction::Finish(RpcError::Disconnect { source: None })
    ));
}

#[test]
fn read_buffer_ends_on_trailing_bytes_at_eof_and_stops_on_a_bad_message() {
    let mut buffer = ReadBuffer::new();
    buffer.extend(&encoded(&Message::Request(Request { id: 9, method: "m".to_string(), params: vec![] }))[..2]);
    buffer.mark_eof();
    assert!(matches!(
        buffer.next_action(),
        ReaderAction::Finish(RpcError::Disconnect { source: None })
    ));

    let mut buffer = ReadBuffer::new();
    buffer.extend(&[0x91, 0x07]);
    match buffer.next_action() {
        ReaderAction::Finish(RpcError::Protocol(ProtocolError::InvalidMessageType(7))) => {}
        ReaderAction::Finish(e) => panic!("unexpected error {}", e.display_text()),
        _ => panic!("expected the reader to stop"),
    }
}

#[test]
fn a_string_cut_inside_its_body_waits_for_more_bytes() {
    let mut bytes = Vec::new();
    rmpv::encode::write_value(&mut bytes, &rmpv::Value::from("hello")).unwrap();
    assert!(matches!(try_decode_message(&bytes[..2]), Ok(None)));
    let mut message = encoded(&Message::Request(Request {
        id: 3,
        method: "a longer method name".to_string(),
        params: vec![Value::Binary(vec![1, 2, 3, 4, 5, 6])],
    }));
    let whole = message.len();
    for cut in 0..whole {
        assert!(matches!(try_decode_message(&message[..cut]), Ok(None)), "cut at {cut}");
    }
    message.truncate(whole - 1);
    let mut buffer = ReadBuffer::new();
    buffer.extend(&message);
    assert!(matches!(buffer.next_action(), ReaderAction::ReadMore));
}

#[test]
fn read_buffer_stops_on_a_value_nested_too_deep() {
    let mut bytes = vec![0x91u8; 2000];
    bytes.push(0xc0);
    let mut buffer = ReadBuffer::new();
    buffer.extend(&bytes);
    assert!(matches!(
        buffer.next_action(),
        ReaderAction::Finish(RpcError::Protocol(ProtocolError::DepthLimitExceeded))
    ));
}

#[test]
fn request_payloads_are_written_as_tagged_variants() {
    assert_eq!(mrpc::request_payload("ping", vec![]), Value::from("ping"));
    assert_eq!(
        mrpc::request_payload("greet", vec![Value::from("ada")]),
        Value::Mapping(vec![(Value::from("greet"), Value::from("ada"))])
    );
    assert_eq!(
        mrpc::request_payload("add", vec![Value::from(2i64), Value::from(3i64)]),
        Value::Mapping(vec![(
            Value::from("add"),
            Value::Array(vec![Value::from(2i64), Value::from(3i64)])
        )])
    );
}

#[test]
fn an_unknown_method_is_a_method_not_found_service_error() {
    match mrpc::method_not_found("missing") {
        RpcError::Service(service) => {
            assert_eq!(service.name, "MethodNotFound");
            assert_eq!(service.value, Value::from("missing"));
        }
        other => panic!("expected a service error, got {}", other.display_text()),
    }
}

#[derive(Default, Debug, PartialEq)]
struct CountingService(u8);

#[test]
fn a_default_service_type_is_its_own_factory() {
    let maker = CountingService(7);
    assert_eq!(maker.make_connection(), CountingService(0));
}

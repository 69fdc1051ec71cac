//! MessagePack-RPC messages (requests, responses and notifications) and their
//! framing as MessagePack values.
use vstd::prelude::*;

use crate::codec::{
    PackRead, canonical, cut_short, decoded_prefix, encode_value, encoded_bytes,
    lemma_array_survives_wire, lemma_read_value_not_cut_short, read_depth_limit, read_pack_value,
    read_runs_out, readback, survives_wire, value_from_pack, wire_fits,
};
use crate::error::{DecodeError, IoErrorKind, ProtocolError, RpcError, io_error_rpc, is_malformed};
use crate::text::concat3;
use crate::value::{Integer, Utf8String, Value, ValueModel, lemma_seq_model, seq_model};

verus! {

/// Message type identifier for requests.
pub const REQUEST_MESSAGE: u64 = 0;

/// Message type identifier for responses.
pub const RESPONSE_MESSAGE: u64 = 1;

/// Message type identifier for notifications.
pub const NOTIFICATION_MESSAGE: u64 = 2;

/// An RPC request message containing an ID, method name, and parameters.
#[derive(Debug, PartialEq)]
pub struct Request {
    /// Unique identifier for matching responses.
    pub id: u32,
    /// The method name to invoke.
    pub method: String,
    /// Arguments to pass to the method.
    pub params: Vec<Value>,
}

/// An RPC response message containing an ID and either a result or an error.
#[derive(Debug, PartialEq)]
pub struct Response {
    /// Matches the request ID this is responding to.
    pub id: u32,
    /// The result value or error value.
    pub result: Result<Value, Value>,
}

/// An RPC notification message containing a method name and parameters.
#[derive(Debug, PartialEq)]
pub struct Notification {
    /// The method name to invoke.
    pub method: String,
    /// Arguments to pass to the method.
    pub params: Vec<Value>,
}

/// The different types of RPC messages: requests, responses, and notifications.
#[derive(Debug, PartialEq)]
pub enum Message {
    /// An RPC request.
    Request(Request),
    /// An RPC response.
    Response(Response),
    /// An RPC notification.
    Notification(Notification),
}

/// The mathematical content of a [`Message`].
pub enum MessageModel {
    Request { id: u32, method: Seq<char>, params: Seq<ValueModel> },
    Response { id: u32, result: Result<ValueModel, ValueModel> },
    Notification { method: Seq<char>, params: Seq<ValueModel> },
}

/// The model of a response result.
pub open spec fn result_model(r: Result<Value, Value>) -> Result<ValueModel, ValueModel> {
    match r {
        Ok(v) => Ok(v@),
        Err(e) => Err(e@),
    }
}

impl View for Request {
    type V = MessageModel;

    open spec fn view(&self) -> MessageModel {
        MessageModel::Request { id: self.id, method: self.method@, params: seq_model(self.params@) }
    }
}

impl View for Response {
    type V = MessageModel;

    open spec fn view(&self) -> MessageModel {
        MessageModel::Response { id: self.id, result: result_model(self.result) }
    }
}

impl View for Notification {
    type V = MessageModel;

    open spec fn view(&self) -> MessageModel {
        MessageModel::Notification { method: self.method@, params: seq_model(self.params@) }
    }
}

impl View for Message {
    type V = MessageModel;

    open spec fn view(&self) -> MessageModel {
        match self {
            Message::Request(r) => r@,
            Message::Response(r) => r@,
            Message::Notification(n) => n@,
        }
    }
}

/// Every value a message carries comes back from the wire as it was.
pub open spec fn message_survives_wire(m: MessageModel) -> bool {
    match m {
        MessageModel::Request { params, .. } => forall|i: int|
            0 <= i < params.len() ==> #[trigger] survives_wire(params[i]),
        MessageModel::Response { result, .. } => match result {
            Ok(v) => survives_wire(v),
            Err(e) => survives_wire(e),
        },
        MessageModel::Notification { params, .. } => forall|i: int|
            0 <= i < params.len() ==> #[trigger] survives_wire(params[i]),
    }
}

/// Encoding a message and reading its bytes back gives the message again: what
/// `rmpv` reads back from the bytes [`Message::encode`] writes frames the
/// message, when every value it carries comes back from the wire as it was and
/// it is not a response whose error is `Nil`.
pub proof fn lemma_message_wire_round_trip(m: MessageModel)
    requires
        survives_framing(m),
        message_survives_wire(m),
    ensures
        parse_message_model(readback(canonical(message_value_model(m)))) == Ok::<
            MessageModel,
            WireError,
        >(m),
{
    let items = message_value_model(m)->Array_0;
    match m {
        MessageModel::Request { params, .. } => {
            lemma_array_survives_wire(params);
        },
        MessageModel::Notification { params, .. } => {
            lemma_array_survives_wire(params);
        },
        MessageModel::Response { .. } => {},
    }
    assert forall|i: int| 0 <= i < items.len() implies #[trigger] survives_wire(items[i]) by {}
    lemma_array_survives_wire(items);
    lemma_message_round_trip(m);
}

/// An integer value holding `n`.
pub open spec fn uint_model(n: u64) -> ValueModel {
    ValueModel::Integer(Integer::PosInt(n))
}

/// The MessagePack-RPC value of a message: `[0, id, method, params]` for a
/// request, `[1, id, error, result]` for a response (with `Nil` in the unused
/// slot) and `[2, method, params]` for a notification.
pub open spec fn message_value_model(m: MessageModel) -> ValueModel {
    match m {
        MessageModel::Request { id, method, params } => ValueModel::Array(
            seq![
                uint_model(REQUEST_MESSAGE),
                uint_model(id as u64),
                ValueModel::Str(method),
                ValueModel::Array(params),
            ],
        ),
        MessageModel::Response { id, result } => {
            let (error, value) = match result {
                Ok(v) => (ValueModel::Nil, v),
                Err(e) => (e, ValueModel::Nil),
            };
            ValueModel::Array(seq![uint_model(RESPONSE_MESSAGE), uint_model(id as u64), error, value])
        },
        MessageModel::Notification { method, params } => ValueModel::Array(
            seq![uint_model(NOTIFICATION_MESSAGE), ValueModel::Str(method), ValueModel::Array(params)],
        ),
    }
}

/// The wire layout of each message, whatever it carries: a request is the
/// four-element array `[0, id, method, params]` with all its parameters in the
/// last slot (an empty array when there are none); a response is the
/// four-element array `[1, id, error, result]` with `Nil` in the slot it does
/// not use; a notification is the three-element array `[2, method, params]`.
pub proof fn lemma_message_value_layout(m: MessageModel)
    ensures
        m matches MessageModel::Request { id, method, params } ==> message_value_model(m)
            == ValueModel::Array(
            seq![
                ValueModel::Integer(Integer::PosInt(0)),
                ValueModel::Integer(Integer::PosInt(id as u64)),
                ValueModel::Str(method),
                ValueModel::Array(params),
            ],
        ),
        m matches MessageModel::Response { id, result: Ok(v) } ==> message_value_model(m)
            == ValueModel::Array(
            seq![
                ValueModel::Integer(Integer::PosInt(1)),
                ValueModel::Integer(Integer::PosInt(id as u64)),
                ValueModel::Nil,
                v,
            ],
        ),
        m matches MessageModel::Response { id, result: Err(e) } ==> message_value_model(m)
            == ValueModel::Array(
            seq![
                ValueModel::Integer(Integer::PosInt(1)),
                ValueModel::Integer(Integer::PosInt(id as u64)),
                e,
                ValueModel::Nil,
            ],
        ),
        m matches MessageModel::Notification { method, params } ==> message_value_model(m)
            == ValueModel::Array(
            seq![
                ValueModel::Integer(Integer::PosInt(2)),
                ValueModel::Str(method),
                ValueModel::Array(params),
            ],
        ),
{
}

/// Why a value is not a MessagePack-RPC message.
pub enum WireError {
    /// The value is malformed; the text says how.
    Malformed(Seq<char>),
    /// The type tag is an integer other than the three known ones.
    InvalidMessageType(u64),
}

/// `true` when `e` is the error that reports `we`.
pub open spec fn reports(e: RpcError, we: WireError) -> bool {
    match we {
        WireError::Malformed(text) => is_malformed(e, text),
        WireError::InvalidMessageType(t) => e matches RpcError::Protocol(
            ProtocolError::InvalidMessageType(u),
        ) && u == t,
    }
}

/// Reads a message id: an integer that fits in `u32`.
pub open spec fn parse_id_model(v: ValueModel, context: Seq<char>) -> Result<u32, WireError> {
    match v.spec_as_u64() {
        Some(n) => if n <= u32::MAX {
            Ok(n as u32)
        } else {
            Err(WireError::Malformed("Invalid "@ + context + " id"@))
        },
        None => Err(WireError::Malformed("Invalid "@ + context + " id"@)),
    }
}

/// Reads a method name: a well-formed string.
pub open spec fn parse_method_model(v: ValueModel, context: Seq<char>) -> Result<Seq<char>, WireError> {
    match v.spec_as_str() {
        Some(s) => Ok(s),
        None => Err(WireError::Malformed("Invalid "@ + context + " method"@)),
    }
}

/// Reads a parameter list: an array.
pub open spec fn parse_params_model(v: ValueModel, context: Seq<char>) -> Result<Seq<ValueModel>, WireError> {
    match v {
        ValueModel::Array(params) => Ok(params),
        _ => Err(WireError::Malformed("Invalid "@ + context + " params"@)),
    }
}

/// Reads the fields after the tag of a request: `[id, method, params]`.
pub open spec fn parse_request_model(fields: Seq<ValueModel>) -> Result<MessageModel, WireError> {
    if fields.len() != 3 {
        Err(WireError::Malformed("Invalid request message length"@))
    } else {
        match parse_id_model(fields[0], "request"@) {
            Err(e) => Err(e),
            Ok(id) => match parse_method_model(fields[1], "request"@) {
                Err(e) => Err(e),
                Ok(method) => match parse_params_model(fields[2], "request"@) {
                    Err(e) => Err(e),
                    Ok(params) => Ok(MessageModel::Request { id, method, params }),
                },
            },
        }
    }
}

/// Reads the fields after the tag of a response: `[id, error, result]`; a `Nil`
/// error means success.
pub open spec fn parse_response_model(fields: Seq<ValueModel>) -> Result<MessageModel, WireError> {
    if fields.len() != 3 {
        Err(WireError::Malformed("Invalid response message length"@))
    } else {
        match parse_id_model(fields[0], "response"@) {
            Err(e) => Err(e),
            Ok(id) => Ok(
                MessageModel::Response {
                    id,
                    result: if fields[1] is Nil {
                        Ok(fields[2])
                    } else {
                        Err(fields[1])
                    },
                },
            ),
        }
    }
}

/// Reads the fields after the tag of a notification: `[method, params]`.
pub open spec fn parse_notification_model(fields: Seq<ValueModel>) -> Result<MessageModel, WireError> {
    if fields.len() != 2 {
        Err(WireError::Malformed("Invalid notification message length"@))
    } else {
        match parse_method_model(fields[0], "notification"@) {
            Err(e) => Err(e),
            Ok(method) => match parse_params_model(fields[1], "notification"@) {
                Err(e) => Err(e),
                Ok(params) => Ok(MessageModel::Notification { method, params }),
            },
        }
    }
}

/// Reads a message from a MessagePack-RPC value.
pub open spec fn parse_message_model(v: ValueModel) -> Result<MessageModel, WireError> {
    match v {
        ValueModel::Array(items) => if items.len() == 0 {
            Err(WireError::Malformed("Empty message array"@))
        } else {
            match items[0].spec_as_u64() {
                None => Err(WireError::Malformed("Invalid message type"@)),
                Some(t) => if t == REQUEST_MESSAGE {
                    parse_request_model(items.drop_first())
                } else if t == RESPONSE_MESSAGE {
                    parse_response_model(items.drop_first())
                } else if t == NOTIFICATION_MESSAGE {
                    parse_notification_model(items.drop_first())
                } else {
                    Err(WireError::InvalidMessageType(t))
                },
            }
        },
        _ => Err(WireError::Malformed("Invalid message format"@)),
    }
}

/// A message that its value gives back: every message but a response whose
/// error value is `Nil`, which reads back as a successful response.
pub open spec fn survives_framing(m: MessageModel) -> bool {
    m matches MessageModel::Response { result: Err(e), .. } ==> !(e is Nil)
}

/// Framing a message as a value and reading it back gives the message again.
pub proof fn lemma_message_round_trip(m: MessageModel)
    requires
        survives_framing(m),
    ensures
        parse_message_model(message_value_model(m)) == Ok::<MessageModel, WireError>(m),
{
    match m {
        MessageModel::Request { id, method, params } => {
            let items = message_value_model(m)->Array_0;
            assert(items.drop_first() =~= seq![
                uint_model(id as u64),
                ValueModel::Str(method),
                ValueModel::Array(params),
            ]);
        },
        MessageModel::Response { id, result } => {
            let items = message_value_model(m)->Array_0;
            assert(items.drop_first() =~= seq![items[1], items[2], items[3]]);
        },
        MessageModel::Notification { method, params } => {
            let items = message_value_model(m)->Array_0;
            assert(items.drop_first() =~= seq![ValueModel::Str(method), ValueModel::Array(params)]);
        },
    }
}


/// An integer value holding `n`.
fn uint_value(n: u64) -> (v: Value)
    ensures
        v@ == uint_model(n),
{
    Value::Integer(Integer::PosInt(n))
}

/// Copies a vector of values.
fn clone_params(params: &Vec<Value>) -> (r: Vec<Value>)
    ensures
        seq_model(r@) == seq_model(params@),
{
    let r = params.clone();
    proof {
        lemma_seq_model(params@);
        lemma_seq_model(r@);
        assert forall|i: int| 0 <= i < r@.len() implies #[trigger] r@[i]@ == params@[i]@ by {
            assert(cloned::<Value>(params[i], r[i]));
        }
        assert(seq_model(r@) =~= seq_model(params@));
    }
    r
}

/// `true` when an executable outcome matches a modelled one: equal successes,
/// or an error that reports the modelled failure.
pub open spec fn outcome_matches<T>(r: Result<T, RpcError>, m: Result<T, WireError>) -> bool {
    match (r, m) {
        (Ok(a), Ok(b)) => a == b,
        (Err(e), Err(we)) => reports(e, we),
        _ => false,
    }
}

/// `true` when a parsed message matches a modelled parse.
pub open spec fn message_outcome_matches(
    r: Result<Message, RpcError>,
    m: Result<MessageModel, WireError>,
) -> bool {
    match (r, m) {
        (Ok(a), Ok(b)) => a@ == b,
        (Err(e), Err(we)) => reports(e, we),
        _ => false,
    }
}

/// A protocol error reporting a malformed message.
fn malformed(text: &str) -> (e: RpcError)
    ensures
        is_malformed(e, text@),
{
    RpcError::Protocol(ProtocolError::from(text))
}

/// A protocol error reporting a malformed message, with text `prefix context suffix`.
fn malformed_in(prefix: &str, context: &str, suffix: &str) -> (e: RpcError)
    ensures
        is_malformed(e, prefix@ + context@ + suffix@),
{
    RpcError::Protocol(ProtocolError::MalformedMessage(concat3(prefix, context, suffix)))
}

/// Parses a wire message id and rejects values outside the `u32` range.
fn parse_message_id(value: &Value, context: &str) -> (r: Result<u32, RpcError>)
    ensures
        outcome_matches(r, parse_id_model(value@, context@)),
{
    match value.as_u64() {
        Some(raw_id) => if raw_id <= 0xffff_ffffu64 {
            Ok(raw_id as u32)
        } else {
            Err(malformed_in("Invalid ", context, " id"))
        },
        None => Err(malformed_in("Invalid ", context, " id")),
    }
}

/// Parses a method name field from a request or notification.
fn parse_method_name(value: &Value, context: &str) -> (r: Result<String, RpcError>)
    ensures
        match (r, parse_method_model(value@, context@)) {
            (Ok(a), Ok(b)) => a@ == b,
            (Err(e), Err(we)) => reports(e, we),
            _ => false,
        },
{
    match value.as_str() {
        Some(s) => Ok(s.to_string()),
        None => Err(malformed_in("Invalid ", context, " method")),
    }
}

/// Parses a parameter list field from a request or notification.
fn parse_params(value: &Value, context: &str) -> (r: Result<Vec<Value>, RpcError>)
    ensures
        match (r, parse_params_model(value@, context@)) {
            (Ok(a), Ok(b)) => seq_model(a@) == b,
            (Err(e), Err(we)) => reports(e, we),
            _ => false,
        },
{
    match value {
        Value::Array(params) => Ok(clone_params(params)),
        _ => Err(malformed_in("Invalid ", context, " params")),
    }
}

/// Parses a request from a message array whose first element is the tag.
fn parse_request(array: &Vec<Value>) -> (r: Result<Message, RpcError>)
    requires
        array.len() >= 1,
    ensures
        message_outcome_matches(r, parse_request_model(seq_model(array@).drop_first())),
{
    proof {
        lemma_seq_model(array@);
    }
    if array.len() != 4 {
        return Err(malformed("Invalid request message length"));
    }
    let id = match parse_message_id(&array[1], "request") {
        Ok(id) => id,
        Err(e) => return Err(e),
    };
    let method = match parse_method_name(&array[2], "request") {
        Ok(m) => m,
        Err(e) => return Err(e),
    };
    let params = match parse_params(&array[3], "request") {
        Ok(p) => p,
        Err(e) => return Err(e),
    };
    Ok(Message::Request(Request { id, method, params }))
}

/// Parses a response from a message array whose first element is the tag.
fn parse_response(array: &Vec<Value>) -> (r: Result<Message, RpcError>)
    requires
        array.len() >= 1,
    ensures
        message_outcome_matches(r, parse_response_model(seq_model(array@).drop_first())),
{
    proof {
        lemma_seq_model(array@);
    }
    if array.len() != 4 {
        return Err(malformed("Invalid response message length"));
    }
    let result = if array[2].is_nil() {
        Ok(array[3].clone())
    } else {
        Err(array[2].clone())
    };
    let id = match parse_message_id(&array[1], "response") {
        Ok(id) => id,
        Err(e) => return Err(e),
    };
    Ok(Message::Response(Response { id, result }))
}

/// Parses a notification from a message array whose first element is the tag.
fn parse_notification(array: &Vec<Value>) -> (r: Result<Message, RpcError>)
    requires
        array.len() >= 1,
    ensures
        message_outcome_matches(r, parse_notification_model(seq_model(array@).drop_first())),
{
    proof {
        lemma_seq_model(array@);
    }
    if array.len() != 3 {
        return Err(malformed("Invalid notification message length"));
    }
    let method = match parse_method_name(&array[1], "notification") {
        Ok(m) => m,
        Err(e) => return Err(e),
    };
    let params = match parse_params(&array[2], "notification") {
        Ok(p) => p,
        Err(e) => return Err(e),
    };
    Ok(Message::Notification(Notification { method, params }))
}

impl Message {
    /// Reads a message from its MessagePack-RPC value.
    ///
    /// Fails with a protocol error when the value is not an array, is empty, has a
    /// tag that is not an unsigned integer, or has fields of the wrong number or kind;
    /// an unknown integer tag gives `InvalidMessageType`.
    pub fn from_value(value: Value) -> (r: Result<Message, RpcError>)
        ensures
            message_outcome_matches(r, parse_message_model(value@)),
    {
        match value {
            Value::Array(array) => {
                proof {
                    lemma_seq_model(array@);
                }
                if array.len() == 0 {
                    return Err(malformed("Empty message array"));
                }
                let message_type = match array[0].as_u64() {
                    Some(t) => t,
                    None => return Err(malformed("Invalid message type")),
                };
                if message_type == REQUEST_MESSAGE {
                    parse_request(&array)
                } else if message_type == RESPONSE_MESSAGE {
                    parse_response(&array)
                } else if message_type == NOTIFICATION_MESSAGE {
                    parse_notification(&array)
                } else {
                    Err(RpcError::Protocol(ProtocolError::InvalidMessageType(message_type)))
                }
            },
            _ => Err(malformed("Invalid message format")),
        }
    }

    /// Reads a message from the outcome of reading one MessagePack value.
    ///
    /// A value read is parsed as by [`Message::from_value`]; an I/O failure is
    /// classified as by `RpcError::from`; a value nested too deep gives
    /// `DepthLimitExceeded`.
    pub fn from_read(read: Result<Value, DecodeError>) -> (r: Result<Message, RpcError>)
        ensures
            match read {
                Ok(v) => message_outcome_matches(r, parse_message_model(v@)),
                Err(DecodeError::InvalidMarkerRead(e)) => r == Err::<Message, RpcError>(io_error_rpc(e)),
                Err(DecodeError::InvalidDataRead(e)) => r == Err::<Message, RpcError>(io_error_rpc(e)),
                Err(DecodeError::DepthLimitExceeded) => r == Err::<Message, RpcError>(
                    RpcError::Protocol(ProtocolError::DepthLimitExceeded),
                ),
            },
    {
        match read {
            Ok(value) => Message::from_value(value),
            Err(DecodeError::InvalidMarkerRead(e)) => Err(RpcError::from(e)),
            Err(DecodeError::InvalidDataRead(e)) => Err(RpcError::from(e)),
            Err(DecodeError::DepthLimitExceeded) => Err(RpcError::Protocol(ProtocolError::DepthLimitExceeded)),
        }
    }

    /// Encodes the message to MessagePack format, appending its bytes to `buffer`.
    ///
    /// When the message fits the wire, `rmpv` reads the bytes back, whatever
    /// follows them, as [`readback`] of the message's value, taking exactly them
    /// (see [`lemma_message_wire_round_trip`] for what that value frames).
    pub fn encode(&self, buffer: &mut Vec<u8>) -> (r: Result<(), RpcError>)
        ensures
            r is Ok,
            final(buffer)@ == old(buffer)@ + encoded_bytes(canonical(message_value_model(self@))),
            wire_fits(canonical(message_value_model(self@)), read_depth_limit()) ==> forall|
                rest: Seq<u8>,
            | #[trigger]
                decoded_prefix(final(buffer)@.skip(old(buffer)@.len() as int) + rest) == Some(
                    (
                        readback(canonical(message_value_model(self@))),
                        encoded_bytes(canonical(message_value_model(self@))).len() as usize,
                    ),
                ),
    {
        encode_value(&self.to_value(), buffer);
        Ok(())
    }

    /// Decodes one message from the start of `bytes`, with the count of bytes
    /// that its MessagePack value took. A read that runs out of input (as on
    /// bytes that only start a value) reports a disconnect; any other failed
    /// read is a value nested too deep.
    pub fn decode(bytes: &[u8]) -> (r: Result<(Message, usize), RpcError>)
        ensures
            match decoded_prefix(bytes@) {
                Some((vm, n)) => match (r, parse_message_model(vm)) {
                    (Ok((m, k)), Ok(mm)) => k == n && k <= bytes@.len() && m@ == mm,
                    (Err(e), Err(we)) => reports(e, we),
                    _ => false,
                },
                None => if read_runs_out(bytes@) {
                    r matches Err(RpcError::Disconnect { source: Some(_) })
                } else {
                    r == Err::<(Message, usize), RpcError>(
                        RpcError::Protocol(ProtocolError::DepthLimitExceeded),
                    )
                },
            },
            cut_short(bytes@) ==> r matches Err(RpcError::Disconnect { source: Some(_) }),
    {
        match read_pack_value(bytes) {
            PackRead::Read(packed, consumed) => {
                proof {
                    lemma_read_value_not_cut_short(bytes@);
                }
                match Message::from_value(value_from_pack(packed)) {
                    Ok(message) => Ok((message, consumed)),
                    Err(e) => Err(e),
                }
            },
            PackRead::OutOfInput(DecodeError::InvalidMarkerRead(e)) => Err(
                RpcError::from_io_error_kind(e, IoErrorKind::UnexpectedEof),
            ),
            PackRead::OutOfInput(DecodeError::InvalidDataRead(e)) => Err(
                RpcError::from_io_error_kind(e, IoErrorKind::UnexpectedEof),
            ),
            PackRead::Failed(DecodeError::InvalidMarkerRead(e)) => Err(RpcError::from(e)),
            PackRead::Failed(DecodeError::InvalidDataRead(e)) => Err(RpcError::from(e)),
            PackRead::OutOfInput(DecodeError::DepthLimitExceeded) | PackRead::Failed(
                DecodeError::DepthLimitExceeded,
            ) => Err(RpcError::Protocol(ProtocolError::DepthLimitExceeded)),
        }
    }

    /// Converts the message to its MessagePack-RPC value.
    pub fn to_value(&self) -> (v: Value)
        ensures
            v@ == message_value_model(self@),
            self matches Message::Request(r) ==> (v@ matches ValueModel::Array(items) && items.len()
                == 4 && items[3] == ValueModel::Array(seq_model(r.params@))),
    {
        proof {
            lemma_message_value_layout(self@);
        }
        let mut items: Vec<Value> = Vec::new();
        match self {
            Message::Request(req) => {
                items.push(uint_value(REQUEST_MESSAGE));
                items.push(uint_value(req.id as u64));
                items.push(Value::String(Utf8String::Valid(req.method.clone())));
                items.push(Value::Array(clone_params(&req.params)));
            },
            Message::Response(resp) => {
                items.push(uint_value(RESPONSE_MESSAGE));
                items.push(uint_value(resp.id as u64));
                match &resp.result {
                    Ok(value) => {
                        items.push(Value::Nil);
                        items.push(value.clone());
                    },
                    Err(error) => {
                        items.push(error.clone());
                        items.push(Value::Nil);
                    },
                }
            },
            Message::Notification(notif) => {
                items.push(uint_value(NOTIFICATION_MESSAGE));
                items.push(Value::String(Utf8String::Valid(notif.method.clone())));
                items.push(Value::Array(clone_params(&notif.params)));
            },
        }
        proof {
            lemma_seq_model(items@);
            assert(seq_model(items@) =~= message_value_model(self@)->Array_0);
        }
        Value::Array(items)
    }
}


impl Clone for Request {
    fn clone(&self) -> (r: Request)
        ensures
            r@ == self@,
    {
        Request { id: self.id, method: self.method.clone(), params: clone_params(&self.params) }
    }
}

impl Clone for Response {
    fn clone(&self) -> (r: Response)
        ensures
            r@ == self@,
    {
        let result = match &self.result {
            Ok(v) => Ok(v.clone()),
            Err(e) => Err(e.clone()),
        };
        Response { id: self.id, result }
    }
}

impl Clone for Notification {
    fn clone(&self) -> (r: Notification)
        ensures
            r@ == self@,
    {
        Notification { method: self.method.clone(), params: clone_params(&self.params) }
    }
}

impl Clone for Message {
    fn clone(&self) -> (r: Message)
        ensures
            r@ == self@,
    {
        match self {
            Message::Request(r) => Message::Request(r.clone()),
            Message::Response(r) => Message::Response(r.clone()),
            Message::Notification(n) => Message::Notification(n.clone()),
        }
    }
}

} // verus!

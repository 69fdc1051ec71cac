//! The protocol state of one RPC connection: request ids, the waiters of
//! pending requests, the routing of responses, and the single-use receiver of
//! incoming messages. The stream itself is driven by the caller.
use std::collections::HashMap;

use bytes::BytesMut;

use vstd::prelude::*;

use crate::codec::{
    cut_short, decoded_prefix, is_value_frame, lemma_read_value_not_cut_short,
    lemma_split_value_waits, read_runs_out, try_decode_message,
};
use crate::error::{
    DecodeError, IoErrorKind, ProtocolError, RpcError, io_error_rpc, is_malformed,
    ServiceError, remote_service_error, rpc_error_text, service_error_model,
};
use crate::message::{
    Message, MessageModel, Notification, Request, Response, WireError, parse_message_model,
    reports,
};
use crate::text::concat3;
use crate::value::{
    Utf8String, Value, ValueModel, entries_model, lemma_entries_model, lemma_seq_model, seq_model,
};

verus! {

broadcast use vstd::std_specs::hash::group_hash_axioms;

/// The protocol state of an RPC connection.
///
/// `W` is whatever waits for the response to one request (a channel sender, say);
/// `R` is the receiver of incoming messages, which can be taken once.
pub struct RpcConnection<W, R> {
    /// Receiver for incoming messages, until it is taken.
    message_receiver: Option<R>,
    /// Next request ID to use.
    next_request_id: u32,
    /// Pending requests awaiting responses.
    pending_requests: HashMap<u32, W>,
}

impl<W, R> RpcConnection<W, R> {
    /// Well-formedness: request ids start at 1, and every pending id was handed out already.
    pub closed spec fn wf(self) -> bool {
        &&& 1 <= self.next_request_id
        &&& forall|id: u32| #[trigger]
            self.pending_requests@.contains_key(id) ==> 1 <= id < self.next_request_id
    }

    /// The waiters of the pending requests, by request id.
    pub closed spec fn pending(self) -> Map<u32, W> {
        self.pending_requests@
    }

    /// The id that the next request will get.
    pub closed spec fn next_id(self) -> u32 {
        self.next_request_id
    }

    /// The receiver of incoming messages, if it has not been taken.
    pub closed spec fn receiver_slot(self) -> Option<R> {
        self.message_receiver
    }

    /// Creates the state of a fresh connection whose incoming messages arrive on `receiver`.
    pub fn new(receiver: R) -> (c: Self)
        ensures
            c.next_id() == 1,
            c.pending() == Map::<u32, W>::empty(),
            c.receiver_slot() == Some(receiver),
            c.wf(),
    {
        RpcConnection {
            message_receiver: Some(receiver),
            next_request_id: 1,
            pending_requests: HashMap::new(),
        }
    }

    /// How [`send_request`](Self::send_request) changes the state: the waiter
    /// is registered under the id the request got, the next id is one more, and
    /// the receiver is untouched.
    pub open spec fn request_sent(self, after: Self, waiter: W) -> bool {
        &&& after.wf()
        &&& after.pending() == self.pending().insert(self.next_id(), waiter)
        &&& after.next_id() == self.next_id() + 1
        &&& after.receiver_slot() == self.receiver_slot()
    }

    /// Requests get the ids 1, 2, 3, ... in the order they are sent: after `k`
    /// requests on a fresh connection, the `i`-th request (from 0) got the id
    /// `i + 1`, the next id is `k + 1`, and the pending ids are exactly `1..=k`,
    /// each with the waiter of its request.
    pub proof fn lemma_request_ids_count_up(states: Seq<Self>, waiters: Seq<W>)
        requires
            states.len() == waiters.len() + 1,
            states[0].next_id() == 1,
            states[0].pending() == Map::<u32, W>::empty(),
            forall|i: int| 0 <= i < waiters.len() ==> #[trigger] states[i].request_sent(
                states[i + 1],
                waiters[i],
            ),
        ensures
            forall|i: int| 0 <= i < states.len() ==> #[trigger] states[i].next_id() == i + 1,
            forall|id: u32| #[trigger]
                states.last().pending().contains_key(id) <==> 1 <= id <= waiters.len(),
            forall|i: int| 0 <= i < waiters.len() ==> states.last().pending()[(i + 1) as u32]
                == #[trigger] waiters[i],
        decreases waiters.len(),
    {
        let k = waiters.len() as int;
        if k == 0 {
            assert(forall|id: u32| !states.last().pending().contains_key(id));
        } else {
            let before = states.drop_last();
            Self::lemma_request_ids_count_up(before, waiters.drop_last());
            assert(before.last() == states[k - 1]);
            assert(states[k - 1].request_sent(states[k], waiters[k - 1]));
            assert forall|i: int| 0 <= i < states.len() implies #[trigger] states[i].next_id() == i + 1 by {
                if i < k {
                    assert(before[i] == states[i]);
                }
            }
            assert forall|i: int| 0 <= i < k implies states.last().pending()[(i + 1) as u32]
                == #[trigger] waiters[i] by {
                if i < k - 1 {
                    assert(waiters.drop_last()[i] == waiters[i]);
                }
            }
        }
    }

    /// Every pending id lies in `1..next_id()`, so the next id is free.
    pub proof fn lemma_ids_handed_out(self)
        requires
            self.wf(),
        ensures
            1 <= self.next_id(),
            forall|id: u32| #[trigger] self.pending().contains_key(id) ==> 1 <= id < self.next_id(),
    {
    }

    /// The id that the next request will get.
    pub fn next_request_id(&self) -> (id: u32)
        ensures
            id == self.next_id(),
    {
        self.next_request_id
    }

    /// Returns `true` while the receiver of incoming messages has not been taken.
    pub fn has_receiver(&self) -> (b: bool)
        ensures
            b == self.receiver_slot() is Some,
    {
        self.message_receiver.is_some()
    }

    /// Takes the receiver of incoming messages; it can be taken once.
    pub fn receiver(&mut self) -> (r: R)
        requires
            old(self).receiver_slot() is Some,
        ensures
            Some(r) == old(self).receiver_slot(),
            old(self).wf() ==> final(self).wf(),
            final(self).receiver_slot() is None,
            final(self).pending() == old(self).pending(),
            final(self).next_id() == old(self).next_id(),
    {
        self.message_receiver.take().unwrap()
    }

    /// Registers the waiter of a new request under the next id and returns the
    /// request message to send.
    ///
    /// The id is one that no pending request holds; ids count up from 1.
    pub fn send_request(&mut self, method: String, params: Vec<Value>, response_sender: W) -> (m: Message)
        requires
            old(self).wf(),
            old(self).next_id() < u32::MAX,
        ensures
            final(self).wf(),
            m@ == (MessageModel::Request {
                id: old(self).next_id(),
                method: method@,
                params: seq_model(params@),
            }),
            !old(self).pending().contains_key(old(self).next_id()),
            old(self).request_sent(*final(self), response_sender),
    {
        let id = self.next_request_id;
        self.next_request_id = self.next_request_id + 1;
        self.pending_requests.insert(id, response_sender);
        Message::Request(Request { id, method, params })
    }

    /// Returns the notification message to send; no state changes.
    pub fn send_notification(&self, method: String, params: Vec<Value>) -> (m: Message)
        ensures
            m@ == (MessageModel::Notification { method: method@, params: seq_model(params@) }),
    {
        Message::Notification(Notification { method, params })
    }

    /// Routes a response to the waiter of its request.
    ///
    /// When a request with the response's id is pending, its waiter is removed and
    /// returned with the outcome to hand it: the result value, or the service error
    /// that the error payload stands for. Otherwise the response is refused with
    /// `UnexpectedResponse` and nothing changes.
    pub fn handle_response(&mut self, response: Response) -> (r: Result<(W, Result<Value, RpcError>), RpcError>)
        requires
            old(self).wf(),
        ensures
            final(self).wf(),
            final(self).next_id() == old(self).next_id(),
            final(self).receiver_slot() == old(self).receiver_slot(),
            old(self).pending().contains_key(response.id) ==> {
                &&& final(self).pending() == old(self).pending().remove(response.id)
                &&& r matches Ok((w, outcome))
                &&& w == old(self).pending()[response.id]
                &&& response_outcome(outcome, response.result)
            },
            !old(self).pending().contains_key(response.id) ==> {
                &&& final(self).pending() == old(self).pending()
                &&& r matches Err(e)
                &&& e == RpcError::Protocol((ProtocolError::UnexpectedResponse { id: response.id }))
            },
    {
        let id = response.id;
        match self.pending_requests.remove(&id) {
            Some(sender) => {
                let outcome = match response.result {
                    Ok(value) => Ok(value),
                    Err(error) => Err(RpcError::from_remote_error_value(error)),
                };
                Ok((sender, outcome))
            },
            None => Err(RpcError::Protocol(ProtocolError::UnexpectedResponse { id })),
        }
    }
}

/// `true` when `outcome` is what the waiter of a request gets for a response
/// result: the value itself, or the service error that the error payload stands for.
pub open spec fn response_outcome(outcome: Result<Value, RpcError>, result: Result<Value, Value>) -> bool {
    match result {
        Ok(v) => outcome == Ok::<Value, RpcError>(v),
        Err(payload) => outcome matches Err(RpcError::Service(s)) && (s.name@, s.value@)
            == remote_service_error(payload@),
    }
}


/// A response to a request has the waiter registered with the request's id, and
/// only once: after the response the pending requests are as they were before
/// the request, so a second response with that id is refused.
pub proof fn lemma_response_reaches_its_waiter<W>(pending: Map<u32, W>, id: u32, waiter: W)
    requires
        !pending.contains_key(id),
    ensures
        pending.insert(id, waiter).contains_key(id),
        pending.insert(id, waiter)[id] == waiter,
        pending.insert(id, waiter).remove(id) == pending,
        !pending.insert(id, waiter).remove(id).contains_key(id),
{
    assert(pending.insert(id, waiter).remove(id) =~= pending);
}

/// `true` when `payload` is the error payload that answers a request whose
/// handler failed with `error`: a service error's encoding, or for any other
/// error the string "Internal error: " followed by the error's display text.
pub open spec fn error_payload(payload: ValueModel, error: RpcError) -> bool {
    match error {
        RpcError::Service(s) => payload == service_error_model(s.name@, s.value@),
        _ => exists|cause: Seq<char>| payload == ValueModel::Str("Internal error: "@ + rpc_error_text(error, cause)),
    }
}

/// The response that answers request `id` given what its handler returned.
pub fn response_for_request(id: u32, result: Result<Value, RpcError>) -> (r: Response)
    ensures
        r.id == id,
        match result {
            Ok(v) => r.result == Ok::<Value, Value>(v),
            Err(e) => r.result matches Err(p) && error_payload(p@, e),
        },
{
    match result {
        Ok(value) => Response { id, result: Ok(value) },
        Err(RpcError::Service(service_error)) => Response { id, result: Err(service_error.into_value()) },
        Err(e) => {
            let mut text = "Internal error: ".to_string();
            let description = e.display_text();
            text.append(description.as_str());
            let ghost c = choose|c: Seq<char>| description@ == rpc_error_text(e, c);
            assert(text@ == "Internal error: "@ + rpc_error_text(e, c));
            Response { id, result: Err(Value::String(Utf8String::Valid(text))) }
        },
    }
}

/// The error that a service reports for a request method it does not implement.
pub fn method_not_implemented(method: &str) -> (e: RpcError)
    ensures
        is_malformed(e, "Method '"@ + method@ + "' not implemented"@),
{
    RpcError::Protocol(ProtocolError::MalformedMessage(concat3("Method '", method, "' not implemented")))
}

/// The error that a service reports for a request method that its request table
/// does not name: a service error named `MethodNotFound` whose value is the
/// method.
pub fn method_not_found(method: &str) -> (e: RpcError)
    ensures
        e matches RpcError::Service(s) && s.name@ == "MethodNotFound"@ && s.value@
            == ValueModel::Str(method@),
{
    RpcError::Service(
        ServiceError {
            name: "MethodNotFound".to_string(),
            value: Value::String(Utf8String::Valid(method.to_string())),
        },
    )
}

/// The value that a request table keyed by method reads a request from, as a
/// tagged enum is written: the method alone when there are no parameters; else
/// a one-entry map from the method to its single parameter, or to the array of
/// its parameters.
pub open spec fn request_payload_model(method: Seq<char>, params: Seq<ValueModel>) -> ValueModel {
    if params.len() == 0 {
        ValueModel::Str(method)
    } else if params.len() == 1 {
        ValueModel::Mapping(seq![(ValueModel::Str(method), params[0])])
    } else {
        ValueModel::Mapping(seq![(ValueModel::Str(method), ValueModel::Array(params))])
    }
}

/// A request's payload keeps every parameter: with no parameters it is the
/// method alone; with one, a map from the method to that parameter; with more, a
/// map from the method to the array of all of them, in order.
pub proof fn lemma_request_payload_keeps_params(method: Seq<char>, params: Seq<ValueModel>)
    ensures
        params.len() == 0 ==> request_payload_model(method, params) == ValueModel::Str(method),
        params.len() == 1 ==> request_payload_model(method, params) == ValueModel::Mapping(
            seq![(ValueModel::Str(method), params[0])],
        ),
        params.len() >= 2 ==> (request_payload_model(method, params) matches ValueModel::Mapping(
            entries,
        ) && entries.len() == 1 && entries[0].0 == ValueModel::Str(method) && (entries[0].1 matches ValueModel::Array(q) && q.len() == params.len() && forall|i: int|
            0 <= i < q.len() ==> #[trigger] q[i] == params[i])),
{
}

/// Builds the value that a request table keyed by method reads a request from
/// (see [`request_payload_model`]).
pub fn request_payload(method: &str, params: Vec<Value>) -> (v: Value)
    ensures
        v@ == request_payload_model(method@, seq_model(params@)),
        params@.len() == 0 ==> v@ == ValueModel::Str(method@),
        params@.len() == 1 ==> v@ == ValueModel::Mapping(seq![(ValueModel::Str(method@), params@[0]@)]),
        params@.len() >= 2 ==> (v@ matches ValueModel::Mapping(entries) && entries.len() == 1
            && entries[0].0 == ValueModel::Str(method@) && (entries[0].1 matches ValueModel::Array(q)
            && q.len() == params@.len() && forall|i: int| 0 <= i < q.len() ==> #[trigger] q[i]
            == params@[i]@)),
{
    proof {
        lemma_seq_model(params@);
        lemma_request_payload_keeps_params(method@, seq_model(params@));
    }
    let tag = Value::String(Utf8String::Valid(method.to_string()));
    if params.len() == 0 {
        tag
    } else {
        let content = if params.len() == 1 {
            let mut params = params;
            params.pop().unwrap()
        } else {
            Value::Array(params)
        };
        let ghost content_model = content@;
        let mut entries: Vec<(Value, Value)> = Vec::new();
        entries.push((tag, content));
        proof {
            lemma_entries_model(entries@);
            assert(entries_model(entries@) =~= seq![(entries@[0].0@, entries@[0].1@)]);
        }
        Value::Mapping(entries)
    }
}

/// The parameter list that an encoded request becomes: the elements of an array,
/// or any other value as the single parameter.
pub open spec fn params_model(v: ValueModel) -> Seq<ValueModel> {
    match v {
        ValueModel::Array(items) => items,
        _ => seq![v],
    }
}

/// Turns an encoded request into a parameter list.
pub fn params_from_value(value: Value) -> (params: Vec<Value>)
    ensures
        seq_model(params@) == params_model(value@),
        !(value@ is Array) ==> params@.len() == 1 && params@[0]@ == value@,
        value@ matches ValueModel::Array(items) ==> params@.len() == items.len() && forall|i: int|
            0 <= i < items.len() ==> #[trigger] params@[i]@ == items[i],
{
    proof {
        lemma_params_of_value(value@);
    }
    match value {
        Value::Array(values) => {
            proof {
                lemma_seq_model(values@);
            }
            values
        },
        other => {
            let ghost m = other@;
            let mut params: Vec<Value> = Vec::new();
            params.push(other);
            proof {
                lemma_seq_model(params@);
                assert(seq_model(params@) =~= seq![m]);
            }
            params
        },
    }
}

/// Turning an encoded request into parameters spreads only an array: an array's
/// elements become the parameters, in order, and any other value (a map that
/// encodes a struct, say) is the one and only parameter, unchanged.
pub proof fn lemma_params_of_value(v: ValueModel)
    ensures
        !(v is Array) ==> params_model(v).len() == 1 && params_model(v)[0] == v,
        v matches ValueModel::Array(items) ==> params_model(v) == items,
        ValueModel::Array(params_model(v)) == v || params_model(v) == seq![v],
{
}

/// Takes the one parameter of a parameter list that must hold exactly one.
pub fn single_param(params: Vec<Value>) -> (r: Result<Value, RpcError>)
    ensures
        params@.len() == 1 ==> r == Ok::<Value, RpcError>(params@[0]),
        params@.len() != 1 ==> r matches Err(RpcError::Protocol(ProtocolError::ExpectedSingleParameter)),
{
    let mut params = params;
    if params.len() == 1 {
        Ok(params.pop().unwrap())
    } else {
        Err(RpcError::Protocol(ProtocolError::ExpectedSingleParameter))
    }
}

/// Interprets an attempt to read one value from the start of a buffer, given the
/// kind of the I/O error behind a failed read (`kind`; unused otherwise).
///
/// A value read becomes a message and the count of bytes it took; an I/O failure
/// of kind `UnexpectedEof` means the input ends inside a value and gives `None`
/// (more bytes are needed); a value nested too deep gives `DepthLimitExceeded`;
/// any other I/O failure is a deserialization error.
pub fn classify_read(read: Result<(Value, usize), DecodeError>, kind: IoErrorKind) -> (r: Result<
    Option<(Message, usize)>,
    RpcError,
>)
    ensures
        classify_read_post(read, kind, r),
{
    match read {
        Ok((value, consumed)) => match Message::from_value(value) {
            Ok(message) => Ok(Some((message, consumed))),
            Err(e) => Err(e),
        },
        Err(DecodeError::DepthLimitExceeded) => Err(RpcError::Protocol(ProtocolError::DepthLimitExceeded)),
        Err(d) => match kind {
            IoErrorKind::UnexpectedEof => Ok(None),
            _ => Err(RpcError::Deserialization(d)),
        },
    }
}

/// What `classify_read` states of its result.
pub open spec fn classify_read_post(
    read: Result<(Value, usize), DecodeError>,
    kind: IoErrorKind,
    r: Result<Option<(Message, usize)>, RpcError>,
) -> bool {
    match read {
        Ok((v, n)) => match (r, parse_message_model(v@)) {
            (Ok(Some((m, k))), Ok(mm)) => k == n && m@ == mm,
            (Err(e), Err(we)) => reports(e, we),
            _ => false,
        },
        Err(DecodeError::DepthLimitExceeded) => r == Err::<Option<(Message, usize)>, RpcError>(
            RpcError::Protocol(ProtocolError::DepthLimitExceeded),
        ),
        Err(d) => if kind == IoErrorKind::UnexpectedEof {
            r matches Ok(None)
        } else {
            r == Err::<Option<(Message, usize)>, RpcError>(RpcError::Deserialization(d))
        },
    }
}

/// What the reader of a connection does next.
pub enum ReaderAction {
    /// Hand on a decoded message and drop the bytes it took from the buffer.
    Deliver { message: Message, consumed: usize },
    /// Wait for more bytes.
    ReadMore,
    /// Hand on this error and stop reading.
    Finish(RpcError),
}

/// Decides what the reader does after an attempt to decode a message from its
/// buffer, given whether the stream has ended.
pub fn reader_step(eof: bool, decoded: Result<Option<(Message, usize)>, RpcError>) -> (a: ReaderAction)
    ensures
        match decoded {
            Ok(Some((m, n))) => a == (ReaderAction::Deliver { message: m, consumed: n }),
            Ok(None) => if eof {
                a == ReaderAction::Finish((RpcError::Disconnect { source: None }))
            } else {
                a is ReadMore
            },
            Err(e) => a == ReaderAction::Finish(e),
        },
{
    match decoded {
        Ok(Some((message, consumed))) => ReaderAction::Deliver { message, consumed },
        Ok(None) => if eof {
            ReaderAction::Finish(RpcError::Disconnect { source: None })
        } else {
            ReaderAction::ReadMore
        },
        Err(e) => ReaderAction::Finish(e),
    }
}

/// The bytes a `bytes::BytesMut` holds, in order.
pub uninterp spec fn bytes_mut_contents(b: BytesMut) -> Seq<u8>;

/// Makes an empty byte buffer.
///
/// Wraps `BytesMut::with_capacity`; the contract claims that the buffer holds
/// no bytes (the capacity is room reserved, not contents).
#[verifier::external_body]
fn bytes_mut_with_capacity(capacity: usize) -> (b: BytesMut)
    ensures
        bytes_mut_contents(b) == Seq::<u8>::empty(),
{
    BytesMut::with_capacity(capacity)
}

/// Appends bytes to a byte buffer.
///
/// Wraps `BytesMut::extend_from_slice`; the contract claims that the buffer then
/// holds its old bytes followed by `chunk`.
#[verifier::external_body]
fn bytes_mut_extend(b: &mut BytesMut, chunk: &[u8])
    ensures
        bytes_mut_contents(*final(b)) == bytes_mut_contents(*old(b)) + chunk@,
{
    b.extend_from_slice(chunk)
}

/// Drops bytes from the front of a byte buffer.
///
/// Wraps `<BytesMut as bytes::Buf>::advance`, which panics when asked to drop
/// more bytes than the buffer holds (excluded by `requires`); the contract claims
/// that the buffer then holds the bytes after the first `count`.
#[verifier::external_body]
fn bytes_mut_advance(b: &mut BytesMut, count: usize)
    requires
        count <= bytes_mut_contents(*old(b)).len(),
    ensures
        bytes_mut_contents(*final(b)) == bytes_mut_contents(*old(b)).skip(count as int),
{
    bytes::Buf::advance(b, count)
}

/// The bytes of a byte buffer as a slice.
///
/// Wraps `BytesMut`'s `Deref` to `[u8]`; the contract claims that the slice holds
/// the buffer's bytes.
#[verifier::external_body]
fn bytes_mut_slice(b: &BytesMut) -> (s: &[u8])
    ensures
        s@ == bytes_mut_contents(*b),
{
    &b[..]
}

/// The room a reader's buffer starts with.
pub const READ_BUFFER_CAPACITY: usize = 8192;

/// The input of a connection's reader: the bytes read from the stream and not
/// yet taken by a message, and whether the stream has ended.
pub struct ReadBuffer {
    bytes: BytesMut,
    eof: bool,
}

impl ReadBuffer {
    /// The bytes read and not yet taken by a message.
    pub closed spec fn pending(&self) -> Seq<u8> {
        bytes_mut_contents(self.bytes)
    }

    /// Whether the stream has ended.
    pub closed spec fn ended(&self) -> bool {
        self.eof
    }

    /// An empty buffer over a stream that has not ended.
    pub fn new() -> (r: ReadBuffer)
        ensures
            r.pending() == Seq::<u8>::empty(),
            !r.ended(),
    {
        ReadBuffer { bytes: bytes_mut_with_capacity(READ_BUFFER_CAPACITY), eof: false }
    }

    /// Appends bytes that a read brought.
    pub fn extend(&mut self, chunk: &[u8])
        ensures
            final(self).pending() == old(self).pending() + chunk@,
            final(self).ended() == old(self).ended(),
    {
        bytes_mut_extend(&mut self.bytes, chunk);
    }

    /// Records that the stream has ended.
    pub fn mark_eof(&mut self)
        ensures
            final(self).pending() == old(self).pending(),
            final(self).ended(),
    {
        self.eof = true;
    }

    /// Decides the reader's next step from the front of the buffer: a message
    /// read there is handed on and its bytes dropped; when the read runs out of
    /// input (as on bytes that only start a value) the reader waits for more, or
    /// ends the connection when the stream has ended; anything else is handed on
    /// as an error that stops the reader.
    pub fn next_action(&mut self) -> (a: ReaderAction)
        ensures
            final(self).ended() == old(self).ended(),
            next_action_post(old(self).pending(), old(self).ended(), a, final(self).pending()),
    {
        let decoded = try_decode_message(bytes_mut_slice(&self.bytes));
        proof {
            if decoded_prefix(self.pending()) is Some {
                lemma_read_value_not_cut_short(self.pending());
            }
        }
        let action = reader_step(self.eof, decoded);
        if let ReaderAction::Deliver { consumed, .. } = &action {
            bytes_mut_advance(&mut self.bytes, *consumed);
        }
        action
    }
}

/// What [`ReadBuffer::next_action`] does, given the pending bytes and whether
/// the stream has ended: the action it takes and the bytes left pending after.
pub open spec fn next_action_post(
    pending: Seq<u8>,
    ended: bool,
    a: ReaderAction,
    after: Seq<u8>,
) -> bool {
    &&& cut_short(pending) ==> after == pending && (if ended {
        a == ReaderAction::Finish((RpcError::Disconnect { source: None }))
    } else {
        a is ReadMore
    })
    &&& match decoded_prefix(pending) {
        Some((vm, n)) => match parse_message_model(vm) {
            Ok(mm) => a matches ReaderAction::Deliver { message, consumed } && message@ == mm
                && consumed == n && after == pending.skip(n as int),
            Err(we) => a matches ReaderAction::Finish(e) && reports(e, we) && after == pending,
        },
        None => after == pending && if read_runs_out(pending) {
            if ended {
                a == ReaderAction::Finish((RpcError::Disconnect { source: None }))
            } else {
                a is ReadMore
            }
        } else {
            a == ReaderAction::Finish(RpcError::Protocol(ProtocolError::DepthLimitExceeded))
        },
    }
}

/// The stream's bytes end in bytes that only start a value: a strict prefix of
/// the bytes of some whole value (possibly empty).
pub open spec fn starts_value(tail: Seq<u8>) -> bool {
    exists|frame: Seq<u8>, vm: ValueModel|
        #![trigger is_value_frame(frame, vm)]
        is_value_frame(frame, vm) && tail.len() < frame.len() && tail == frame.take(
            tail.len() as int,
        )
}

/// The frames are the bytes of whole values, each framing its message.
pub open spec fn frames_of_messages(
    frames: Seq<Seq<u8>>,
    models: Seq<ValueModel>,
    messages: Seq<MessageModel>,
) -> bool {
    &&& frames.len() == models.len()
    &&& frames.len() == messages.len()
    &&& forall|i: int| 0 <= i < frames.len() ==> #[trigger] is_value_frame(frames[i], models[i])
    &&& forall|i: int| 0 <= i < frames.len() ==> #[trigger] parse_message_model(models[i]) == Ok::<
        MessageModel,
        WireError,
    >(messages[i])
}

/// Where a reader stands on `stream`, whose front is the whole values `frames`:
/// it has handed on the first `delivered` of them and read the first `read`
/// bytes; its pending bytes are those read and not yet taken by a message, and
/// the stream has ended only once all of its bytes were read.
pub open spec fn reader_position(
    pending: Seq<u8>,
    ended: bool,
    stream: Seq<u8>,
    frames: Seq<Seq<u8>>,
    delivered: int,
    read: int,
) -> bool {
    &&& 0 <= delivered <= frames.len()
    &&& frames.take(delivered).flatten().len() <= read <= stream.len()
    &&& pending == stream.subrange(frames.take(delivered).flatten().len() as int, read)
    &&& ended ==> read == stream.len()
}

/// Flattening splits at any point of the sequence.
proof fn lemma_flatten_split(frames: Seq<Seq<u8>>, d: int)
    requires
        0 <= d <= frames.len(),
    ensures
        frames.flatten() == frames.take(d).flatten() + frames.skip(d).flatten(),
    decreases d,
{
    if d == 0 {
        assert(frames.take(0) =~= Seq::<Seq<u8>>::empty());
        assert(frames.skip(0) =~= frames);
        assert(frames.flatten() =~= Seq::<u8>::empty() + frames.flatten());
    } else {
        lemma_flatten_split(frames, d - 1);
        lemma_flatten_step(frames, d - 1);
        assert(frames.flatten() =~= frames.take(d).flatten() + frames.skip(d).flatten());
    }
}

/// One frame more: the flattening of the first `d + 1` frames, and of the frames
/// from `d` on.
proof fn lemma_flatten_step(frames: Seq<Seq<u8>>, d: int)
    requires
        0 <= d < frames.len(),
    ensures
        frames.take(d + 1).flatten() == frames.take(d).flatten() + frames[d],
        frames.skip(d).flatten() == frames[d] + frames.skip(d + 1).flatten(),
{
    assert(frames.take(d + 1) =~= frames.take(d).push(frames[d]));
    frames.take(d).lemma_flatten_push(frames[d]);
    assert(frames.skip(d).drop_first() =~= frames.skip(d + 1));
}

/// A reader starts at the front of the stream, with nothing pending.
pub proof fn lemma_reader_starts(stream: Seq<u8>, frames: Seq<Seq<u8>>)
    ensures
        reader_position(Seq::<u8>::empty(), false, stream, frames, 0, 0),
{
    assert(frames.take(0) =~= Seq::<Seq<u8>>::empty());
    assert(stream.subrange(0, 0) =~= Seq::<u8>::empty());
}

/// Appending the next bytes of the stream, as [`ReadBuffer::extend`] does with
/// what a read brought, moves the reader on by those bytes, however the stream
/// is split into reads.
pub proof fn lemma_reader_reads(
    pending: Seq<u8>,
    stream: Seq<u8>,
    frames: Seq<Seq<u8>>,
    delivered: int,
    read: int,
    chunk: Seq<u8>,
)
    requires
        reader_position(pending, false, stream, frames, delivered, read),
        read + chunk.len() <= stream.len(),
        chunk == stream.subrange(read, read + chunk.len()),
    ensures
        reader_position(pending + chunk, false, stream, frames, delivered, read + chunk.len()),
{
    let start = frames.take(delivered).flatten().len() as int;
    assert(stream.subrange(start, read + chunk.len()) =~= stream.subrange(start, read) + chunk);
}

/// Once every byte of the stream was read, the reader may see the stream end.
pub proof fn lemma_reader_sees_end(
    pending: Seq<u8>,
    stream: Seq<u8>,
    frames: Seq<Seq<u8>>,
    delivered: int,
    read: int,
)
    requires
        reader_position(pending, false, stream, frames, delivered, read),
        read == stream.len(),
    ensures
        reader_position(pending, true, stream, frames, delivered, read),
{
}

/// A reader over a stream of whole messages, followed by bytes that only start
/// a value, hands the messages on in order and then ends with a disconnect: at
/// each step of [`ReadBuffer::next_action`], when the next message's bytes have
/// all been read it is handed on and its bytes dropped; otherwise the reader
/// waits for more bytes, and once the stream has ended (so every message was
/// handed on) it finishes with `Disconnect { source: None }`. It never stops
/// with another error.
pub proof fn lemma_reader_step(
    pending: Seq<u8>,
    ended: bool,
    stream: Seq<u8>,
    frames: Seq<Seq<u8>>,
    models: Seq<ValueModel>,
    messages: Seq<MessageModel>,
    tail: Seq<u8>,
    delivered: int,
    read: int,
    a: ReaderAction,
    after: Seq<u8>,
)
    requires
        frames_of_messages(frames, models, messages),
        starts_value(tail),
        stream == frames.flatten() + tail,
        reader_position(pending, ended, stream, frames, delivered, read),
        next_action_post(pending, ended, a, after),
    ensures
        if delivered < frames.len() && read >= frames.take(delivered + 1).flatten().len() {
            &&& a matches ReaderAction::Deliver { message, .. } && message@ == messages[delivered]
            &&& reader_position(after, ended, stream, frames, delivered + 1, read)
        } else {
            &&& after == pending
            &&& if ended {
                delivered == frames.len() && a == ReaderAction::Finish(
                    (RpcError::Disconnect { source: None }),
                )
            } else {
                a is ReadMore
            }
        },
{
    let d = delivered;
    let r = read;
    let k = frames.len() as int;
    let total = frames.flatten();
    let start = frames.take(d).flatten().len() as int;
    lemma_flatten_split(frames, d);
    if d < k {
        lemma_flatten_step(frames, d);
        let end = start + frames[d].len();
        assert(frames.take(d + 1).flatten().len() == end);
        assert(is_value_frame(frames[d], models[d]));
        assert(parse_message_model(models[d]) == Ok::<MessageModel, WireError>(messages[d]));
        assert(stream.subrange(start, end) =~= frames[d]);
        if r >= end {
            let rest = stream.subrange(end, r);
            assert(pending =~= frames[d] + rest);
            assert(decoded_prefix(frames[d] + rest) == decoded_prefix(frames[d]));
            assert(pending.skip(frames[d].len() as int) =~= rest);
        } else {
            assert(pending =~= frames[d].take(r - start));
            lemma_split_value_waits(frames[d], models[d], r - start);
        }
    } else {
        assert(frames.take(k) =~= frames);
        let (frame, vm) = choose|frame: Seq<u8>, vm: ValueModel|
            #![trigger is_value_frame(frame, vm)]
            is_value_frame(frame, vm) && tail.len() < frame.len() && tail == frame.take(
                tail.len() as int,
            );
        assert(pending =~= frame.take(r - start));
        lemma_split_value_waits(frame, vm, r - start);
    }
}

/// What a read from the stream brought.
pub enum ReadProgress {
    /// The stream has ended.
    Eof,
    /// Some bytes arrived.
    Data,
    /// The read failed; the reader hands on this error and stops.
    Failed(RpcError),
}

/// Interprets the outcome of one read from the stream: zero bytes mean the
/// stream ended; a failure is classified as by `RpcError::from`.
pub fn read_progress(read: Result<usize, std::io::Error>) -> (p: ReadProgress)
    ensures
        match read {
            Ok(n) => if n == 0 {
                p is Eof
            } else {
                p is Data
            },
            Err(e) => p == ReadProgress::Failed(io_error_rpc(e)),
        },
{
    match read {
        Ok(0) => ReadProgress::Eof,
        Ok(_) => ReadProgress::Data,
        Err(e) => ReadProgress::Failed(RpcError::from(e)),
    }
}

/// Whether `tokio::task::JoinError::is_cancelled` holds of a join failure: the
/// task was cancelled rather than panicked.
pub uninterp spec fn join_error_cancelled(error: tokio::task::JoinError) -> bool;

/// Reports whether a task was cancelled rather than failed.
///
/// Wraps `tokio::task::JoinError::is_cancelled`, which tells the error's two
/// kinds apart; the contract claims only that the answer is a function of the
/// error, left to the name `join_error_cancelled`.
#[verifier::external_body]
fn join_error_is_cancelled(error: &tokio::task::JoinError) -> (r: bool)
    ensures
        r == join_error_cancelled(*error),
{
    error.is_cancelled()
}

/// Something that the handler of a connection waits for.
pub enum HandlerEvent {
    /// The reader handed on a message or an error, or has stopped (`None`).
    Incoming(Option<Result<Message, RpcError>>),
    /// The service's `connected` hook finished, or its task failed.
    Connected(Result<Result<(), RpcError>, tokio::task::JoinError>),
    /// The task that handled one incoming message finished.
    MessageHandled(Result<(), tokio::task::JoinError>),
    /// Nothing is left to wait for.
    Idle,
}

/// What the handler of a connection does next.
pub enum HandlerAction {
    /// Handle this incoming message in a task of its own.
    Dispatch(Message),
    /// Keep waiting.
    Continue,
    /// Report that a message-handling task failed, and keep waiting.
    ReportJoinFailure(tokio::task::JoinError),
    /// Stop with this outcome.
    Stop(Result<(), RpcError>),
}

/// Decides what the handler of a connection does with one event, and whether the
/// service's `connected` hook has finished afterwards.
pub fn handler_step(connected_done: bool, event: HandlerEvent) -> (r: (bool, HandlerAction))
    requires
        event is Connected ==> !connected_done,
    ensures
        r.0 == (connected_done || event is Connected),
        match event {
            HandlerEvent::Incoming(Some(Ok(m))) => r.1 == HandlerAction::Dispatch(m),
            HandlerEvent::Incoming(Some(Err(e))) => r.1 == HandlerAction::Stop(Err(e)),
            HandlerEvent::Incoming(None) => r.1 == HandlerAction::Stop(Ok(())),
            HandlerEvent::Connected(Ok(Ok(()))) => r.1 is Continue,
            HandlerEvent::Connected(Ok(Err(e))) => r.1 == HandlerAction::Stop(Err(e)),
            HandlerEvent::Connected(Err(_)) => r.1 matches HandlerAction::Stop(Err(e)) && is_malformed(
                e,
                "Connected task failed"@,
            ),
            HandlerEvent::MessageHandled(Ok(())) => r.1 is Continue,
            HandlerEvent::MessageHandled(Err(j)) => if join_error_cancelled(j) {
                r.1 is Continue
            } else {
                r.1 == HandlerAction::ReportJoinFailure(j)
            },
            HandlerEvent::Idle => r.1 == HandlerAction::Stop(Ok(())),
        },
{
    let done = connected_done || matches!(event, HandlerEvent::Connected(_));
    let action = match event {
        HandlerEvent::Incoming(Some(Ok(message))) => HandlerAction::Dispatch(message),
        HandlerEvent::Incoming(Some(Err(e))) => HandlerAction::Stop(Err(e)),
        HandlerEvent::Incoming(None) => HandlerAction::Stop(Ok(())),
        HandlerEvent::Connected(Ok(Ok(()))) => HandlerAction::Continue,
        HandlerEvent::Connected(Ok(Err(e))) => HandlerAction::Stop(Err(e)),
        HandlerEvent::Connected(Err(_)) => HandlerAction::Stop(
            Err(RpcError::Protocol(ProtocolError::from("Connected task failed"))),
        ),
        HandlerEvent::MessageHandled(Ok(())) => HandlerAction::Continue,
        HandlerEvent::MessageHandled(Err(j)) => if join_error_is_cancelled(&j) {
            HandlerAction::Continue
        } else {
            HandlerAction::ReportJoinFailure(j)
        },
        HandlerEvent::Idle => HandlerAction::Stop(Ok(())),
    };
    (done, action)
}

/// A factory for the service object of each new connection. A service type
/// that has a default value is its own factory.
pub trait ConnectionMaker<T>: Send + Sync {
    /// Creates a new connection instance.
    fn make_connection(&self) -> T;
}

impl<T: Default + Send + Sync> ConnectionMaker<T> for T {
    /// A new connection gets the service type's default value.
    fn make_connection(&self) -> T {
        T::default()
    }
}

} // verus!

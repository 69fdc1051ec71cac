//! Error types for RPC operations, and the encoding of service errors as values.
use vstd::prelude::*;

use crate::codec::{canonical, pack_debug, pack_debug_text, value_to_pack};
use crate::text::{decimal, push_decimal, str_eq};
use crate::value::{Utf8String, Value, ValueModel, entries_model};

verus! {

/// The kinds of I/O failure that this crate tells apart.
#[derive(Copy, Clone, Debug, PartialEq, Eq, Structural)]
pub enum IoErrorKind {
    UnexpectedEof,
    BrokenPipe,
    ConnectionAborted,
    ConnectionReset,
    NotConnected,
    /// Any other kind.
    Other,
}

impl IoErrorKind {
    /// The kinds that mean the peer has gone away.
    pub open spec fn spec_is_disconnect(self) -> bool {
        !(self is Other)
    }
}

/// The kind `std::io::Error::kind` reports for an I/O error, among the kinds
/// this crate tells apart (`Other` for the rest). For an error made from an
/// operating-system code, the kind follows the target platform's table of
/// codes, fixed when the crate is built.
pub uninterp spec fn io_kind(error: std::io::Error) -> IoErrorKind;

/// The error that an I/O error becomes: `Disconnect` when its kind means the
/// peer went away, `Io` otherwise.
pub open spec fn io_error_rpc(error: std::io::Error) -> RpcError {
    if io_kind(error).spec_is_disconnect() {
        RpcError::Disconnect { source: Some(error) }
    } else {
        RpcError::Io(error)
    }
}

/// Returns the kind of an I/O error.
///
/// Wraps `std::io::Error::kind`, mapping each kind this crate tells apart to its
/// own variant and the rest to `Other`; the contract claims only that the kind
/// is a function of the error, left to the name `io_kind`.
#[verifier::external_body]
pub(crate) fn io_error_kind(error: &std::io::Error) -> (kind: IoErrorKind)
    ensures
        kind == io_kind(*error),
{
    match error.kind() {
        std::io::ErrorKind::UnexpectedEof => IoErrorKind::UnexpectedEof,
        std::io::ErrorKind::BrokenPipe => IoErrorKind::BrokenPipe,
        std::io::ErrorKind::ConnectionAborted => IoErrorKind::ConnectionAborted,
        std::io::ErrorKind::ConnectionReset => IoErrorKind::ConnectionReset,
        std::io::ErrorKind::NotConnected => IoErrorKind::NotConnected,
        _ => IoErrorKind::Other,
    }
}

/// A failure to read a MessagePack value.
#[derive(Debug)]
pub enum DecodeError {
    /// Reading the marker byte failed.
    InvalidMarkerRead(std::io::Error),
    /// Reading the data after the marker failed.
    InvalidDataRead(std::io::Error),
    /// The value was nested deeper than the reader allows.
    DepthLimitExceeded,
}

/// A failure to write a MessagePack value.
#[derive(Debug)]
pub enum EncodeError {
    /// Writing the marker byte failed.
    InvalidMarkerWrite(std::io::Error),
    /// Writing the data after the marker failed.
    InvalidDataWrite(std::io::Error),
}

/// Errors indicating a violation of the MessagePack-RPC protocol or message framing.
#[derive(Debug)]
pub enum ProtocolError {
    /// Received a message with an invalid type tag.
    InvalidMessageType(u64),
    /// A full MessagePack value exceeded the configured nesting limit.
    DepthLimitExceeded,
    /// A caller requested a bound socket address before any listener was configured.
    ListenerNotConfigured,
    /// A configured listener does not expose a bound socket address.
    MissingSocketAddr,
    /// A single-parameter helper received the wrong arity.
    ExpectedSingleParameter,
    /// A single-consumer resource was taken more than once.
    ResourceAlreadyTaken {
        /// The resource that was already taken.
        resource: &'static str,
    },
    /// A background task failed before completing normally.
    TaskFailed {
        /// The task that failed.
        task: &'static str,
        /// The underlying join failure.
        source: tokio::task::JoinError,
    },
    /// Received a response for a request id that has no pending waiter.
    UnexpectedResponse {
        /// The request id.
        id: u32,
    },
    /// Received a message that does not match the expected structure.
    MalformedMessage(String),
}

impl From<&str> for ProtocolError {
    fn from(message: &str) -> (e: ProtocolError)
        ensures
            e matches ProtocolError::MalformedMessage(s) && s@ == message@,
    {
        ProtocolError::MalformedMessage(message.to_string())
    }
}

// The message is copied into a new string, which no spec expression can name;
// the impl's own `ensures` states the result.
impl vstd::std_specs::convert::FromSpecImpl<&str> for ProtocolError {
    open spec fn obeys_from_spec() -> bool {
        false
    }

    open spec fn from_spec(message: &str) -> ProtocolError {
        ProtocolError::DepthLimitExceeded
    }
}

impl From<String> for ProtocolError {
    fn from(message: String) -> (e: ProtocolError)
        ensures
            e == ProtocolError::MalformedMessage(message),
    {
        ProtocolError::MalformedMessage(message)
    }
}

impl vstd::std_specs::convert::FromSpecImpl<String> for ProtocolError {
    open spec fn obeys_from_spec() -> bool {
        true
    }

    open spec fn from_spec(message: String) -> ProtocolError {
        ProtocolError::MalformedMessage(message)
    }
}

/// An error returned by the implementation of an RPC service method.
///
/// On the wire it is a map with a "name" key holding the error's name and a
/// "value" key holding its details.
#[derive(Debug)]
pub struct ServiceError {
    /// The error type name.
    pub name: String,
    /// Additional error data.
    pub value: Value,
}

/// Errors that can occur during RPC operations.
#[derive(Debug)]
pub enum RpcError {
    /// Error occurred during I/O operations.
    Io(std::io::Error),
    /// Error occurred while trying to establish a connection.
    Connect {
        /// Underlying I/O error.
        source: std::io::Error,
    },
    /// Error occurred during MessagePack serialization.
    Serialization(EncodeError),
    /// Error occurred during MessagePack deserialization.
    Deserialization(DecodeError),
    /// Failed to serialize request parameters.
    RequestSerialization(rmp_serde::encode::Error),
    /// Failed to deserialize a response body.
    ResponseDeserialization(rmp_serde::decode::Error),
    /// Error related to the MessagePack-RPC protocol.
    Protocol(ProtocolError),
    /// Error returned by the RPC service implementation.
    Service(ServiceError),
    /// The connection was closed.
    Disconnect {
        /// Underlying I/O error, when available.
        source: Option<std::io::Error>,
    },
}

/// `true` when `e` is a protocol error reporting a malformed message with text `text`.
pub open spec fn is_malformed(e: RpcError, text: Seq<char>) -> bool {
    e matches RpcError::Protocol(ProtocolError::MalformedMessage(s)) && s@ == text
}

/// The details held under the last "value" key of a map's entries, if any.
pub open spec fn value_field(entries: Seq<(ValueModel, ValueModel)>) -> Option<ValueModel>
    decreases entries.len(),
{
    if entries.len() == 0 {
        None
    } else if entries.last().0 == ValueModel::Str("value"@) {
        Some(entries.last().1)
    } else {
        value_field(entries.drop_last())
    }
}

/// The name held under the last "name" key of a map's entries: `None` when no
/// such key exists or its value is not a well-formed string.
pub open spec fn name_field(entries: Seq<(ValueModel, ValueModel)>) -> Option<Seq<char>>
    decreases entries.len(),
{
    if entries.len() == 0 {
        None
    } else if entries.last().0 == ValueModel::Str("name"@) {
        entries.last().1.spec_as_str()
    } else {
        name_field(entries.drop_last())
    }
}

/// The (name, details) of the service error that a value encodes, if it encodes one.
pub open spec fn service_error_fields(v: ValueModel) -> Option<(Seq<char>, ValueModel)> {
    match v {
        ValueModel::Mapping(entries) => match (name_field(entries), value_field(entries)) {
            (Some(name), Some(details)) => Some((name, details)),
            _ => None,
        },
        _ => None,
    }
}

/// The value that encodes a service error with the given name and details.
pub open spec fn service_error_model(name: Seq<char>, details: ValueModel) -> ValueModel {
    ValueModel::Mapping(
        seq![(ValueModel::Str("name"@), ValueModel::Str(name)), (ValueModel::Str("value"@), details)],
    )
}

/// Encoding a service error and decoding the result gives back its name and
/// details; a remote error payload that is such an encoding stands for that very
/// service error.
pub proof fn lemma_service_error_round_trip(name: Seq<char>, details: ValueModel)
    ensures
        service_error_fields(service_error_model(name, details)) == Some((name, details)),
        remote_service_error(service_error_model(name, details)) == (name, details),
{
    reveal_strlit("name");
    reveal_strlit("value");
    let entries = service_error_model(name, details)->Mapping_0;
    assert(entries.drop_last() == seq![(ValueModel::Str("name"@), ValueModel::Str(name))]);
    assert(entries.drop_last().drop_last() == Seq::<(ValueModel, ValueModel)>::empty());
    assert("name"@.len() != "value"@.len());
    assert(value_field(entries) == Some(details));
    assert(name_field(entries.drop_last()) == Some(name));
    assert(name_field(entries) == Some(name));
}

impl ServiceError {
    /// Encodes the error as a map with "name" and "value" keys.
    pub fn into_value(self) -> (v: Value)
        ensures
            v@ == service_error_model(self.name@, self.value@),
    {
        let mut entries: Vec<(Value, Value)> = Vec::new();
        entries.push((Value::from("name"), Value::String(Utf8String::Valid(self.name))));
        entries.push((Value::from("value"), self.value));
        let ghost e = entries@;
        assert(e.drop_last().drop_last() == Seq::<(Value, Value)>::empty());
        assert(entries_model(e.drop_last()) == entries_model(e.drop_last().drop_last()).push(
            (e[0].0@, e[0].1@),
        ));
        assert(entries_model(e) == entries_model(e.drop_last()).push((e[1].0@, e[1].1@)));
        assert(entries_model(e) =~= seq![
            (ValueModel::Str("name"@), ValueModel::Str(self.name@)),
            (ValueModel::Str("value"@), self.value@),
        ]);
        Value::Mapping(entries)
    }

    /// Decodes a service error from a map holding a string under "name" and any
    /// value under "value"; where a key repeats, its last entry counts. Any other
    /// value is handed back unchanged.
    pub fn try_from_value(value: Value) -> (r: Result<ServiceError, Value>)
        ensures
            match r {
                Ok(e) => service_error_fields(value@) == Some((e.name@, e.value@)),
                Err(v) => service_error_fields(value@) is None && v == value,
            },
    {
        let mut name: Option<String> = None;
        let mut details: Option<Value> = None;
        match &value {
            Value::Mapping(map) => {
                let mut i: usize = 0;
                while i < map.len()
                    invariant
                        i <= map.len(),
                        value == Value::Mapping(*map),
                        match name {
                            Some(n) => name_field(entries_model(map@.take(i as int))) == Some(n@),
                            None => name_field(entries_model(map@.take(i as int))) is None,
                        },
                        match details {
                            Some(d) => value_field(entries_model(map@.take(i as int))) == Some(d@),
                            None => value_field(entries_model(map@.take(i as int))) is None,
                        },
                    decreases map.len() - i,
                {
                    let ghost prefix = map@.take(i as int);
                    let ghost next = map@.take(i + 1);
                    assert(next.drop_last() == prefix);
                    assert(entries_model(next) == entries_model(prefix).push(
                        (map@[i as int].0@, map@[i as int].1@),
                    ));
                    let key = &map[i].0;
                    let entry = &map[i].1;
                    assert(entries_model(next).drop_last() == entries_model(prefix));
                    assert(entries_model(next).last() == (key@, entry@));
                    // One more entry: each field is this entry's if its key matches.
                    assert(name_field(entries_model(next)) == if key@ == ValueModel::Str("name"@) {
                        entry@.spec_as_str()
                    } else {
                        name_field(entries_model(prefix))
                    });
                    assert(value_field(entries_model(next)) == if key@ == ValueModel::Str("value"@) {
                        Some(entry@)
                    } else {
                        value_field(entries_model(prefix))
                    });
                    match key.as_str() {
                        Some(k) => {
                            if str_eq(k, "name") {
                                proof {
                                    reveal_strlit("name");
                                    reveal_strlit("value");
                                }
                                assert("name"@.len() != "value"@.len());
                                name = match entry.as_str() {
                                    Some(s) => Some(s.to_string()),
                                    None => None,
                                };
                            } else if str_eq(k, "value") {
                                proof {
                                    reveal_strlit("name");
                                    reveal_strlit("value");
                                }
                                details = Some(entry.clone());
                            }
                        },
                        None => {},
                    }
                    i = i + 1;
                }
                assert(map@.take(map.len() as int) == map@);
            },
            _ => {},
        }
        match (name, details) {
            (Some(n), Some(d)) => Ok(ServiceError { name: n, value: d }),
            _ => Err(value),
        }
    }
}

impl From<ServiceError> for Value {
    fn from(error: ServiceError) -> (v: Value)
        ensures
            v@ == service_error_model(error.name@, error.value@),
    {
        error.into_value()
    }
}

// The encoded map owns new vectors, which no spec expression can name; the
// impl's own `ensures` states the result.
impl vstd::std_specs::convert::FromSpecImpl<ServiceError> for Value {
    open spec fn obeys_from_spec() -> bool {
        false
    }

    open spec fn from_spec(error: ServiceError) -> Value {
        Value::Nil
    }
}

impl TryFrom<Value> for ServiceError {
    type Error = Value;

    fn try_from(value: Value) -> (r: Result<ServiceError, Value>)
        ensures
            match r {
                Ok(e) => service_error_fields(value@) == Some((e.name@, e.value@)),
                Err(v) => service_error_fields(value@) is None && v == value,
            },
    {
        ServiceError::try_from_value(value)
    }
}

// A decoded error owns copies of the map's contents, which no spec expression
// can name; the impl's own `ensures` states the result.
impl vstd::std_specs::convert::TryFromSpecImpl<Value> for ServiceError {
    open spec fn obeys_try_from_spec() -> bool {
        false
    }

    open spec fn try_from_spec(value: Value) -> Result<ServiceError, Value> {
        Err(value)
    }
}


/// The name and details of the service error that a remote error payload becomes:
/// a well-formed service error keeps its own; another map is reported as
/// "UnknownError" and any other value as "RemoteError", with the payload as details.
pub open spec fn remote_service_error(payload: ValueModel) -> (Seq<char>, ValueModel) {
    match service_error_fields(payload) {
        Some(fields) => fields,
        None => match payload {
            ValueModel::Mapping(_) => ("UnknownError"@, payload),
            _ => ("RemoteError"@, payload),
        },
    }
}

/// A remote error payload that is not a map is kept whole, as the details of a
/// `RemoteError`; a map that encodes no service error is kept whole, as the
/// details of an `UnknownError`; nothing of the payload is dropped.
pub proof fn lemma_remote_error_keeps_payload(payload: ValueModel)
    ensures
        !(payload is Mapping) ==> remote_service_error(payload) == ("RemoteError"@, payload),
        payload is Mapping && service_error_fields(payload) is None ==> remote_service_error(payload)
            == ("UnknownError"@, payload),
        service_error_fields(payload) is None ==> remote_service_error(payload).1 == payload,
{
}

/// The name is taken from the last entry under the key "name".
proof fn lemma_name_field_at(entries: Seq<(ValueModel, ValueModel)>, i: int, n: Seq<char>)
    requires
        0 <= i < entries.len(),
        entries[i] == (ValueModel::Str("name"@), ValueModel::Str(n)),
        forall|k: int| i < k < entries.len() ==> #[trigger] entries[k].0 != ValueModel::Str("name"@),
    ensures
        name_field(entries) == Some(n),
    decreases entries.len(),
{
    if i < entries.len() - 1 {
        assert(entries.last() == entries[entries.len() - 1]);
        lemma_name_field_at(entries.drop_last(), i, n);
    }
}

/// The details are taken from the last entry under the key "value".
proof fn lemma_value_field_at(entries: Seq<(ValueModel, ValueModel)>, j: int, d: ValueModel)
    requires
        0 <= j < entries.len(),
        entries[j] == (ValueModel::Str("value"@), d),
        forall|k: int| j < k < entries.len() ==> #[trigger] entries[k].0 != ValueModel::Str("value"@),
    ensures
        value_field(entries) == Some(d),
    decreases entries.len(),
{
    if j < entries.len() - 1 {
        assert(entries.last() == entries[entries.len() - 1]);
        lemma_value_field_at(entries.drop_last(), j, d);
    }
}

/// Decoding a service error does not depend on the order of its map's entries:
/// a map in which the key "name" occurs once, holding the text `n`, and the key
/// "value" occurs once, holding `d`, encodes the service error `(n, d)` wherever
/// the two entries stand among the others; a remote error with that payload is
/// that very service error.
pub proof fn lemma_service_error_any_order(
    entries: Seq<(ValueModel, ValueModel)>,
    i: int,
    j: int,
    n: Seq<char>,
    d: ValueModel,
)
    requires
        0 <= i < entries.len(),
        0 <= j < entries.len(),
        entries[i] == (ValueModel::Str("name"@), ValueModel::Str(n)),
        entries[j] == (ValueModel::Str("value"@), d),
        forall|k: int|
            0 <= k < entries.len() && k != i ==> #[trigger] entries[k].0 != ValueModel::Str("name"@),
        forall|k: int|
            0 <= k < entries.len() && k != j ==> #[trigger] entries[k].0 != ValueModel::Str("value"@),
    ensures
        service_error_fields(ValueModel::Mapping(entries)) == Some((n, d)),
        remote_service_error(ValueModel::Mapping(entries)) == (n, d),
{
    lemma_name_field_at(entries, i, n);
    lemma_value_field_at(entries, j, d);
}

/// A service error map whose "value" entry comes before its "name" entry
/// decodes as the name-first map does.
pub proof fn lemma_service_error_value_first(n: Seq<char>, d: ValueModel)
    ensures
        service_error_fields(
            ValueModel::Mapping(
                seq![(ValueModel::Str("value"@), d), (ValueModel::Str("name"@), ValueModel::Str(n))],
            ),
        ) == Some((n, d)),
        service_error_fields(
            ValueModel::Mapping(
                seq![(ValueModel::Str("value"@), d), (ValueModel::Str("name"@), ValueModel::Str(n))],
            ),
        ) == service_error_fields(service_error_model(n, d)),
{
    reveal_strlit("name");
    reveal_strlit("value");
    assert("name"@.len() != "value"@.len());
    let entries = seq![(ValueModel::Str("value"@), d), (ValueModel::Str("name"@), ValueModel::Str(n))];
    lemma_service_error_any_order(entries, 1, 0, n, d);
    lemma_service_error_round_trip(n, d);
}

impl RpcError {
    /// Wraps a failed task join as a protocol error with task context.
    pub fn task_failed(task: &'static str, source: tokio::task::JoinError) -> (e: RpcError)
        ensures
            e == RpcError::Protocol((ProtocolError::TaskFailed { task, source })),
    {
        RpcError::Protocol(ProtocolError::TaskFailed { task, source })
    }

    /// Reports that a single-consumer resource was taken more than once.
    pub fn resource_already_taken(resource: &'static str) -> (e: RpcError)
        ensures
            e == RpcError::Protocol((ProtocolError::ResourceAlreadyTaken { resource })),
    {
        RpcError::Protocol(ProtocolError::ResourceAlreadyTaken { resource })
    }

    /// Builds the service error that a remote error payload stands for.
    ///
    /// Properly encoded service errors keep their name and value; malformed ones
    /// get a fallback name and carry the whole payload as their value.
    pub fn from_remote_error_value(value: Value) -> (e: RpcError)
        ensures
            e matches RpcError::Service(s) && (s.name@, s.value@) == remote_service_error(value@),
            !(value@ is Mapping) ==> (e matches RpcError::Service(s) && s.name@ == "RemoteError"@
                && s.value@ == value@),
    {
        proof {
            lemma_remote_error_keeps_payload(value@);
        }
        match ServiceError::try_from_value(value) {
            Ok(service_error) => RpcError::Service(service_error),
            Err(Value::Mapping(map)) => RpcError::Service(
                ServiceError { name: "UnknownError".to_string(), value: Value::Mapping(map) },
            ),
            Err(original) => RpcError::Service(
                ServiceError { name: "RemoteError".to_string(), value: original },
            ),
        }
    }

    /// Classifies an I/O error by its kind: a kind that means the peer went away
    /// becomes `Disconnect`, any other `Io`.
    pub fn from_io_error_kind(error: std::io::Error, kind: IoErrorKind) -> (e: RpcError)
        ensures
            kind.spec_is_disconnect() ==> e == (RpcError::Disconnect { source: Some(error) }),
            !kind.spec_is_disconnect() ==> e == RpcError::Io(error),
    {
        match kind {
            IoErrorKind::Other => RpcError::Io(error),
            _ => RpcError::Disconnect { source: Some(error) },
        }
    }
}

impl From<std::io::Error> for RpcError {
    /// Classifies the error by the kind that `std::io::Error::kind` reports.
    fn from(error: std::io::Error) -> (e: RpcError)
        ensures
            e == io_error_rpc(error),
    {
        let kind = io_error_kind(&error);
        RpcError::from_io_error_kind(error, kind)
    }
}

// The kind of an I/O error is read through an outside call, so no spec
// expression gives the result; the impl's own `ensures` states what holds.
impl vstd::std_specs::convert::FromSpecImpl<std::io::Error> for RpcError {
    open spec fn obeys_from_spec() -> bool {
        true
    }

    open spec fn from_spec(error: std::io::Error) -> RpcError {
        io_error_rpc(error)
    }
}

impl From<ProtocolError> for RpcError {
    fn from(error: ProtocolError) -> (e: RpcError)
        ensures
            e == RpcError::Protocol(error),
    {
        RpcError::Protocol(error)
    }
}

impl vstd::std_specs::convert::FromSpecImpl<ProtocolError> for RpcError {
    open spec fn obeys_from_spec() -> bool {
        true
    }

    open spec fn from_spec(error: ProtocolError) -> RpcError {
        RpcError::Protocol(error)
    }
}


impl From<EncodeError> for RpcError {
    fn from(error: EncodeError) -> (e: RpcError)
        ensures
            e == RpcError::Serialization(error),
    {
        RpcError::Serialization(error)
    }
}

impl vstd::std_specs::convert::FromSpecImpl<EncodeError> for RpcError {
    open spec fn obeys_from_spec() -> bool {
        true
    }

    open spec fn from_spec(error: EncodeError) -> RpcError {
        RpcError::Serialization(error)
    }
}

impl From<DecodeError> for RpcError {
    fn from(error: DecodeError) -> (e: RpcError)
        ensures
            e == RpcError::Deserialization(error),
    {
        RpcError::Deserialization(error)
    }
}

impl vstd::std_specs::convert::FromSpecImpl<DecodeError> for RpcError {
    open spec fn obeys_from_spec() -> bool {
        true
    }

    open spec fn from_spec(error: DecodeError) -> RpcError {
        RpcError::Deserialization(error)
    }
}

impl From<rmp_serde::encode::Error> for RpcError {
    fn from(error: rmp_serde::encode::Error) -> (e: RpcError)
        ensures
            e == RpcError::RequestSerialization(error),
    {
        RpcError::RequestSerialization(error)
    }
}

impl vstd::std_specs::convert::FromSpecImpl<rmp_serde::encode::Error> for RpcError {
    open spec fn obeys_from_spec() -> bool {
        true
    }

    open spec fn from_spec(error: rmp_serde::encode::Error) -> RpcError {
        RpcError::RequestSerialization(error)
    }
}

impl From<rmp_serde::decode::Error> for RpcError {
    fn from(error: rmp_serde::decode::Error) -> (e: RpcError)
        ensures
            e == RpcError::ResponseDeserialization(error),
    {
        RpcError::ResponseDeserialization(error)
    }
}

impl vstd::std_specs::convert::FromSpecImpl<rmp_serde::decode::Error> for RpcError {
    open spec fn obeys_from_spec() -> bool {
        true
    }

    open spec fn from_spec(error: rmp_serde::decode::Error) -> RpcError {
        RpcError::ResponseDeserialization(error)
    }
}


/// Formats an I/O error with its `Display` impl.
///
/// Wraps `std::io::Error`'s `Display`; nothing is stated of the text, which
/// depends on an error value that this crate does not look into.
#[verifier::external_body]
fn io_error_text(error: &std::io::Error) -> String {
    format!("{}", error)
}

/// The text that `tokio::task::JoinError`'s `Display` writes for a join failure.
pub uninterp spec fn join_error_display(error: tokio::task::JoinError) -> Seq<char>;

/// Formats a task join failure with its `Display` impl.
///
/// Wraps `tokio::task::JoinError`'s `Display`. The contract claims only that the
/// text is a function of the error; what it spells out (the task id, and whether
/// the task was cancelled or panicked) is left to the name `join_error_display`.
#[verifier::external_body]
pub(crate) fn join_error_text(error: &tokio::task::JoinError) -> (r: String)
    ensures
        r@ == join_error_display(*error),
{
    format!("{}", error)
}

/// Formats a typed-encoding failure with its `Display` impl.
///
/// Wraps `rmp_serde::encode::Error`'s `Display`; nothing is stated of the text.
#[verifier::external_body]
fn serde_encode_error_text(error: &rmp_serde::encode::Error) -> String {
    format!("{}", error)
}

/// Formats a typed-decoding failure with its `Display` impl.
///
/// Wraps `rmp_serde::decode::Error`'s `Display`; nothing is stated of the text.
#[verifier::external_body]
fn serde_decode_error_text(error: &rmp_serde::decode::Error) -> String {
    format!("{}", error)
}

/// The display text of a protocol error.
pub open spec fn protocol_error_text(e: ProtocolError) -> Seq<char> {
    match e {
        ProtocolError::InvalidMessageType(t) => "Invalid message type: "@ + decimal(t as nat),
        ProtocolError::DepthLimitExceeded => "Depth limit exceeded"@,
        ProtocolError::ListenerNotConfigured => "No listener configured"@,
        ProtocolError::MissingSocketAddr => "Listener has no SocketAddr"@,
        ProtocolError::ExpectedSingleParameter => "Expected exactly one parameter"@,
        ProtocolError::ResourceAlreadyTaken { resource } => "Resource already taken: "@ + resource@,
        ProtocolError::TaskFailed { task, source } => "Task '"@ + task@ + "' failed: "@
            + join_error_display(source),
        ProtocolError::UnexpectedResponse { id } => "Unexpected response id: "@ + decimal(id as nat),
        ProtocolError::MalformedMessage(m) => "Malformed message: "@ + m@,
    }
}

/// The display text of a value-decoding failure; `cause` stands for the text of
/// the I/O error it carries.
pub open spec fn decode_error_text(e: DecodeError, cause: Seq<char>) -> Seq<char> {
    match e {
        DecodeError::InvalidMarkerRead(_) => "I/O error while reading marker byte: "@ + cause,
        DecodeError::InvalidDataRead(_) => "I/O error while reading non-marker bytes: "@ + cause,
        DecodeError::DepthLimitExceeded => "depth limit exceeded"@,
    }
}

/// The display text of a service error: its name, then its details as
/// `rmpv::Value`'s `Debug` writes them.
pub open spec fn service_error_text(e: ServiceError) -> Seq<char> {
    "Service error "@ + e.name@ + ": "@ + pack_debug(canonical(e.value@))
}

/// The display text of an RPC error; `cause` stands for the text of the I/O or
/// typed-codec error that the variant carries, if any.
pub open spec fn rpc_error_text(e: RpcError, cause: Seq<char>) -> Seq<char> {
    match e {
        RpcError::Io(_) => "I/O error: "@ + cause,
        RpcError::Connect { .. } => "Connection failed"@,
        RpcError::Serialization(_) => "Serialization error: "@
            + "error while writing multi-byte MessagePack value"@,
        RpcError::Deserialization(d) => "Deserialization error: "@ + decode_error_text(d, cause),
        RpcError::RequestSerialization(_) => "Request serialization error: "@ + cause,
        RpcError::ResponseDeserialization(_) => "Response deserialization error: "@ + cause,
        RpcError::Protocol(p) => protocol_error_text(p),
        RpcError::Service(s) => "Service error: "@ + service_error_text(s),
        RpcError::Disconnect { .. } => "Connection disconnected"@,
    }
}

impl ProtocolError {
    /// The error's display text.
    pub fn display_text(&self) -> (s: String)
        ensures
            s@ == protocol_error_text(*self),
    {
        let s = match self {
            ProtocolError::InvalidMessageType(t) => {
                let mut s = "Invalid message type: ".to_string();
                push_decimal(&mut s, *t);
                s
            },
            ProtocolError::DepthLimitExceeded => "Depth limit exceeded".to_string(),
            ProtocolError::ListenerNotConfigured => "No listener configured".to_string(),
            ProtocolError::MissingSocketAddr => "Listener has no SocketAddr".to_string(),
            ProtocolError::ExpectedSingleParameter => "Expected exactly one parameter".to_string(),
            ProtocolError::ResourceAlreadyTaken { resource } => {
                let mut s = "Resource already taken: ".to_string();
                s.append(resource);
                s
            },
            ProtocolError::TaskFailed { task, source } => {
                let mut s = "Task '".to_string();
                s.append(task);
                s.append("' failed: ");
                let text = join_error_text(source);
                s.append(text.as_str());
                s
            },
            ProtocolError::UnexpectedResponse { id } => {
                let mut s = "Unexpected response id: ".to_string();
                push_decimal(&mut s, *id as u64);
                s
            },
            ProtocolError::MalformedMessage(m) => {
                let mut s = "Malformed message: ".to_string();
                s.append(m.as_str());
                s
            },
        };
        assert(s@ == protocol_error_text(*self));
        s
    }
}


impl DecodeError {
    /// The error's display text.
    pub fn display_text(&self) -> (s: String)
        ensures
            exists|cause: Seq<char>| s@ == decode_error_text(*self, cause),
    {
        let ghost mut cause = Seq::<char>::empty();
        let s = match self {
            DecodeError::InvalidMarkerRead(e) => {
                let mut s = "I/O error while reading marker byte: ".to_string();
                let text = io_error_text(e);
                s.append(text.as_str());
                proof {
                    cause = text@;
                }
                s
            },
            DecodeError::InvalidDataRead(e) => {
                let mut s = "I/O error while reading non-marker bytes: ".to_string();
                let text = io_error_text(e);
                s.append(text.as_str());
                proof {
                    cause = text@;
                }
                s
            },
            DecodeError::DepthLimitExceeded => "depth limit exceeded".to_string(),
        };
        assert(s@ == decode_error_text(*self, cause));
        s
    }
}

impl RpcError {
    /// The error's display text.
    pub fn display_text(&self) -> (s: String)
        ensures
            exists|cause: Seq<char>| s@ == rpc_error_text(*self, cause),
    {
        let ghost mut cause = Seq::<char>::empty();
        let s = match self {
            RpcError::Io(e) => {
                let mut s = "I/O error: ".to_string();
                let text = io_error_text(e);
                s.append(text.as_str());
                proof {
                    cause = text@;
                }
                s
            },
            RpcError::Connect { .. } => "Connection failed".to_string(),
            RpcError::Serialization(_) => {
                let mut s = "Serialization error: ".to_string();
                s.append("error while writing multi-byte MessagePack value");
                s
            },
            RpcError::Deserialization(d) => {
                let mut s = "Deserialization error: ".to_string();
                let text = d.display_text();
                s.append(text.as_str());
                let ghost c = choose|c: Seq<char>| text@ == decode_error_text(*d, c);
                proof {
                    cause = c;
                }
                s
            },
            RpcError::RequestSerialization(e) => {
                let mut s = "Request serialization error: ".to_string();
                let text = serde_encode_error_text(e);
                s.append(text.as_str());
                proof {
                    cause = text@;
                }
                s
            },
            RpcError::ResponseDeserialization(e) => {
                let mut s = "Response deserialization error: ".to_string();
                let text = serde_decode_error_text(e);
                s.append(text.as_str());
                proof {
                    cause = text@;
                }
                s
            },
            RpcError::Protocol(p) => p.display_text(),
            RpcError::Service(e) => {
                let mut s = "Service error: ".to_string();
                let text = e.display_text();
                s.append(text.as_str());
                s
            },
            RpcError::Disconnect { .. } => "Connection disconnected".to_string(),
        };
        assert(s@ == rpc_error_text(*self, cause));
        s
    }
}


impl ServiceError {
    /// The error's display text: its name, then its details as `rmpv::Value`'s
    /// `Debug` prints them.
    pub fn display_text(&self) -> (s: String)
        ensures
            s@ == service_error_text(*self),
    {
        let mut s = "Service error ".to_string();
        s.append(self.name.as_str());
        s.append(": ");
        let details = pack_debug_text(&value_to_pack(&self.value));
        s.append(details.as_str());
        s
    }
}

} // verus!

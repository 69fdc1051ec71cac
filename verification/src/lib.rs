//! MessagePack-RPC protocol core.
//!
//! Messages are requests, responses and notifications, framed as MessagePack
//! arrays. This crate holds the verified protocol logic: the value model, the
//! framing of messages as values, the reading of values from bytes through
//! `rmpv`, the encoding of service errors, the
//! bookkeeping of pending requests and the routing of responses, and the
//! decisions of the connection reader, handler and server accept loop.

pub mod codec;
pub mod connection;
pub mod error;
pub mod message;
pub mod outside;
pub mod text;
pub mod transport;
pub mod value;

pub use codec::{
    PackNode, decode_value, encode_value, try_decode_message, value_from_pack, value_to_pack,
};
pub use connection::{
    ConnectionMaker, HandlerAction, HandlerEvent, ReadBuffer, ReadProgress, ReaderAction,
    RpcConnection, classify_read, handler_step, method_not_found, method_not_implemented,
    params_from_value, read_progress, reader_step, request_payload, response_for_request,
    single_param,
};
pub use error::{DecodeError, EncodeError, IoErrorKind, ProtocolError, RpcError, ServiceError};
pub use message::{Message, Notification, Request, Response};
pub use transport::{
    ListenerAction, ListenerEvent, bound_local_addr, configured_listener, join_failure,
    listener_step, server_local_addr,
};
pub use value::{Integer, Utf8String, Value};

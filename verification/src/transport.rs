//! The decisions of servers and clients: which address a server reports, when
//! it can start, how a failed background task is reported, and what its accept
//! loop does with each event. Sockets and tasks are driven by the caller.
use vstd::prelude::*;

use crate::error::{ProtocolError, RpcError, join_error_display, join_error_text};

verus! {

/// The bound address of a server: an error when no listener is configured, or
/// when the listener has no socket address.
pub fn server_local_addr<A>(listener_configured: bool, local_addr: Option<A>) -> (r: Result<A, RpcError>)
    ensures
        !listener_configured ==> r matches Err(RpcError::Protocol(ProtocolError::ListenerNotConfigured)),
        listener_configured ==> match local_addr {
            Some(a) => r == Ok::<A, RpcError>(a),
            None => r matches Err(RpcError::Protocol(ProtocolError::MissingSocketAddr)),
        },
{
    if !listener_configured {
        return Err(RpcError::Protocol(ProtocolError::ListenerNotConfigured));
    }
    bound_local_addr(local_addr)
}

/// The bound address of a running server: an error when its listener has no
/// socket address.
pub fn bound_local_addr<A>(local_addr: Option<A>) -> (r: Result<A, RpcError>)
    ensures
        match local_addr {
            Some(a) => r == Ok::<A, RpcError>(a),
            None => r matches Err(RpcError::Protocol(ProtocolError::MissingSocketAddr)),
        },
{
    match local_addr {
        Some(a) => Ok(a),
        None => Err(RpcError::Protocol(ProtocolError::MissingSocketAddr)),
    }
}

/// The listener a server starts with: an error when none is configured.
pub fn configured_listener<L>(listener: Option<L>) -> (r: Result<L, RpcError>)
    ensures
        match listener {
            Some(l) => r == Ok::<L, RpcError>(l),
            None => r matches Err(RpcError::Protocol(ProtocolError::ListenerNotConfigured)),
        },
{
    match listener {
        Some(l) => Ok(l),
        None => Err(RpcError::Protocol(ProtocolError::ListenerNotConfigured)),
    }
}

/// The error that reports a background task that did not finish normally: a
/// protocol error holding the join failure's display text.
pub fn join_failure(error: tokio::task::JoinError) -> (e: RpcError)
    ensures
        e matches RpcError::Protocol(ProtocolError::MalformedMessage(s))
            && s@ == join_error_display(error),
{
    RpcError::Protocol(ProtocolError::MalformedMessage(join_error_text(&error)))
}

/// Something that the accept loop of a server waits for.
pub enum ListenerEvent<S> {
    /// The shutdown signal changed; it now holds this value.
    ShutdownChanged(bool),
    /// The listener accepted a connection, or failed.
    Accepted(Result<S, RpcError>),
    /// The task that served one connection finished.
    ConnectionFinished(Result<(), tokio::task::JoinError>),
}

/// What the accept loop of a server does next.
pub enum ListenerAction<S> {
    /// Serve this connection in a task of its own.
    Serve(S),
    /// Keep waiting.
    Continue,
    /// Report that a connection task failed, and keep waiting.
    ReportJoinFailure(tokio::task::JoinError),
    /// Stop accepting, cancel the connection tasks, and end with this outcome.
    Stop(Result<(), RpcError>),
}

/// Decides what the accept loop does with one event.
pub fn listener_step<S>(event: ListenerEvent<S>) -> (a: ListenerAction<S>)
    ensures
        match event {
            ListenerEvent::ShutdownChanged(true) => a == ListenerAction::<S>::Stop(Ok(())),
            ListenerEvent::ShutdownChanged(false) => a is Continue,
            ListenerEvent::Accepted(Ok(s)) => a == ListenerAction::Serve(s),
            ListenerEvent::Accepted(Err(e)) => a == ListenerAction::<S>::Stop(Err(e)),
            ListenerEvent::ConnectionFinished(Ok(())) => a is Continue,
            ListenerEvent::ConnectionFinished(Err(j)) => a == ListenerAction::<S>::ReportJoinFailure(j),
        },
{
    match event {
        ListenerEvent::ShutdownChanged(stop) => if stop {
            ListenerAction::Stop(Ok(()))
        } else {
            ListenerAction::Continue
        },
        ListenerEvent::Accepted(Ok(stream)) => ListenerAction::Serve(stream),
        ListenerEvent::Accepted(Err(e)) => ListenerAction::Stop(Err(e)),
        ListenerEvent::ConnectionFinished(Ok(())) => ListenerAction::Continue,
        ListenerEvent::ConnectionFinished(Err(j)) => ListenerAction::ReportJoinFailure(j),
    }
}

} // verus!

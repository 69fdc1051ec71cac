use mrpc::{
    ListenerAction, ListenerEvent, ProtocolError, RpcError, bound_local_addr, configured_listener,
    join_failure, listener_step, server_local_addr,
};

fn malformed(e: RpcError) -> String {
    match e {
        RpcError::Protocol(ProtocolError::MalformedMessage(s)) => s,
        other => panic!("expected a malformed-message error, got {other:?}"),
    }
}

fn cancelled_task() -> tokio::task::JoinError {
    let runtime = tokio::runtime::Builder::new_current_thread().enable_all().build().unwrap();
    runtime.block_on(async {
        let handle = tokio::spawn(async {
            std::future::pending::<()>().await;
        });
        handle.abort();
        handle.await.unwrap_err()
    })
}

#[test]
fn a_server_reports_its_address_only_with_a_listener() {
    assert!(matches!(
        server_local_addr::<u16>(false, Some(80)),
        Err(RpcError::Protocol(ProtocolError::ListenerNotConfigured))
    ));
    assert_eq!(server_local_addr(true, Some(80u16)).unwrap(), 80);
    assert!(matches!(
        server_local_addr::<u16>(true, None),
        Err(RpcError::Protocol(ProtocolError::MissingSocketAddr))
    ));
    assert_eq!(bound_local_addr(Some(8080u16)).unwrap(), 8080);
    assert!(matches!(bound_local_addr::<u16>(None), Err(RpcError::Protocol(ProtocolError::MissingSocketAddr))));
}

#[test]
fn a_server_starts_only_with_a_listener() {
    assert_eq!(configured_listener(Some("l")).unwrap(), "l");
    assert!(matches!(
        configured_listener::<&str>(None),
        Err(RpcError::Protocol(ProtocolError::ListenerNotConfigured))
    ));
}

#[test]
fn a_failed_task_is_reported_with_its_text() {
    let text = malformed(join_failure(cancelled_task()));
    assert!(text.contains("cancelled"), "{text}");
}

#[test]
fn the_accept_loop_serves_until_shutdown() {
    assert!(matches!(listener_step::<u8>(ListenerEvent::ShutdownChanged(true)), ListenerAction::Stop(Ok(()))));
    assert!(matches!(listener_step::<u8>(ListenerEvent::ShutdownChanged(false)), ListenerAction::Continue));
    assert!(matches!(listener_step(ListenerEvent::Accepted(Ok(7u8))), ListenerAction::Serve(7)));
    assert!(matches!(
        listener_step::<u8>(ListenerEvent::Accepted(Err(RpcError::Disconnect { source: None }))),
        ListenerAction::Stop(Err(RpcError::Disconnect { .. }))
    ));
    assert!(matches!(listener_step::<u8>(ListenerEvent::ConnectionFinished(Ok(()))), ListenerAction::Continue));
    assert!(matches!(
        listener_step::<u8>(ListenerEvent::ConnectionFinished(Err(cancelled_task()))),
        ListenerAction::ReportJoinFailure(_)
    ));
}

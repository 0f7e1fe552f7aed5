use nesquic::client::{
    check_request_sent, remote_port, ClientError, ConnState, ConnectAction, ConnectEvent, Handshake,
    ReadAction, StreamCreate, Transfer, TransferAction, TransferEvent,
};

#[test]
fn handshake_connects() {
    let mut h = Handshake::new();
    assert!(!h.is_connected());
    assert_eq!(h.on_event(ConnectEvent::AuthenticationNeeded), Ok(ConnectAction::Authenticate));
    assert!(!h.is_connected());
    assert_eq!(h.on_event(ConnectEvent::StateChange(ConnState::Other)), Ok(ConnectAction::Nothing));
    assert_eq!(h.on_event(ConnectEvent::StateChange(ConnState::Connected)), Ok(ConnectAction::Nothing));
    assert!(h.is_connected());
    assert_eq!(h.on_event(ConnectEvent::Other), Ok(ConnectAction::Nothing));
    assert!(h.is_connected());
}

#[test]
fn handshake_confirmed_counts_as_connected() {
    let mut h = Handshake::new();
    h.on_event(ConnectEvent::StateChange(ConnState::Confirmed)).unwrap();
    assert!(h.is_connected());
}

#[test]
fn handshake_failures() {
    let mut h = Handshake::new();
    assert_eq!(
        h.on_event(ConnectEvent::StateChange(ConnState::Closing { error: true })),
        Err(ClientError::ClosingWithError)
    );
    assert_eq!(
        h.on_event(ConnectEvent::StateChange(ConnState::Draining { error: true })),
        Err(ClientError::ClosingWithError)
    );
    assert_eq!(
        h.on_event(ConnectEvent::StateChange(ConnState::Closed { error: true })),
        Err(ClientError::ClosedWithError)
    );
    assert_eq!(
        h.on_event(ConnectEvent::StateChange(ConnState::Closed { error: false })),
        Err(ClientError::ClosedDuringHandshake)
    );
    assert_eq!(
        h.on_event(ConnectEvent::StateChange(ConnState::Draining { error: false })),
        Ok(ConnectAction::Nothing)
    );
    assert!(!h.is_connected());
}

#[test]
fn port_defaults_to_4433() {
    assert_eq!(remote_port(None), 4433);
    assert_eq!(remote_port(Some(443)), 443);
}

#[test]
fn request_must_go_out_whole() {
    assert_eq!(check_request_sent(8), Ok(()));
    assert_eq!(check_request_sent(5), Err(ClientError::ShortRequest { sent: 5 }));
    assert_eq!(check_request_sent(0), Err(ClientError::ShortRequest { sent: 0 }));
}

#[test]
fn transfer_reads_until_fin() {
    let mut t = Transfer::new(100);
    assert_eq!(t.on_event(TransferEvent::Readable { stream: 4 }), Ok(TransferAction::Nothing));
    assert_eq!(t.on_stream_create(StreamCreate::Created(4)), Ok(TransferAction::SendRequest));
    assert_eq!(t.stream, Some(4));
    assert_eq!(t.on_event(TransferEvent::Readable { stream: 8 }), Ok(TransferAction::Nothing));
    assert_eq!(t.on_event(TransferEvent::Readable { stream: 4 }), Ok(TransferAction::ReadStream));
    assert_eq!(t.on_data(60, false), ReadAction::KeepReading);
    assert_eq!(t.on_data(0, false), ReadAction::StopReading);
    assert!(!t.is_done());
    assert_eq!(t.on_data(40, true), ReadAction::StopReading);
    assert!(t.is_done());
    assert_eq!(t.received, 100);
    assert_eq!(t.finish(), Ok(()));
}

#[test]
fn transfer_size_mismatch() {
    let mut t = Transfer::new(100);
    t.on_data(99, true);
    assert_eq!(t.finish(), Err(ClientError::SizeMismatch { received: 99, requested: 100 }));
    let mut t = Transfer::new(10);
    t.on_data(11, true);
    assert_eq!(t.finish(), Err(ClientError::SizeMismatch { received: 11, requested: 10 }));
}

#[test]
fn transfer_close() {
    let t = Transfer::new(1);
    assert_eq!(t.on_event(TransferEvent::Closed { error: true }), Err(ClientError::ClosedDuringTransfer));
    assert_eq!(t.on_event(TransferEvent::Closed { error: false }), Ok(TransferAction::Nothing));
    assert_eq!(t.on_event(TransferEvent::Other), Ok(TransferAction::Nothing));
}

#[test]
fn received_is_sum_of_reads() {
    let mut t = Transfer::new(6);
    for (n, fin) in [(1, false), (2, false), (0, false), (3, true)] {
        t.on_data(n, fin);
    }
    assert_eq!(t.received, 6);
    assert!(t.is_done());
}

#[test]
fn stream_limit_then_retry() {
    let mut t = Transfer::new(10);
    assert_eq!(t.on_stream_create(StreamCreate::Limited), Ok(TransferAction::Nothing));
    assert_eq!(t.stream, None);
    assert_eq!(t.on_event(TransferEvent::StreamCreatable { bidi: false }), Ok(TransferAction::Nothing));
    assert_eq!(t.on_event(TransferEvent::StreamCreatable { bidi: true }), Ok(TransferAction::CreateStream));
    assert_eq!(t.on_stream_create(StreamCreate::Created(8)), Ok(TransferAction::SendRequest));
    assert_eq!(t.on_event(TransferEvent::StreamCreatable { bidi: true }), Ok(TransferAction::Nothing));
}

#[test]
fn stream_create_failure() {
    let mut t = Transfer::new(10);
    assert_eq!(t.on_stream_create(StreamCreate::Failed), Err(ClientError::StreamCreateFailed));
    assert_eq!(t.stream, None);
}

#[test]
fn clean_close_during_handshake_fails() {
    let mut h = Handshake::new();
    assert_eq!(
        h.on_event(ConnectEvent::StateChange(ConnState::Closed { error: false })),
        Err(ClientError::ClosedDuringHandshake)
    );
}

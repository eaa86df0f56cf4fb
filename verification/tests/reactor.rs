use notcat::msg_srv::AcceptOutcome;
use notcat::msg_srv::AcceptStep;
use notcat::msg_srv::ClientFate;
use notcat::msg_srv::ClientSet;
use notcat::msg_srv::EpollServer;
use notcat::msg_srv::ReadOutcome;
use notcat::msg_srv::ReadStep;
use notcat::msg_srv::Wake;
use notcat::msg_srv::MAX_CLIENTS_QUEUE;
use notcat::msg_srv::MAX_EVENTS;
use notcat::msg_srv::READ_BUFFER_SZ;
use notcat::msg_srv::SOCKET_NAME;
use notcat::prot_handler::ClientData;
use notcat::prot_handler::ClientError;
use notcat::prot_handler::LogPacket;
use notcat::prot_handler::ProtocolHandler;
use tokio::sync::mpsc::unbounded_channel;

#[test]
fn reactor_constants() {
    assert_eq!(SOCKET_NAME, "notcat_socket");
    assert_eq!(MAX_CLIENTS_QUEUE, 16);
    assert_eq!(MAX_EVENTS, 16);
    assert!(READ_BUFFER_SZ >= 8 * 1024);
}

#[test]
fn the_listener_accepts() {
    assert_eq!(EpollServer::classify(3, 3, true, false, false), Wake::Accept);
    assert_eq!(EpollServer::classify(3, 3, false, true, true), Wake::Accept);
}

#[test]
fn a_readable_client_is_drained() {
    assert_eq!(EpollServer::classify(4, 3, true, false, false), Wake::Drain);
    assert_eq!(EpollServer::classify(4, 3, true, true, false), Wake::Drain);
    assert_eq!(EpollServer::classify(4, 3, true, true, true), Wake::Drain);
}

#[test]
fn hangup_or_error_lets_the_client_go() {
    assert_eq!(EpollServer::classify(4, 3, false, true, false), Wake::Disconnect);
    assert_eq!(EpollServer::classify(4, 3, false, false, true), Wake::Disconnect);
    assert_eq!(EpollServer::classify(4, 3, false, true, true), Wake::Disconnect);
    assert_eq!(EpollServer::classify(4, 3, false, false, false), Wake::Ignore);
}

#[test]
fn what_follows_a_read() {
    assert_eq!(EpollServer::after_read(ReadOutcome::Data(0)), ReadStep::Disconnect);
    assert_eq!(EpollServer::after_read(ReadOutcome::Data(1)), ReadStep::Append);
    assert_eq!(EpollServer::after_read(ReadOutcome::Data(8192)), ReadStep::Append);
    assert_eq!(EpollServer::after_read(ReadOutcome::WouldBlock), ReadStep::Decode);
    assert_eq!(EpollServer::after_read(ReadOutcome::Failed), ReadStep::Disconnect);
}

#[test]
fn what_follows_the_decoder() {
    assert_eq!(EpollServer::after_decode(&Ok(())), ClientFate::Keep);
    assert_eq!(
        EpollServer::after_decode(&Err(ClientError::InternalError)),
        ClientFate::Keep
    );
    assert_eq!(
        EpollServer::after_decode(&Err(ClientError::IncorrectMessageSize(3))),
        ClientFate::Keep
    );
    assert_eq!(
        EpollServer::after_decode(&Err(ClientError::IncorrectMagic(1))),
        ClientFate::Disconnect
    );
    assert_eq!(
        EpollServer::after_decode(&Err(ClientError::IncorrectVersion(2))),
        ClientFate::Disconnect
    );
    assert_eq!(
        EpollServer::after_decode(&Err(ClientError::IncorrectHeaderSize(0))),
        ClientFate::Disconnect
    );
}

#[test]
fn accepting_goes_on_until_nothing_waits() {
    let mut clients = ClientSet::new();
    assert_eq!(
        EpollServer::after_accept(&mut clients, AcceptOutcome::Registered(5)),
        AcceptStep::Again
    );
    assert!(clients.owns(5));
    assert_eq!(
        EpollServer::after_accept(&mut clients, AcceptOutcome::Unregistered(6)),
        AcceptStep::CloseThenAgain(6)
    );
    assert!(!clients.owns(6));
    assert_eq!(
        EpollServer::after_accept(&mut clients, AcceptOutcome::WouldBlock),
        AcceptStep::Stop
    );
    assert_eq!(
        EpollServer::after_accept(&mut clients, AcceptOutcome::Failed),
        AcceptStep::Stop
    );
    assert!(clients.owns(5));
}

#[test]
fn the_bytes_of_a_wake_are_joined() {
    let mut wake = Vec::new();
    assert_eq!(
        EpollServer::after_chunk(&mut wake, b"abc", ReadOutcome::Data(3)),
        ReadStep::Append
    );
    assert_eq!(
        EpollServer::after_chunk(&mut wake, b"de", ReadOutcome::Data(2)),
        ReadStep::Append
    );
    assert_eq!(wake, b"abcde".to_vec());
    assert_eq!(
        EpollServer::after_chunk(&mut wake, b"", ReadOutcome::WouldBlock),
        ReadStep::Decode
    );
    assert_eq!(wake, b"abcde".to_vec());
    assert_eq!(
        EpollServer::after_chunk(&mut wake, b"", ReadOutcome::Data(0)),
        ReadStep::Disconnect
    );
    assert_eq!(
        EpollServer::after_chunk(&mut wake, b"", ReadOutcome::Failed),
        ReadStep::Disconnect
    );
    assert_eq!(wake, b"abcde".to_vec());
}

#[test]
fn a_wake_with_a_bad_magic_closes_the_client_once() {
    let (tx, mut rx) = unbounded_channel::<LogPacket>();
    let mut handler = ProtocolHandler::new(tx);
    let mut clients = ClientSet::new();
    clients.adopt(9);
    let bytes = [0xde, 0xad, 0xbe, 0xef, 0x01, 0x00, 0x00, 0x00, 0x2a, 0x03];
    assert!(EpollServer::wake_done(
        &mut clients,
        &mut handler,
        9,
        &bytes,
        ReadOutcome::WouldBlock
    ).0);
    assert!(!clients.owns(9));
    assert_eq!(handler.session(9), None);
    assert!(rx.try_recv().is_err());
    // A stale event for the same descriptor closes nothing.
    assert!(!EpollServer::wake_done(
        &mut clients,
        &mut handler,
        9,
        &bytes,
        ReadOutcome::WouldBlock
    ).0);
    assert!(!EpollServer::wake_done(&mut clients, &mut handler, 9, &[], ReadOutcome::Data(0)).0);
}

#[test]
fn a_client_that_closes_after_a_short_frame_is_released() {
    let (tx, mut rx) = unbounded_channel::<LogPacket>();
    let mut handler = ProtocolHandler::new(tx);
    let mut clients = ClientSet::new();
    clients.adopt(4);
    let mut bytes = vec![0xb0, 0x5a, 0xca, 0xfe, 0x01, 0x00, 0x00, 0x00, 0x2a, 0x03];
    bytes.extend_from_slice(&[0x00, 0x00, 0x00, 0x08, 0x02]);
    bytes.extend_from_slice(&[0x07, 0xe8, 0x01, 0x01, 0x0c, 0x1e, 0x2d, 0x00, 0xc8]);
    bytes.extend_from_slice(b"abcd");
    assert!(!EpollServer::wake_done(
        &mut clients,
        &mut handler,
        4,
        &bytes,
        ReadOutcome::WouldBlock
    ).0);
    assert!(clients.owns(4));
    assert_eq!(
        handler.session(4),
        Some(ClientData { version: 1, pid: 42, sink_type: 3 })
    );
    assert!(EpollServer::wake_done(&mut clients, &mut handler, 4, &[], ReadOutcome::Data(0)).0);
    assert!(!clients.owns(4));
    assert_eq!(handler.session(4), None);
    assert!(rx.try_recv().is_err());
}

#[test]
fn bytes_read_before_the_end_of_the_stream_are_dropped() {
    let (tx, mut rx) = unbounded_channel::<LogPacket>();
    let mut handler = ProtocolHandler::new(tx);
    let mut clients = ClientSet::new();
    clients.adopt(4);
    let mut bytes = vec![0xb0, 0x5a, 0xca, 0xfe, 0x01, 0x00, 0x00, 0x00, 0x2a, 0x03];
    bytes.extend_from_slice(&[0x00, 0x00, 0x00, 0x01, 0x02]);
    bytes.extend_from_slice(&[0x07, 0xe8, 0x01, 0x01, 0x0c, 0x1e, 0x2d, 0x00, 0xc8]);
    bytes.extend_from_slice(b"x");
    assert!(EpollServer::wake_done(&mut clients, &mut handler, 4, &bytes, ReadOutcome::Failed).0);
    assert_eq!(handler.session(4), None);
    assert!(rx.try_recv().is_err());
}

#[test]
fn a_read_that_brought_bytes_ends_no_wake() {
    let (tx, _rx) = unbounded_channel::<LogPacket>();
    let mut handler = ProtocolHandler::new(tx);
    let mut clients = ClientSet::new();
    clients.adopt(4);
    assert!(!EpollServer::wake_done(&mut clients, &mut handler, 4, b"abc", ReadOutcome::Data(3)).0);
    assert!(clients.owns(4));
    assert_eq!(handler.session(4), None);
}

#[test]
fn the_end_of_a_wake_reports_the_decoder() {
    let (tx, _rx) = unbounded_channel::<LogPacket>();
    let mut handler = ProtocolHandler::new(tx);
    let mut clients = ClientSet::new();
    clients.adopt(3);
    let bad = [0xde, 0xad, 0xbe, 0xef, 0x01, 0x00, 0x00, 0x00, 0x2a, 0x03];
    assert_eq!(
        EpollServer::wake_done(&mut clients, &mut handler, 3, &bad, ReadOutcome::WouldBlock),
        (true, Err(ClientError::IncorrectMagic(0xdeadbeef)))
    );
    clients.adopt(3);
    assert_eq!(
        EpollServer::wake_done(&mut clients, &mut handler, 3, &bad, ReadOutcome::Data(0)),
        (true, Ok(()))
    );
    clients.adopt(3);
    let good = [0xb0, 0x5a, 0xca, 0xfe, 0x01, 0x00, 0x00, 0x00, 0x2a, 0x03, 0x00];
    assert_eq!(
        EpollServer::wake_done(&mut clients, &mut handler, 3, &good, ReadOutcome::WouldBlock),
        (false, Err(ClientError::IncorrectMessageSize(1)))
    );
}

#[test]
fn a_good_wake_keeps_the_client_and_forwards_its_records() {
    let (tx, mut rx) = unbounded_channel::<LogPacket>();
    let mut handler = ProtocolHandler::new(tx);
    let mut clients = ClientSet::new();
    clients.adopt(4);
    let mut bytes = vec![0xb0, 0x5a, 0xca, 0xfe, 0x01, 0x00, 0x00, 0x00, 0x2a, 0x03];
    bytes.extend_from_slice(&[0x00, 0x00, 0x00, 0x02, 0x02]);
    bytes.extend_from_slice(&[0x07, 0xe8, 0x01, 0x01, 0x0c, 0x1e, 0x2d, 0x00, 0xc8]);
    bytes.extend_from_slice(b"ok");
    assert!(!EpollServer::wake_done(
        &mut clients,
        &mut handler,
        4,
        &bytes,
        ReadOutcome::WouldBlock
    ).0);
    assert!(clients.owns(4));
    assert_eq!(rx.try_recv().unwrap().message, b"ok".to_vec());
}

#[test]
fn a_descriptor_is_released_once() {
    let (tx, _rx) = unbounded_channel::<LogPacket>();
    let mut handler = ProtocolHandler::new(tx);
    let mut clients = ClientSet::new();
    assert!(!clients.owns(5));
    assert!(clients.adopt(5));
    assert!(!clients.adopt(5));
    assert!(clients.adopt(6));
    let handshake = [0xb0, 0x5a, 0xca, 0xfe, 0x01, 0x00, 0x00, 0x00, 0x2a, 0x03];
    assert_eq!(
        EpollServer::client_data(&mut handler, 5, &handshake),
        (ClientFate::Keep, Ok(()))
    );
    assert_eq!(
        handler.session(5),
        Some(ClientData { version: 1, pid: 42, sink_type: 3 })
    );
    assert!(clients.release(&mut handler, 5));
    assert_eq!(handler.session(5), None);
    assert!(!clients.owns(5));
    assert!(clients.owns(6));
    assert!(!clients.release(&mut handler, 5));
    assert!(!clients.release(&mut handler, 7));
    assert!(clients.release(&mut handler, 6));
}

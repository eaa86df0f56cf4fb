use notcat::msg_srv::ClientFate;
use notcat::msg_srv::EpollServer;
use notcat::prot_handler::decode_buffer;
use notcat::prot_handler::read_frame;
use notcat::prot_handler::read_handshake;
use notcat::prot_handler::ClientData;
use notcat::prot_handler::ClientError;
use notcat::prot_handler::LogPacket;
use notcat::prot_handler::ProtocolHandler;
use notcat::prot_handler::CONN_MAGIC;
use notcat::prot_handler::CURRENT_VERSION;
use notcat::prot_handler::VERSION_1_HSH_SZ;
use notcat::prot_handler::VERSION_1_MSG_SZ;
use tokio::sync::mpsc::error::TryRecvError;
use tokio::sync::mpsc::unbounded_channel;

const HANDSHAKE: [u8; 10] = [0xb0, 0x5a, 0xca, 0xfe, 0x01, 0x00, 0x00, 0x00, 0x2a, 0x03];

const STAMP: [u8; 9] = [0x07, 0xe8, 0x01, 0x01, 0x0c, 0x1e, 0x2d, 0x00, 0xc8];

fn frame(priority: u8, stamp: &[u8; 9], payload: &[u8]) -> Vec<u8> {
    let mut bytes = Vec::new();
    bytes.extend_from_slice(&(payload.len() as u32).to_be_bytes());
    bytes.push(priority);
    bytes.extend_from_slice(stamp);
    bytes.extend_from_slice(payload);
    bytes
}

fn session() -> ClientData {
    ClientData { version: 1, pid: 42, sink_type: 3 }
}

#[test]
fn wire_constants() {
    assert_eq!(CONN_MAGIC, 0xb05acafe);
    assert_eq!(CURRENT_VERSION, 1);
    assert_eq!(VERSION_1_HSH_SZ, 10);
    assert_eq!(VERSION_1_MSG_SZ, 14);
}

#[test]
fn single_record_round_trip() {
    let (tx, mut rx) = unbounded_channel::<LogPacket>();
    let mut handler = ProtocolHandler::new(tx);
    let mut bytes = HANDSHAKE.to_vec();
    bytes.extend_from_slice(&[
        0x00, 0x00, 0x00, 0x05, 0x02, 0x07, 0xe8, 0x01, 0x01, 0x0c, 0x1e, 0x2d, 0x00, 0xc8,
    ]);
    bytes.extend_from_slice(b"hello");
    assert_eq!(handler.process_buffer(7, &bytes), Ok(()));
    assert_eq!(handler.session(7), Some(session()));
    let packet = rx.try_recv().unwrap();
    assert_eq!(
        packet,
        LogPacket {
            pid: 42,
            version: 1,
            sink_type: 3,
            priority: 2,
            timestamp: STAMP.to_vec(),
            message: b"hello".to_vec(),
        }
    );
    assert_eq!(rx.try_recv(), Err(TryRecvError::Empty));
}

#[test]
fn bad_magic_is_refused() {
    let (tx, mut rx) = unbounded_channel::<LogPacket>();
    let mut handler = ProtocolHandler::new(tx);
    let bytes = [0xde, 0xad, 0xbe, 0xef, 0x01, 0x00, 0x00, 0x00, 0x2a, 0x03];
    assert_eq!(
        handler.process_buffer(5, &bytes),
        Err(ClientError::IncorrectMagic(0xdeadbeef))
    );
    assert_eq!(handler.session(5), None);
    assert_eq!(rx.try_recv(), Err(TryRecvError::Empty));
}

#[test]
fn bad_magic_disconnects() {
    let (tx, mut rx) = unbounded_channel::<LogPacket>();
    let mut handler = ProtocolHandler::new(tx);
    let bytes = [0xde, 0xad, 0xbe, 0xef, 0x01, 0x00, 0x00, 0x00, 0x2a, 0x03];
    let (fate, result) = EpollServer::client_data(&mut handler, 5, &bytes);
    assert_eq!(fate, ClientFate::Disconnect);
    assert_eq!(result, Err(ClientError::IncorrectMagic(0xdeadbeef)));
    assert_eq!(handler.session(5), None);
    assert_eq!(rx.try_recv(), Err(TryRecvError::Empty));
}

#[test]
fn bad_magic_with_frames_behind_it_yields_nothing() {
    let mut bytes = vec![0xde, 0xad, 0xbe, 0xef, 0x01, 0x00, 0x00, 0x00, 0x2a, 0x03];
    bytes.extend_from_slice(&frame(2, &STAMP, b"hello"));
    let out = decode_buffer(None, &bytes);
    assert_eq!(out.result, Err(ClientError::IncorrectMagic(0xdeadbeef)));
    assert_eq!(out.session, None);
    assert!(out.packets.is_empty());
}

#[test]
fn wrong_version_is_refused() {
    let bytes = [0xb0, 0x5a, 0xca, 0xfe, 0x02, 0x00, 0x00, 0x00, 0x2a, 0x03];
    assert_eq!(read_handshake(&bytes), Err(ClientError::IncorrectVersion(2)));
    let (tx, _rx) = unbounded_channel::<LogPacket>();
    let mut handler = ProtocolHandler::new(tx);
    let (fate, result) = EpollServer::client_data(&mut handler, 3, &bytes);
    assert_eq!(result, Err(ClientError::IncorrectVersion(2)));
    assert_eq!(fate, ClientFate::Disconnect);
    assert_eq!(handler.session(3), None);
}

#[test]
fn short_handshake_is_refused() {
    let bytes = [0xb0, 0x5a, 0xca, 0xfe, 0x01, 0x00, 0x00, 0x00, 0x2a];
    assert_eq!(read_handshake(&bytes), Err(ClientError::IncorrectHeaderSize(9)));
    assert_eq!(read_handshake(&[]), Err(ClientError::IncorrectHeaderSize(0)));
    let out = decode_buffer(None, &bytes);
    assert_eq!(out.result, Err(ClientError::IncorrectHeaderSize(9)));
    assert_eq!(out.session, None);
}

#[test]
fn length_is_checked_before_magic_and_magic_before_version() {
    let short_and_wrong = [0xde, 0xad, 0xbe, 0xef, 0x02];
    assert_eq!(
        read_handshake(&short_and_wrong),
        Err(ClientError::IncorrectHeaderSize(5))
    );
    let wrong_twice = [0xde, 0xad, 0xbe, 0xef, 0x02, 0, 0, 0, 0, 0];
    assert_eq!(
        read_handshake(&wrong_twice),
        Err(ClientError::IncorrectMagic(0xdeadbeef))
    );
}

#[test]
fn handshake_fields_are_big_endian() {
    let bytes = [0xb0, 0x5a, 0xca, 0xfe, 0x01, 0x01, 0x02, 0x03, 0x04, 0x80];
    assert_eq!(
        read_handshake(&bytes),
        Ok(ClientData { version: 1, pid: 0x01020304, sink_type: 0x80 })
    );
    let top = [0xb0, 0x5a, 0xca, 0xfe, 0x01, 0xff, 0xff, 0xff, 0xff, 0xff];
    assert_eq!(
        read_handshake(&top),
        Ok(ClientData { version: 1, pid: u32::MAX, sink_type: 0xff })
    );
}

#[test]
fn handshake_alone_installs_a_session() {
    let (tx, mut rx) = unbounded_channel::<LogPacket>();
    let mut handler = ProtocolHandler::new(tx);
    assert_eq!(handler.session(9), None);
    assert_eq!(handler.process_buffer(9, &HANDSHAKE), Ok(()));
    assert_eq!(handler.session(9), Some(session()));
    assert_eq!(rx.try_recv(), Err(TryRecvError::Empty));
}

#[test]
fn two_frames_coalesced() {
    let (tx, mut rx) = unbounded_channel::<LogPacket>();
    let mut handler = ProtocolHandler::new(tx);
    let mut bytes = HANDSHAKE.to_vec();
    bytes.extend_from_slice(&frame(2, &STAMP, b"first"));
    bytes.extend_from_slice(&frame(4, &STAMP, b"second one"));
    assert_eq!(handler.process_buffer(4, &bytes), Ok(()));
    let first = rx.try_recv().unwrap();
    let second = rx.try_recv().unwrap();
    assert_eq!(first.message, b"first".to_vec());
    assert_eq!(first.priority, 2);
    assert_eq!(second.message, b"second one".to_vec());
    assert_eq!(second.priority, 4);
    assert_eq!(second.pid, 42);
    assert_eq!(rx.try_recv(), Err(TryRecvError::Empty));
}

#[test]
fn frames_in_a_later_buffer_use_the_session() {
    let (tx, mut rx) = unbounded_channel::<LogPacket>();
    let mut handler = ProtocolHandler::new(tx);
    assert_eq!(handler.process_buffer(4, &HANDSHAKE), Ok(()));
    let mut bytes = frame(1, &STAMP, b"a");
    bytes.extend_from_slice(&frame(3, &STAMP, b"bc"));
    bytes.extend_from_slice(&frame(0, &STAMP, b"def"));
    assert_eq!(handler.process_buffer(4, &bytes), Ok(()));
    let got: Vec<Vec<u8>> = vec![
        rx.try_recv().unwrap().message,
        rx.try_recv().unwrap().message,
        rx.try_recv().unwrap().message,
    ];
    assert_eq!(got, vec![b"a".to_vec(), b"bc".to_vec(), b"def".to_vec()]);
    assert_eq!(rx.try_recv(), Err(TryRecvError::Empty));
}

#[test]
fn a_handshake_is_not_read_twice() {
    let (tx, _rx) = unbounded_channel::<LogPacket>();
    let mut handler = ProtocolHandler::new(tx);
    assert_eq!(handler.process_buffer(4, &HANDSHAKE), Ok(()));
    // With a session the same ten bytes are the start of a frame that is too short.
    assert_eq!(
        handler.process_buffer(4, &HANDSHAKE),
        Err(ClientError::IncorrectMessageSize(10))
    );
    assert_eq!(handler.session(4), Some(session()));
}

#[test]
fn empty_message_is_legal() {
    let mut bytes = HANDSHAKE.to_vec();
    bytes.extend_from_slice(&frame(2, &STAMP, b""));
    let out = decode_buffer(None, &bytes);
    assert_eq!(out.result, Ok(()));
    assert_eq!(out.packets.len(), 1);
    assert_eq!(out.packets[0].message, Vec::<u8>::new());
    assert_eq!(out.packets[0].timestamp, STAMP.to_vec());
}

#[test]
fn client_disconnect_mid_frame() {
    let (tx, mut rx) = unbounded_channel::<LogPacket>();
    let mut handler = ProtocolHandler::new(tx);
    let mut bytes = HANDSHAKE.to_vec();
    bytes.extend_from_slice(&[0x00, 0x00, 0x00, 0x08, 0x02]);
    bytes.extend_from_slice(&STAMP);
    bytes.extend_from_slice(b"abcd");
    let (fate, result) = EpollServer::client_data(&mut handler, 11, &bytes);
    assert_eq!(result, Err(ClientError::IncorrectMessageSize(4)));
    assert_eq!(fate, ClientFate::Keep);
    assert_eq!(handler.session(11), Some(session()));
    assert_eq!(rx.try_recv(), Err(TryRecvError::Empty));
    // The reactor then sees the end of the stream and lets the client go.
    EpollServer::client_gone(&mut handler, 11);
    assert_eq!(handler.session(11), None);
    assert_eq!(rx.try_recv(), Err(TryRecvError::Empty));
}

#[test]
fn short_header_reports_the_bytes_left() {
    let mut bytes = frame(2, &STAMP, b"ok");
    bytes.extend_from_slice(&[0x00, 0x00, 0x00]);
    let out = decode_buffer(Some(session()), &bytes);
    assert_eq!(out.result, Err(ClientError::IncorrectMessageSize(3)));
    assert_eq!(out.packets.len(), 1);
    assert_eq!(out.packets[0].message, b"ok".to_vec());
    assert_eq!(out.session, Some(session()));
}

#[test]
fn complete_frames_before_a_short_one_are_forwarded() {
    let (tx, mut rx) = unbounded_channel::<LogPacket>();
    let mut handler = ProtocolHandler::new(tx);
    let mut bytes = HANDSHAKE.to_vec();
    bytes.extend_from_slice(&frame(2, &STAMP, b"whole"));
    bytes.extend_from_slice(&[0x00, 0x00, 0x01, 0x00, 0x02]);
    bytes.extend_from_slice(&STAMP);
    bytes.extend_from_slice(&[0x41; 20]);
    assert_eq!(
        handler.process_buffer(2, &bytes),
        Err(ClientError::IncorrectMessageSize(20))
    );
    assert_eq!(rx.try_recv().unwrap().message, b"whole".to_vec());
    assert_eq!(rx.try_recv(), Err(TryRecvError::Empty));
}

#[test]
fn read_frame_takes_exactly_the_payload() {
    let mut bytes = vec![0xaa, 0xbb];
    bytes.extend_from_slice(&frame(9, &[1, 2, 3, 4, 5, 6, 7, 8, 9], &[0x00, 0xff, 0x80]));
    bytes.extend_from_slice(&[0xcc; 5]);
    let packet = read_frame(&session(), &bytes, 2).unwrap();
    assert_eq!(packet.priority, 9);
    assert_eq!(packet.timestamp, vec![1, 2, 3, 4, 5, 6, 7, 8, 9]);
    assert_eq!(packet.message, vec![0x00, 0xff, 0x80]);
    assert_eq!(packet.pid, 42);
    assert_eq!(packet.version, 1);
    assert_eq!(packet.sink_type, 3);
}

#[test]
fn read_frame_at_the_end_of_the_buffer() {
    let bytes = frame(2, &STAMP, b"x");
    assert_eq!(
        read_frame(&session(), &bytes, bytes.len()),
        Err(ClientError::IncorrectMessageSize(0))
    );
    assert_eq!(
        read_frame(&session(), &bytes, 5),
        Err(ClientError::IncorrectMessageSize(10))
    );
}

#[test]
fn queue_without_receiver_is_an_internal_error() {
    let (tx, rx) = unbounded_channel::<LogPacket>();
    let mut handler = ProtocolHandler::new(tx);
    drop(rx);
    let mut bytes = HANDSHAKE.to_vec();
    bytes.extend_from_slice(&frame(2, &STAMP, b"lost"));
    let (fate, result) = EpollServer::client_data(&mut handler, 8, &bytes);
    assert_eq!(result, Err(ClientError::InternalError));
    assert_eq!(fate, ClientFate::Keep);
    assert_eq!(handler.session(8), Some(session()));
}

#[test]
fn queue_without_receiver_does_not_matter_without_frames() {
    let (tx, rx) = unbounded_channel::<LogPacket>();
    let mut handler = ProtocolHandler::new(tx);
    drop(rx);
    assert_eq!(handler.process_buffer(8, &HANDSHAKE), Ok(()));
}

#[test]
fn empty_buffer_without_session_is_a_short_handshake() {
    let (tx, _rx) = unbounded_channel::<LogPacket>();
    let mut handler = ProtocolHandler::new(tx);
    assert_eq!(
        handler.process_buffer(1, &[]),
        Err(ClientError::IncorrectHeaderSize(0))
    );
    assert_eq!(handler.session(1), None);
}

#[test]
fn empty_buffer_with_session_is_fine() {
    let (tx, _rx) = unbounded_channel::<LogPacket>();
    let mut handler = ProtocolHandler::new(tx);
    assert_eq!(handler.process_buffer(1, &HANDSHAKE), Ok(()));
    assert_eq!(handler.process_buffer(1, &[]), Ok(()));
    assert_eq!(handler.session(1), Some(session()));
}

#[test]
fn sessions_are_kept_per_descriptor() {
    let (tx, mut rx) = unbounded_channel::<LogPacket>();
    let mut handler = ProtocolHandler::new(tx);
    let other = [0xb0, 0x5a, 0xca, 0xfe, 0x01, 0x00, 0x00, 0x01, 0x00, 0x01];
    assert_eq!(handler.process_buffer(1, &HANDSHAKE), Ok(()));
    assert_eq!(handler.process_buffer(2, &other), Ok(()));
    assert_eq!(handler.process_buffer(2, &frame(2, &STAMP, b"two")), Ok(()));
    assert_eq!(handler.process_buffer(1, &frame(2, &STAMP, b"one")), Ok(()));
    let a = rx.try_recv().unwrap();
    let b = rx.try_recv().unwrap();
    assert_eq!((a.pid, a.sink_type, a.message), (256, 1, b"two".to_vec()));
    assert_eq!((b.pid, b.sink_type, b.message), (42, 3, b"one".to_vec()));
    handler.remove_fd(1);
    assert_eq!(handler.session(1), None);
    assert_eq!(
        handler.session(2),
        Some(ClientData { version: 1, pid: 256, sink_type: 1 })
    );
}

#[test]
fn a_reused_descriptor_starts_without_a_session() {
    let (tx, _rx) = unbounded_channel::<LogPacket>();
    let mut handler = ProtocolHandler::new(tx);
    assert_eq!(handler.process_buffer(6, &HANDSHAKE), Ok(()));
    handler.remove_fd(6);
    // The next client on descriptor 6 must shake hands again.
    assert_eq!(
        handler.process_buffer(6, &frame(2, &STAMP, b"early")),
        Err(ClientError::IncorrectMagic(5))
    );
    assert_eq!(handler.session(6), None);
    handler.remove_fd(6);
    assert_eq!(handler.session(6), None);
}

#[test]
fn split_bytes_joined_before_decoding_mean_the_same() {
    let mut bytes = HANDSHAKE.to_vec();
    bytes.extend_from_slice(&frame(2, &STAMP, b"hello"));
    bytes.extend_from_slice(&frame(3, &STAMP, b"world"));
    let whole = decode_buffer(None, &bytes);
    for cut in 0..=bytes.len() {
        let mut joined = bytes[..cut].to_vec();
        joined.extend_from_slice(&bytes[cut..]);
        let again = decode_buffer(None, &joined);
        assert_eq!(again.result, whole.result);
        assert_eq!(again.session, whole.session);
        assert_eq!(again.packets, whole.packets);
    }
    assert_eq!(whole.result, Ok(()));
    assert_eq!(whole.packets.len(), 2);
}

#[test]
fn every_proper_prefix_of_a_stream_is_refused_or_short() {
    let mut bytes = HANDSHAKE.to_vec();
    bytes.extend_from_slice(&frame(2, &STAMP, b"hello"));
    for cut in 0..bytes.len() {
        let out = decode_buffer(None, &bytes[..cut]);
        if cut < 10 {
            assert_eq!(out.result, Err(ClientError::IncorrectHeaderSize(cut)));
        } else if cut == 10 {
            assert_eq!(out.result, Ok(()));
        } else if cut < 24 {
            assert_eq!(out.result, Err(ClientError::IncorrectMessageSize(cut - 10)));
        } else {
            assert_eq!(out.result, Err(ClientError::IncorrectMessageSize(cut - 24)));
        }
        assert!(out.packets.is_empty());
    }
}

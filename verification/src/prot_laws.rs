//! What a client has to send, and the proof that the decoder reads back
//! exactly what was sent.

use crate::prot_handler::be32_at;
use crate::prot_handler::decoding_of;
use crate::prot_handler::frame_at;
use crate::prot_handler::frames_of;
use crate::prot_handler::handshake_of;
use crate::prot_handler::ClientData;
use crate::prot_handler::ClientError;
use crate::prot_handler::Decoding;
use crate::prot_handler::LogPacketView;
use crate::prot_handler::CONN_MAGIC;
use crate::prot_handler::CURRENT_VERSION;
use vstd::prelude::*;

verus! {

/// The four big-endian bytes of a 32-bit number.
pub open spec fn be32_bytes(n: u32) -> Seq<u8> {
    seq![
        (n / 0x100_0000) as u8,
        ((n / 0x1_0000) % 0x100) as u8,
        ((n / 0x100) % 0x100) as u8,
        (n % 0x100) as u8,
    ]
}

/// The handshake that announces `session`.
pub open spec fn handshake_bytes(session: ClientData) -> Seq<u8> {
    be32_bytes(CONN_MAGIC) + seq![session.version] + be32_bytes(session.pid) + seq![
        session.sink_type,
    ]
}

/// What a client puts into one frame.
pub ghost struct Frame {
    pub priority: u8,
    pub timestamp: Seq<u8>,
    pub message: Seq<u8>,
}

/// A frame that the wire format can carry: nine timestamp bytes, and a
/// payload whose size fits the 32-bit size field.
pub open spec fn sendable(frame: Frame) -> bool {
    frame.timestamp.len() == 9 && frame.message.len() <= u32::MAX
}

/// The bytes of one frame.
pub open spec fn frame_bytes(frame: Frame) -> Seq<u8> {
    be32_bytes(frame.message.len() as u32) + seq![frame.priority] + frame.timestamp
        + frame.message
}

/// The bytes of a run of frames.
pub open spec fn frames_bytes(frames: Seq<Frame>) -> Seq<u8>
    decreases frames.len(),
{
    if frames.len() == 0 {
        Seq::empty()
    } else {
        frame_bytes(frames[0]) + frames_bytes(frames.skip(1))
    }
}

/// The packet that a frame becomes on a connection with the given session.
pub open spec fn packet_of(session: ClientData, frame: Frame) -> LogPacketView {
    LogPacketView {
        pid: session.pid,
        version: session.version,
        sink_type: session.sink_type,
        priority: frame.priority,
        timestamp: frame.timestamp,
        message: frame.message,
    }
}

/// The packets that a run of frames becomes, in order.
pub open spec fn packets_of(session: ClientData, frames: Seq<Frame>) -> Seq<LogPacketView> {
    frames.map_values(|f: Frame| packet_of(session, f))
}

/// Reading four big-endian bytes gives back the number they were made from.
pub proof fn lemma_be32_round_trip(buf: Seq<u8>, at: int, n: u32)
    requires
        0 <= at,
        at + 4 <= buf.len(),
        buf.subrange(at, at + 4) == be32_bytes(n),
    ensures
        be32_at(buf, at) == n,
{
    let b = be32_bytes(n);
    assert(buf[at] == buf.subrange(at, at + 4)[0]);
    assert(buf[at + 1] == buf.subrange(at, at + 4)[1]);
    assert(buf[at + 2] == buf.subrange(at, at + 4)[2]);
    assert(buf[at + 3] == buf.subrange(at, at + 4)[3]);
    assert(b[0] == (n / 0x100_0000) as u8);
    assert(b[1] == ((n / 0x1_0000) % 0x100) as u8);
    assert(b[2] == ((n / 0x100) % 0x100) as u8);
    assert(b[3] == (n % 0x100) as u8);
}

/// A frame that was written after any bytes `before` and is followed by any
/// bytes `after` is read back as the packet it was made from.
pub proof fn lemma_frame_round_trip(
    session: ClientData,
    before: Seq<u8>,
    frame: Frame,
    after: Seq<u8>,
)
    requires
        sendable(frame),
    ensures
        frame_at(session, before + frame_bytes(frame) + after, before.len() as int) == Ok::<
            LogPacketView,
            ClientError,
        >(packet_of(session, frame)),
{
    let buf = before + frame_bytes(frame) + after;
    let at = before.len() as int;
    let size = frame.message.len() as u32;
    assert(buf.subrange(at, at + 4) =~= be32_bytes(size));
    lemma_be32_round_trip(buf, at, size);
    assert(buf[at + 4] == frame.priority);
    assert(buf.subrange(at + 5, at + 14) =~= frame.timestamp);
    assert(buf.subrange(at + 14, at + 14 + size) =~= frame.message);
}

/// Reading frames from a position where one complete frame starts yields
/// that frame's packet, then whatever the reading yields after it.
proof fn lemma_frames_step(session: ClientData, buf: Seq<u8>, at: int, packet: LogPacketView)
    requires
        0 <= at < buf.len(),
        frame_at(session, buf, at) == Ok::<LogPacketView, ClientError>(packet),
    ensures
        frames_of(session, buf, at).packets == seq![packet] + frames_of(
            session,
            buf,
            at + 14 + packet.message.len(),
        ).packets,
        frames_of(session, buf, at).fault == frames_of(
            session,
            buf,
            at + 14 + packet.message.len(),
        ).fault,
{
}

/// The bytes of a run of frames that is not empty: its first frame's bytes,
/// then the bytes of the others.
proof fn lemma_frames_bytes_step(frames: Seq<Frame>)
    requires
        frames.len() > 0,
    ensures
        frames_bytes(frames) == frame_bytes(frames[0]) + frames_bytes(frames.skip(1)),
        frame_bytes(frames[0]).len() == 5 + frames[0].timestamp.len()
            + frames[0].message.len(),
{
}

/// A run of frames written after any bytes `before` is read back, from
/// where it starts, as its packets in order and without a fault.
pub proof fn lemma_frames_round_trip(session: ClientData, before: Seq<u8>, frames: Seq<Frame>)
    requires
        forall|i: int| 0 <= i < frames.len() ==> sendable(#[trigger] frames[i]),
    ensures
        frames_of(session, before + frames_bytes(frames), before.len() as int).packets
            == packets_of(session, frames),
        frames_of(session, before + frames_bytes(frames), before.len() as int).fault
            == None::<ClientError>,
    decreases frames.len(),
{
    let buf = before + frames_bytes(frames);
    let at = before.len() as int;
    if frames.len() == 0 {
        assert(packets_of(session, frames) =~= Seq::empty());
        assert(buf.len() == at);
    } else {
        let first = frames[0];
        let rest = frames.skip(1);
        let after = frames_bytes(rest);
        let packet = packet_of(session, first);
        let grown = before + frame_bytes(first);
        assert(sendable(first));
        lemma_frames_bytes_step(frames);
        assert(buf == grown + after) by {
            assert(before + (frame_bytes(first) + after) =~= (before + frame_bytes(first))
                + after);
        }
        assert(grown.len() == at + 14 + first.message.len());
        lemma_frame_round_trip(session, before, first, after);
        assert(forall|i: int| 0 <= i < rest.len() ==> sendable(#[trigger] rest[i])) by {
            assert forall|i: int| 0 <= i < rest.len() implies sendable(#[trigger] rest[i]) by {
                assert(rest[i] == frames[i + 1]);
            }
        }
        lemma_frames_round_trip(session, grown, rest);
        lemma_frames_step(session, buf, at, packet);
        assert(packets_of(session, frames) == seq![packet] + packets_of(session, rest)) by {
            assert(packets_of(session, frames) =~= seq![packet] + packets_of(session, rest));
        }
    }
}

/// Round trip: the handshake of a session of the current version followed
/// by any run of sendable frames decodes, on a connection without a
/// session, to that session and to exactly the frames' packets, in order
/// and byte for byte, with the verdict `Ok`.
pub proof fn lemma_stream_round_trip(session: ClientData, frames: Seq<Frame>)
    requires
        session.version == CURRENT_VERSION,
        forall|i: int| 0 <= i < frames.len() ==> sendable(#[trigger] frames[i]),
    ensures
        decoding_of(None, handshake_bytes(session) + frames_bytes(frames)) == (Decoding {
            session: Some(session),
            packets: packets_of(session, frames),
            result: Ok(()),
        }),
{
    let head = handshake_bytes(session);
    let buf = head + frames_bytes(frames);
    assert(head.len() == 10);
    assert(buf.subrange(0, 4) =~= be32_bytes(CONN_MAGIC));
    lemma_be32_round_trip(buf, 0, CONN_MAGIC);
    assert(buf[4] == session.version);
    assert(buf.subrange(5, 9) =~= be32_bytes(session.pid));
    lemma_be32_round_trip(buf, 5, session.pid);
    assert(buf[9] == session.sink_type);
    assert(handshake_of(buf) == Ok::<ClientData, ClientError>(session));
    lemma_frames_round_trip(session, head, frames);
}

/// On a connection that has a session, a run of sendable frames decodes to
/// exactly the frames' packets, in order, with the verdict `Ok`.
pub proof fn lemma_frames_after_handshake(session: ClientData, frames: Seq<Frame>)
    requires
        forall|i: int| 0 <= i < frames.len() ==> sendable(#[trigger] frames[i]),
    ensures
        decoding_of(Some(session), frames_bytes(frames)) == (Decoding {
            session: Some(session),
            packets: packets_of(session, frames),
            result: Ok(()),
        }),
{
    lemma_frames_round_trip(session, Seq::empty(), frames);
    assert(Seq::<u8>::empty() + frames_bytes(frames) =~= frames_bytes(frames));
}

/// Bytes that arrive in two reads of one wake and are joined before
/// decoding mean what they would have meant in one read, wherever the
/// split fell.
pub proof fn lemma_split_reads(session: Option<ClientData>, buf: Seq<u8>, cut: int)
    requires
        0 <= cut <= buf.len(),
    ensures
        decoding_of(session, buf.subrange(0, cut) + buf.subrange(cut, buf.len() as int))
            == decoding_of(session, buf),
{
    assert(buf.subrange(0, cut) + buf.subrange(cut, buf.len() as int) =~= buf);
}

/// The only fault that reading frames ends in is a frame that fell short.
pub proof fn lemma_frame_faults(session: ClientData, buf: Seq<u8>, at: int)
    ensures
        match frames_of(session, buf, at).fault {
            None => true,
            Some(ClientError::IncorrectMessageSize(_)) => true,
            _ => false,
        },
    decreases buf.len() - at,
{
    if 0 <= at < buf.len() {
        match frame_at(session, buf, at) {
            Err(e) => {},
            Ok(packet) => {
                lemma_frame_faults(session, buf, at + 14 + packet.message.len());
            },
        }
    }
}

/// Which errors a buffer can be answered with. A connection is left
/// without a session exactly when the answer is one of the three handshake
/// errors, and then no packet was decoded. With a session the answer is
/// `Ok` or `IncorrectMessageSize`.
pub proof fn lemma_verdicts(session: Option<ClientData>, buf: Seq<u8>)
    ensures
        decoding_of(session, buf).session.is_none() <==> (match decoding_of(session, buf).result {
            Err(ClientError::IncorrectMagic(_)) => true,
            Err(ClientError::IncorrectVersion(_)) => true,
            Err(ClientError::IncorrectHeaderSize(_)) => true,
            _ => false,
        }),
        decoding_of(session, buf).session.is_some() <==> (match decoding_of(session, buf).result {
            Ok(_) => true,
            Err(ClientError::IncorrectMessageSize(_)) => true,
            _ => false,
        }),
        decoding_of(session, buf).session.is_none() ==> decoding_of(session, buf).packets.len()
            == 0,
        session.is_some() ==> decoding_of(session, buf).session == session,
{
    match session {
        Some(s) => {
            lemma_frame_faults(s, buf, 0);
        },
        None => match handshake_of(buf) {
            Err(e) => {},
            Ok(s) => {
                lemma_frame_faults(s, buf, 10);
            },
        },
    }
}

} // verus!

//! The framing protocol: one handshake per connection, then any number of
//! length-prefixed message frames, all integers big-endian.
//!
//! The decoder keeps no partial frame between calls. A buffer that ends in
//! the middle of a frame is answered with an error after the complete
//! frames before it have been forwarded.

use std::collections::HashMap;
use crate::queue::RecordQueue;
use tokio::sync::mpsc::UnboundedSender;
use vstd::prelude::*;
use vstd::slice::slice_subrange;
use vstd::slice::slice_to_vec;

verus! {

broadcast use vstd::std_specs::hash::group_hash_axioms;

/// Why a client's bytes were not accepted.
#[derive(Debug, Clone, Copy, PartialEq, Eq, Structural)]
pub enum ClientError {
    /// The first four bytes were not the protocol's magic number.
    IncorrectMagic(u32),
    /// The handshake named a protocol version other than the current one.
    IncorrectVersion(u8),
    /// Fewer bytes than a handshake arrived; the count is attached.
    IncorrectHeaderSize(usize),
    /// The buffer ended inside a frame; the count of bytes left is attached.
    IncorrectMessageSize(usize),
    /// The record queue has no receiver any more.
    InternalError,
}

/// A decoded frame together with the identity of the connection it came from.
#[derive(Debug, Clone, PartialEq, Eq)]
pub struct LogPacket {
    pub pid: u32,
    pub version: u8,
    pub sink_type: u8,
    pub priority: u8,
    pub timestamp: Vec<u8>,
    pub message: Vec<u8>,
}

/// Mathematical content of a [`LogPacket`].
pub ghost struct LogPacketView {
    pub pid: u32,
    pub version: u8,
    pub sink_type: u8,
    pub priority: u8,
    pub timestamp: Seq<u8>,
    pub message: Seq<u8>,
}

impl View for LogPacket {
    type V = LogPacketView;

    open spec fn view(&self) -> LogPacketView {
        LogPacketView {
            pid: self.pid,
            version: self.version,
            sink_type: self.sink_type,
            priority: self.priority,
            timestamp: self.timestamp@,
            message: self.message@,
        }
    }
}

/// What a handshake binds a connection to.
#[derive(Debug, Clone, Copy, PartialEq, Eq, Structural)]
pub struct ClientData {
    pub version: u8,
    pub pid: u32,
    pub sink_type: u8,
}

pub const CONN_MAGIC: u32 = 0xb05acafe;

pub const CURRENT_VERSION: u8 = 1;

/// Size of a handshake: magic (4), version (1), pid (4), sink mask (1).
pub const VERSION_1_HSH_SZ: usize = 10;

/// Size of a frame header: payload size (4), priority (1), timestamp (9).
pub const VERSION_1_MSG_SZ: usize = 14;

/// The 32-bit number that four big-endian bytes stand for.
pub open spec fn be32(b0: u8, b1: u8, b2: u8, b3: u8) -> u32 {
    (b0 * 0x100_0000 + b1 * 0x1_0000 + b2 * 0x100 + b3) as u32
}

/// The big-endian number in the four bytes of `buf` that start at `at`.
pub open spec fn be32_at(buf: Seq<u8>, at: int) -> u32 {
    be32(buf[at], buf[at + 1], buf[at + 2], buf[at + 3])
}

/// What the first bytes of a connection mean: the session they establish,
/// or the reason they are refused. Length is checked first, then the magic
/// number, then the version.
pub open spec fn handshake_of(buf: Seq<u8>) -> Result<ClientData, ClientError> {
    if buf.len() < VERSION_1_HSH_SZ {
        Err(ClientError::IncorrectHeaderSize(buf.len() as usize))
    } else if be32_at(buf, 0) != CONN_MAGIC {
        Err(ClientError::IncorrectMagic(be32_at(buf, 0)))
    } else if buf[4] != CURRENT_VERSION {
        Err(ClientError::IncorrectVersion(buf[4]))
    } else {
        Ok(ClientData { version: buf[4], pid: be32_at(buf, 5), sink_type: buf[9] })
    }
}

/// What the bytes of `buf` from `at` on mean as one frame of a connection
/// with the given session: the packet, or the error with the number of bytes
/// that were left where the frame fell short (before the header, or after
/// it).
pub open spec fn frame_at(session: ClientData, buf: Seq<u8>, at: int) -> Result<
    LogPacketView,
    ClientError,
> {
    let left = buf.len() - at;
    let body = at + VERSION_1_MSG_SZ;
    if left < VERSION_1_MSG_SZ {
        Err(ClientError::IncorrectMessageSize(left as usize))
    } else if buf.len() - body < be32_at(buf, at) {
        Err(ClientError::IncorrectMessageSize((buf.len() - body) as usize))
    } else {
        Ok(
            LogPacketView {
                pid: session.pid,
                version: session.version,
                sink_type: session.sink_type,
                priority: buf[at + 4],
                timestamp: buf.subrange(at + 5, body),
                message: buf.subrange(body, body + be32_at(buf, at)),
            },
        )
    }
}

/// The outcome of reading frames until the buffer ends or a frame falls
/// short: the packets in the order of their frames, and the error that
/// stopped the reading, if one did.
pub ghost struct FrameRun {
    pub packets: Seq<LogPacketView>,
    pub fault: Option<ClientError>,
}

/// Reads frame after frame from position `at` of `buf`.
pub open spec fn frames_of(session: ClientData, buf: Seq<u8>, at: int) -> FrameRun
    decreases buf.len() - at,
{
    if at < 0 || at >= buf.len() {
        FrameRun { packets: Seq::empty(), fault: None }
    } else {
        match frame_at(session, buf, at) {
            Err(e) => FrameRun { packets: Seq::empty(), fault: Some(e) },
            Ok(packet) => {
                let rest = frames_of(
                    session,
                    buf,
                    at + VERSION_1_MSG_SZ + packet.message.len(),
                );
                FrameRun { packets: seq![packet] + rest.packets, fault: rest.fault }
            },
        }
    }
}

/// What one buffer means to a connection: the session the connection has
/// afterwards, the packets decoded, and the verdict on the buffer.
pub ghost struct Decoding {
    pub session: Option<ClientData>,
    pub packets: Seq<LogPacketView>,
    pub result: Result<(), ClientError>,
}

/// The verdict that a frame run ends in.
pub open spec fn verdict(fault: Option<ClientError>) -> Result<(), ClientError> {
    match fault {
        Some(e) => Err(e),
        None => Ok(()),
    }
}

/// The meaning of `buf` for a connection whose session so far is `session`.
/// Without a session the buffer must open with a handshake; a handshake that
/// is refused leaves the connection without a session and yields no packet.
/// All bytes after the handshake, or all bytes where a session exists, are
/// frames.
pub open spec fn decoding_of(session: Option<ClientData>, buf: Seq<u8>) -> Decoding {
    match session {
        Some(s) => {
            let run = frames_of(s, buf, 0);
            Decoding { session: Some(s), packets: run.packets, result: verdict(run.fault) }
        },
        None => match handshake_of(buf) {
            Err(e) => Decoding { session: None, packets: Seq::empty(), result: Err(e) },
            Ok(s) => {
                let run = frames_of(s, buf, VERSION_1_HSH_SZ as int);
                Decoding { session: Some(s), packets: run.packets, result: verdict(run.fault) }
            },
        },
    }
}

/// The views of a sequence of packets.
pub open spec fn views_of(packets: Seq<LogPacket>) -> Seq<LogPacketView> {
    packets.map_values(|p: LogPacket| p@)
}

/// Reads the big-endian number in the four bytes that start at `at`.
fn read_be32(buffer: &[u8], at: usize) -> (value: u32)
    requires
        at + 4 <= buffer@.len(),
    ensures
        value == be32_at(buffer@, at as int),
{
    (buffer[at] as u32) * 0x100_0000 + (buffer[at + 1] as u32) * 0x1_0000 + (buffer[at + 2] as u32)
        * 0x100 + (buffer[at + 3] as u32)
}

/// Reads a handshake from the start of `buffer`.
pub fn read_handshake(buffer: &[u8]) -> (result: Result<ClientData, ClientError>)
    ensures
        result == handshake_of(buffer@),
{
    if buffer.len() < VERSION_1_HSH_SZ {
        return Err(ClientError::IncorrectHeaderSize(buffer.len()));
    }
    let magic = read_be32(buffer, 0);
    if magic != CONN_MAGIC {
        return Err(ClientError::IncorrectMagic(magic));
    }
    let version = buffer[4];
    if version != CURRENT_VERSION {
        return Err(ClientError::IncorrectVersion(version));
    }
    let pid = read_be32(buffer, 5);
    Ok(ClientData { version, pid, sink_type: buffer[9] })
}

/// Reads the frame that starts at position `at` of `buffer`.
pub fn read_frame(session: &ClientData, buffer: &[u8], at: usize) -> (result: Result<
    LogPacket,
    ClientError,
>)
    requires
        at <= buffer@.len(),
    ensures
        match result {
            Ok(packet) => frame_at(*session, buffer@, at as int) == Ok::<
                LogPacketView,
                ClientError,
            >(packet@),
            Err(e) => frame_at(*session, buffer@, at as int) == Err::<LogPacketView, ClientError>(
                e,
            ),
        },
{
    let left = buffer.len() - at;
    if left < VERSION_1_MSG_SZ {
        return Err(ClientError::IncorrectMessageSize(left));
    }
    let size = read_be32(buffer, at) as usize;
    let body = at + VERSION_1_MSG_SZ;
    if buffer.len() - body < size {
        return Err(ClientError::IncorrectMessageSize(buffer.len() - body));
    }
    Ok(
        LogPacket {
            pid: session.pid,
            version: session.version,
            sink_type: session.sink_type,
            priority: buffer[at + 4],
            timestamp: slice_to_vec(slice_subrange(buffer, at + 5, body)),
            message: slice_to_vec(slice_subrange(buffer, body, body + size)),
        },
    )
}

/// The result of decoding one buffer, see [`decoding_of`].
#[derive(Debug)]
pub struct Decoded {
    pub session: Option<ClientData>,
    pub packets: Vec<LogPacket>,
    pub result: Result<(), ClientError>,
}

impl View for Decoded {
    type V = Decoding;

    open spec fn view(&self) -> Decoding {
        Decoding {
            session: self.session,
            packets: views_of(self.packets@),
            result: self.result,
        }
    }
}

/// Decodes one buffer for a connection whose session so far is `session`,
/// without forwarding anything.
pub fn decode_buffer(session: Option<ClientData>, buffer: &[u8]) -> (out: Decoded)
    ensures
        out@ == decoding_of(session, buffer@),
{
    let mut packets: Vec<LogPacket> = Vec::new();
    let mut at: usize = 0;
    let current = match session {
        Some(s) => s,
        None => match read_handshake(buffer) {
            Err(e) => {
                assert(views_of(packets@) =~= Seq::empty());
                return Decoded { session: None, packets, result: Err(e) };
            },
            Ok(s) => {
                at = VERSION_1_HSH_SZ;
                s
            },
        },
    };
    let ghost start = at as int;
    let mut result: Result<(), ClientError> = Ok(());
    assert(views_of(packets@) + frames_of(current, buffer@, at as int).packets =~= frames_of(
        current,
        buffer@,
        start,
    ).packets);
    while at < buffer.len()
        invariant_except_break
            at <= buffer@.len(),
            result == Ok::<(), ClientError>(()),
            views_of(packets@) + frames_of(current, buffer@, at as int).packets == frames_of(
                current,
                buffer@,
                start,
            ).packets,
            frames_of(current, buffer@, at as int).fault == frames_of(
                current,
                buffer@,
                start,
            ).fault,
        ensures
            views_of(packets@) == frames_of(current, buffer@, start).packets,
            result == verdict(frames_of(current, buffer@, start).fault),
        decreases buffer@.len() - at,
    {
        match read_frame(&current, buffer, at) {
            Err(e) => {
                assert(views_of(packets@) + Seq::<LogPacketView>::empty() =~= views_of(
                    packets@,
                ));
                result = Err(e);
                break ;
            },
            Ok(packet) => {
                let ghost before = views_of(packets@);
                let ghost next = at + VERSION_1_MSG_SZ + packet@.message.len();
                at = at + VERSION_1_MSG_SZ + packet.message.len();
                packets.push(packet);
                assert(views_of(packets@) =~= before + seq![packet@]);
                assert(before + (seq![packet@] + frames_of(current, buffer@, next).packets) =~= (
                before + seq![packet@]) + frames_of(current, buffer@, next).packets);
            },
        }
    }
    proof {
        if result.is_ok() {
            assert(views_of(packets@) + Seq::<LogPacketView>::empty() =~= views_of(packets@));
        }
    }
    Decoded { session: Some(current), packets, result }
}

/// The per-connection decoder. It remembers which connections have completed
/// their handshake and forwards every decoded packet to the record queue.
pub struct ProtocolHandler {
    fds_pids: HashMap<i32, ClientData>,
    sender_channel: RecordQueue,
}

impl ProtocolHandler {
    /// The sessions held, by file descriptor.
    pub closed spec fn sessions(&self) -> Map<i32, ClientData> {
        self.fds_pids@
    }

    /// The sender that this decoder forwards to.
    pub closed spec fn channel(&self) -> UnboundedSender<LogPacket> {
        self.sender_channel.sender()
    }

    /// Every packet that the queue has taken from this decoder, oldest first.
    pub closed spec fn forwarded(&self) -> Seq<LogPacketView> {
        self.sender_channel.taken()
    }

    /// The session of `fd`, if it has one.
    pub open spec fn session_of(&self, fd: i32) -> Option<ClientData> {
        if self.sessions().contains_key(fd) {
            Some(self.sessions()[fd])
        } else {
            None
        }
    }

    /// A decoder without sessions that forwards to `sender`.
    pub fn new(sender: UnboundedSender<LogPacket>) -> (handler: Self)
        ensures
            handler.sessions() == Map::<i32, ClientData>::empty(),
            handler.channel() == sender,
            handler.forwarded() == Seq::<LogPacketView>::empty(),
    {
        ProtocolHandler { fds_pids: HashMap::new(), sender_channel: RecordQueue::new(sender) }
    }

    /// The session of `fd`, if it has one.
    pub fn session(&self, fd: i32) -> (found: Option<ClientData>)
        ensures
            found == self.session_of(fd),
    {
        match self.fds_pids.get(&fd) {
            Some(data) => Some(*data),
            None => None,
        }
    }

    /// Decodes the bytes that arrived on `fd` in one wake and forwards the
    /// packets in the order of their frames.
    ///
    /// The session map changes as [`decoding_of`] says: a valid handshake
    /// installs a session even when a later frame is refused. The packets
    /// that the queue took are a prefix of the packets decoded. It is the
    /// whole of them unless the queue refused one; then the result is
    /// `InternalError`, and otherwise it is the verdict on the buffer.
    pub fn process_buffer(&mut self, fd: i32, buffer: &[u8]) -> (result: Result<(), ClientError>)
        ensures
            final(self).sessions() == match decoding_of(old(self).session_of(fd), buffer@).session {
                Some(s) => old(self).sessions().insert(fd, s),
                None => old(self).sessions(),
            },
            final(self).channel() == old(self).channel(),
            old(self).forwarded().is_prefix_of(final(self).forwarded()),
            final(self).forwarded().skip(old(self).forwarded().len() as int).is_prefix_of(
                decoding_of(old(self).session_of(fd), buffer@).packets,
            ),
            result == settle(
                decoding_of(old(self).session_of(fd), buffer@),
                final(self).forwarded().len() - old(self).forwarded().len(),
            ),
    {
        let ghost before = self.forwarded();
        let ghost meaning = decoding_of(self.session_of(fd), buffer@);
        let decoded = decode_buffer(self.session(fd), buffer);
        match decoded.session {
            Some(s) => {
                self.fds_pids.insert(fd, s);
            },
            None => {},
        }
        let result = decoded.result;
        let packets = decoded.packets;
        let ghost all = packets@;
        assert(self.forwarded() =~= before + meaning.packets.take(0));
        for packet in iter: packets
            invariant
                iter.seq() == all,
                before == old(self).forwarded(),
                meaning == decoding_of(old(self).session_of(fd), buffer@),
                views_of(all) == meaning.packets,
                self.sessions() == match meaning.session {
                    Some(s) => old(self).sessions().insert(fd, s),
                    None => old(self).sessions(),
                },
                self.channel() == old(self).channel(),
                self.forwarded() == before + meaning.packets.take(iter.index()),
        {
            let ghost at = iter.index();
            assert(packet@ == meaning.packets[at]);
            if !self.sender_channel.offer(packet) {
                assert(self.forwarded().skip(before.len() as int) =~= meaning.packets.take(at));
                return Err(ClientError::InternalError);
            }
            assert(self.forwarded() =~= before + meaning.packets.take(at + 1));
        }
        assert(meaning.packets.take(meaning.packets.len() as int) =~= meaning.packets);
        assert(self.forwarded().skip(before.len() as int) =~= meaning.packets);
        result
    }

    /// Forgets the session of `fd`, if it has one.
    pub fn remove_fd(&mut self, fd: i32)
        ensures
            final(self).sessions() == old(self).sessions().remove(fd),
            final(self).channel() == old(self).channel(),
            final(self).forwarded() == old(self).forwarded(),
    {
        self.fds_pids.remove(&fd);
    }
}

/// The result of [`ProtocolHandler::process_buffer`] on a buffer with the
/// given meaning when the queue took `taken` of its packets: the verdict on
/// the buffer if it took them all, `InternalError` if it refused one.
pub open spec fn settle(meaning: Decoding, taken: int) -> Result<(), ClientError> {
    if taken < meaning.packets.len() {
        Err(ClientError::InternalError)
    } else {
        meaning.result
    }
}

} // verus!

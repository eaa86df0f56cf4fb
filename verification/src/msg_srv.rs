//! The decisions of the ingress reactor.
//!
//! The reactor waits for readiness events, accepts clients and reads their
//! bytes; all of that is the host's business. What it does with an event,
//! with the outcome of a read and with the decoder's verdict is decided
//! here.

use crate::prot_handler::be32_at;
use crate::prot_handler::decoding_of;
use crate::prot_handler::settle;
use crate::msg_sink::line::push_bytes;
use crate::prot_handler::ClientData;
use crate::prot_handler::ClientError;
use crate::prot_handler::LogPacketView;
use crate::prot_handler::ProtocolHandler;
use crate::prot_handler::CONN_MAGIC;
use crate::prot_handler::VERSION_1_HSH_SZ;
use crate::prot_laws::lemma_verdicts;
use std::collections::HashSet;
use vstd::prelude::*;

verus! {

broadcast use vstd::std_specs::hash::group_hash_axioms;

/// Name under which the platform hands over the listening socket.
pub const SOCKET_NAME: &'static str = "notcat_socket";

/// Backlog of the listening socket.
pub const MAX_CLIENTS_QUEUE: usize = 16;

/// Readiness events taken per wake.
pub const MAX_EVENTS: usize = 16;

/// Size of the buffer that one read fills.
pub const READ_BUFFER_SZ: usize = 8192;

/// What a readiness event calls for.
#[derive(Debug, Clone, Copy, PartialEq, Eq, Structural)]
pub enum Wake {
    /// The listener is ready: accept until it would block.
    Accept,
    /// A client has bytes: read until it would block.
    Drain,
    /// A client hung up or failed: let it go.
    Disconnect,
    /// Nothing to do.
    Ignore,
}

/// What became of one attempt to accept a client.
#[derive(Debug, Clone, Copy, PartialEq, Eq, Structural)]
pub enum AcceptOutcome {
    /// A client was accepted and registered for readiness events.
    Registered(i32),
    /// A client was accepted but could not be registered.
    Unregistered(i32),
    /// No client is waiting.
    WouldBlock,
    /// Accepting failed for any other reason.
    Failed,
}

/// What follows an attempt to accept a client.
#[derive(Debug, Clone, Copy, PartialEq, Eq, Structural)]
pub enum AcceptStep {
    /// Accept again.
    Again,
    /// Close this descriptor, which was accepted but is not registered,
    /// then accept again.
    CloseThenAgain(i32),
    /// Leave the listener until its next event.
    Stop,
}

/// What became of one read.
#[derive(Debug, Clone, Copy, PartialEq, Eq, Structural)]
pub enum ReadOutcome {
    /// This many bytes arrived; none means that the client closed.
    Data(usize),
    /// Nothing more to read in this wake.
    WouldBlock,
    /// The read failed for any other reason.
    Failed,
}

/// What follows a read.
#[derive(Debug, Clone, Copy, PartialEq, Eq, Structural)]
pub enum ReadStep {
    /// Add the bytes to those of this wake and read again.
    Append,
    /// Hand the bytes of this wake to the decoder.
    Decode,
    /// Let the client go.
    Disconnect,
}

/// What becomes of a client after the decoder has seen its bytes.
#[derive(Debug, Clone, Copy, PartialEq, Eq, Structural)]
pub enum ClientFate {
    /// The client stays registered and keeps its session.
    Keep,
    /// The client is to be deregistered and closed; it has no session.
    Disconnect,
}

/// The reading of an event: the listener accepts; a readable client is
/// drained, also when it hung up as well; a client that only hung up or
/// failed is let go.
pub open spec fn wake_of(
    fd: i32,
    listener_fd: i32,
    readable: bool,
    hangup: bool,
    error: bool,
) -> Wake {
    if fd == listener_fd {
        Wake::Accept
    } else if readable {
        Wake::Drain
    } else if hangup || error {
        Wake::Disconnect
    } else {
        Wake::Ignore
    }
}

/// The step after an attempt to accept: the reactor accepts until no
/// client is waiting. A client that could not be registered is closed and
/// the accepting goes on; the listener is left only when nothing waits or
/// accepting itself fails.
pub open spec fn accept_step(outcome: AcceptOutcome) -> AcceptStep {
    match outcome {
        AcceptOutcome::Registered(_) => AcceptStep::Again,
        AcceptOutcome::Unregistered(fd) => AcceptStep::CloseThenAgain(fd),
        AcceptOutcome::WouldBlock => AcceptStep::Stop,
        AcceptOutcome::Failed => AcceptStep::Stop,
    }
}

/// The step after a read: an empty read is an orderly disconnect.
pub open spec fn step_after(outcome: ReadOutcome) -> ReadStep {
    match outcome {
        ReadOutcome::Data(n) => if n == 0 {
            ReadStep::Disconnect
        } else {
            ReadStep::Append
        },
        ReadOutcome::WouldBlock => ReadStep::Decode,
        ReadOutcome::Failed => ReadStep::Disconnect,
    }
}

/// The fate that a decoder result spells: a client whose handshake is
/// refused is disconnected; one whose frame fell short, or whose packet
/// the queue refused, is kept, and so is one whose bytes were fine.
pub open spec fn fate_of(result: Result<(), ClientError>) -> ClientFate {
    match result {
        Err(ClientError::IncorrectMagic(_)) => ClientFate::Disconnect,
        Err(ClientError::IncorrectVersion(_)) => ClientFate::Disconnect,
        Err(ClientError::IncorrectHeaderSize(_)) => ClientFate::Disconnect,
        _ => ClientFate::Keep,
    }
}

/// Whether the client leaves at the end of a wake with the given bytes and
/// last read: after an empty or failed read, or when its bytes establish
/// no session.
pub open spec fn leaves(handler: &ProtocolHandler, fd: i32, bytes: Seq<u8>, last: ReadOutcome) -> bool {
    match step_after(last) {
        ReadStep::Append => false,
        ReadStep::Disconnect => true,
        ReadStep::Decode => decoding_of(handler.session_of(fd), bytes).session.is_none(),
    }
}

/// The packets that the end of a wake owes the queue: those of the wake's
/// bytes where they are decoded, none otherwise.
pub open spec fn packets_due(
    handler: &ProtocolHandler,
    fd: i32,
    bytes: Seq<u8>,
    last: ReadOutcome,
) -> Seq<LogPacketView> {
    match step_after(last) {
        ReadStep::Decode => decoding_of(handler.session_of(fd), bytes).packets,
        _ => Seq::empty(),
    }
}

/// The sessions after the end of a wake.
pub open spec fn sessions_after(
    handler: &ProtocolHandler,
    fd: i32,
    bytes: Seq<u8>,
    last: ReadOutcome,
) -> Map<i32, ClientData> {
    match step_after(last) {
        ReadStep::Append => handler.sessions(),
        ReadStep::Disconnect => handler.sessions().remove(fd),
        ReadStep::Decode => match decoding_of(handler.session_of(fd), bytes).session {
            Some(s) => handler.sessions().insert(fd, s),
            None => handler.sessions(),
        },
    }
}

/// A client without a session whose bytes do not open with the magic
/// number leaves at the end of its wake, whatever follows those bytes: the
/// decoder answers with the number it found, and the queue is owed
/// nothing.
pub proof fn lemma_bad_magic_leaves(handler: &ProtocolHandler, fd: i32, bytes: Seq<u8>)
    requires
        !handler.sessions().contains_key(fd),
        bytes.len() >= VERSION_1_HSH_SZ,
        be32_at(bytes, 0) != CONN_MAGIC,
    ensures
        leaves(handler, fd, bytes, ReadOutcome::WouldBlock),
        decoding_of(handler.session_of(fd), bytes).result == Err::<(), ClientError>(
            ClientError::IncorrectMagic(be32_at(bytes, 0)),
        ),
        packets_due(handler, fd, bytes, ReadOutcome::WouldBlock) == Seq::<LogPacketView>::empty(),
        sessions_after(handler, fd, bytes, ReadOutcome::WouldBlock) == handler.sessions(),
{
}

/// A client whose stream ends leaves, with or without a session and
/// whatever it sent before in the same wake: its session is gone, and the
/// queue is owed nothing, so a frame that was cut short yields no record.
pub proof fn lemma_end_of_stream_leaves(handler: &ProtocolHandler, fd: i32, bytes: Seq<u8>)
    ensures
        leaves(handler, fd, bytes, ReadOutcome::Data(0)),
        !sessions_after(handler, fd, bytes, ReadOutcome::Data(0)).contains_key(fd),
        packets_due(handler, fd, bytes, ReadOutcome::Data(0)) == Seq::<LogPacketView>::empty(),
{
}

/// The reactor.
pub struct EpollServer;

impl EpollServer {
    /// Reads a readiness event.
    pub fn classify(fd: i32, listener_fd: i32, readable: bool, hangup: bool, error: bool) -> (wake:
        Wake)
        ensures
            wake == wake_of(fd, listener_fd, readable, hangup, error),
    {
        if fd == listener_fd {
            Wake::Accept
        } else if readable {
            Wake::Drain
        } else if hangup || error {
            Wake::Disconnect
        } else {
            Wake::Ignore
        }
    }

    /// Takes the outcome of an attempt to accept a client. A client that
    /// was registered becomes the reactor's own; one that could not be
    /// registered never does, and is handed back to be closed. Accepting
    /// creates no session.
    pub fn after_accept(clients: &mut ClientSet, outcome: AcceptOutcome) -> (step: AcceptStep)
        ensures
            step == accept_step(outcome),
            final(clients)@ == match outcome {
                AcceptOutcome::Registered(fd) => old(clients)@.insert(fd),
                _ => old(clients)@,
            },
    {
        match outcome {
            AcceptOutcome::Registered(fd) => {
                clients.adopt(fd);
                AcceptStep::Again
            },
            AcceptOutcome::Unregistered(fd) => AcceptStep::CloseThenAgain(fd),
            AcceptOutcome::WouldBlock => AcceptStep::Stop,
            AcceptOutcome::Failed => AcceptStep::Stop,
        }
    }

    /// Takes one read of a wake: the bytes that arrived are added to those
    /// of the wake where the reading goes on, and the step is decided.
    pub fn after_chunk(wake: &mut Vec<u8>, chunk: &[u8], outcome: ReadOutcome) -> (step: ReadStep)
        requires
            outcome matches ReadOutcome::Data(n) ==> n == chunk@.len(),
        ensures
            step == step_after(outcome),
            final(wake)@ == if step == ReadStep::Append {
                old(wake)@ + chunk@
            } else {
                old(wake)@
            },
    {
        let step = Self::after_read(outcome);
        if step == ReadStep::Append {
            push_bytes(wake, chunk);
        }
        step
    }

    /// Decides what follows a read.
    pub fn after_read(outcome: ReadOutcome) -> (step: ReadStep)
        ensures
            step == step_after(outcome),
    {
        match outcome {
            ReadOutcome::Data(0) => ReadStep::Disconnect,
            ReadOutcome::Data(_) => ReadStep::Append,
            ReadOutcome::WouldBlock => ReadStep::Decode,
            ReadOutcome::Failed => ReadStep::Disconnect,
        }
    }

    /// Decides a client's fate from the decoder's result.
    pub fn after_decode(result: &Result<(), ClientError>) -> (fate: ClientFate)
        ensures
            fate == fate_of(*result),
    {
        match result {
            Err(ClientError::IncorrectMagic(_)) => ClientFate::Disconnect,
            Err(ClientError::IncorrectVersion(_)) => ClientFate::Disconnect,
            Err(ClientError::IncorrectHeaderSize(_)) => ClientFate::Disconnect,
            _ => ClientFate::Keep,
        }
    }

    /// Hands the bytes that `fd` sent in one wake to the decoder and
    /// decides the client's fate. The decoder's result is returned beside
    /// the fate.
    ///
    /// A client is disconnected exactly when it has no session and its
    /// bytes do not open with a valid handshake; it has no session then.
    /// Otherwise the decoder's state is what
    /// [`ProtocolHandler::process_buffer`] left.
    pub fn client_data(handler: &mut ProtocolHandler, fd: i32, bytes: &[u8]) -> (outcome: (
        ClientFate,
        Result<(), ClientError>,
    ))
        ensures
            outcome.0 == fate_of(outcome.1),
            outcome.1 == settle(
                decoding_of(old(handler).session_of(fd), bytes@),
                final(handler).forwarded().len() - old(handler).forwarded().len(),
            ),
            outcome.0 == ClientFate::Disconnect <==> decoding_of(
                old(handler).session_of(fd),
                bytes@,
            ).session.is_none(),
            final(handler).sessions() == match decoding_of(
                old(handler).session_of(fd),
                bytes@,
            ).session {
                Some(s) => old(handler).sessions().insert(fd, s),
                None => old(handler).sessions(),
            },
            outcome.0 == ClientFate::Disconnect ==> !final(handler).sessions().contains_key(fd),
            final(handler).channel() == old(handler).channel(),
            old(handler).forwarded().is_prefix_of(final(handler).forwarded()),
            final(handler).forwarded().skip(old(handler).forwarded().len() as int).is_prefix_of(
                decoding_of(old(handler).session_of(fd), bytes@).packets,
            ),
            forall|clients: Set<i32>|
                clients.contains(fd) && sessions_owned(clients, old(handler)) ==> sessions_owned(
                    clients,
                    final(handler),
                ),
    {
        proof {
            lemma_verdicts(handler.session_of(fd), bytes@);
        }
        let result = handler.process_buffer(fd, bytes);
        let fate = Self::after_decode(&result);
        (fate, result)
    }

    /// Ends the wake of client `fd`: `bytes` are what its reads brought,
    /// `last` is the outcome of the read that ended the reading. The
    /// answer is whether the host is to deregister and close the
    /// descriptor now, and beside it the decoder's result where the bytes
    /// were decoded.
    ///
    /// Where the reading ended because nothing more was there, the bytes
    /// go to the decoder, and the client leaves if they establish no
    /// session. Where it ended with an empty or a failed read, the client
    /// leaves and the bytes of the wake are dropped undecoded. A client
    /// that leaves has no session afterwards and is no longer owned; the
    /// answer is yes exactly if it was owned, so no descriptor is closed
    /// twice. A read that brought bytes ends no wake: nothing happens.
    pub fn wake_done(
        clients: &mut ClientSet,
        handler: &mut ProtocolHandler,
        fd: i32,
        bytes: &[u8],
        last: ReadOutcome,
    ) -> (end: (bool, Result<(), ClientError>))
        ensures
            end.0 == (leaves(old(handler), fd, bytes@, last) && old(clients)@.contains(fd)),
            end.1 == if step_after(last) == ReadStep::Decode {
                settle(
                    decoding_of(old(handler).session_of(fd), bytes@),
                    final(handler).forwarded().len() - old(handler).forwarded().len(),
                )
            } else {
                Ok(())
            },
            final(clients)@ == if leaves(old(handler), fd, bytes@, last) {
                old(clients)@.remove(fd)
            } else {
                old(clients)@
            },
            leaves(old(handler), fd, bytes@, last) ==> !final(handler).sessions().contains_key(fd),
            final(handler).sessions() == sessions_after(old(handler), fd, bytes@, last),
            final(handler).channel() == old(handler).channel(),
            old(handler).forwarded().is_prefix_of(final(handler).forwarded()),
            final(handler).forwarded().skip(old(handler).forwarded().len() as int).is_prefix_of(
                packets_due(old(handler), fd, bytes@, last),
            ),
            sessions_owned(old(clients)@, old(handler)) && old(clients)@.contains(fd)
                ==> sessions_owned(final(clients)@, final(handler)),
    {
        match Self::after_read(last) {
            ReadStep::Append => {
                assert(handler.forwarded().skip(handler.forwarded().len() as int) =~= Seq::empty());
                (false, Ok(()))
            },
            ReadStep::Disconnect => {
                assert(handler.forwarded().skip(handler.forwarded().len() as int) =~= Seq::empty());
                (clients.release(handler, fd), Ok(()))
            },
            ReadStep::Decode => {
                let outcome = Self::client_data(handler, fd, bytes);
                match outcome.0 {
                    ClientFate::Keep => (false, outcome.1),
                    ClientFate::Disconnect => {
                        assert(handler.sessions().remove(fd) =~= handler.sessions());
                        (clients.release(handler, fd), outcome.1)
                    },
                }
            },
        }
    }

    /// Drops what the decoder holds for a client that is let go. The host
    /// calls this before it closes the descriptor, so that a later client
    /// with the same descriptor starts without a session.
    pub fn client_gone(handler: &mut ProtocolHandler, fd: i32)
        ensures
            !final(handler).sessions().contains_key(fd),
            final(handler).sessions() == old(handler).sessions().remove(fd),
            final(handler).channel() == old(handler).channel(),
            final(handler).forwarded() == old(handler).forwarded(),
    {
        handler.remove_fd(fd);
    }
}

/// The client descriptors that the reactor owns: those it accepted and has
/// not closed yet. The host closes a descriptor only when [`Self::release`]
/// says that it was owned, so that none is closed twice.
pub struct ClientSet {
    fds: HashSet<i32>,
}

impl View for ClientSet {
    type V = Set<i32>;

    closed spec fn view(&self) -> Set<i32> {
        self.fds@
    }
}

/// Every session belongs to a descriptor that the reactor owns.
pub open spec fn sessions_owned(clients: Set<i32>, handler: &ProtocolHandler) -> bool {
    forall|fd: i32| #[trigger] handler.sessions().contains_key(fd) ==> clients.contains(fd)
}

impl ClientSet {
    /// No descriptor is owned.
    pub fn new() -> (clients: Self)
        ensures
            clients@ == Set::<i32>::empty(),
    {
        ClientSet { fds: HashSet::new() }
    }

    /// Whether `fd` is owned.
    pub fn owns(&self, fd: i32) -> (owned: bool)
        ensures
            owned == self@.contains(fd),
    {
        self.fds.contains(&fd)
    }

    /// Takes ownership of a descriptor that was just accepted. The answer
    /// is whether it was not owned before.
    pub fn adopt(&mut self, fd: i32) -> (fresh: bool)
        ensures
            final(self)@ == old(self)@.insert(fd),
            fresh == !old(self)@.contains(fd),
    {
        self.fds.insert(fd)
    }

    /// Gives up a descriptor and drops its session. The answer is whether
    /// the descriptor was owned: only then is it the host's to deregister
    /// and close.
    pub fn release(&mut self, handler: &mut ProtocolHandler, fd: i32) -> (owned: bool)
        ensures
            owned == old(self)@.contains(fd),
            final(self)@ == old(self)@.remove(fd),
            final(handler).sessions() == old(handler).sessions().remove(fd),
            final(handler).channel() == old(handler).channel(),
            final(handler).forwarded() == old(handler).forwarded(),
            sessions_owned(old(self)@, old(handler)) ==> sessions_owned(
                final(self)@,
                final(handler),
            ),
    {
        handler.remove_fd(fd);
        let owned = self.fds.remove(&fd);
        assert(self@ =~= old(self)@.remove(fd));
        owned
    }
}

} // verus!

//! The record queue as the decoder sees it: a sender, and the history of
//! what the queue took from it.

use crate::prot_handler::LogPacket;
use crate::prot_handler::LogPacketView;
use tokio::sync::mpsc::UnboundedSender;
use vstd::prelude::*;

verus! {

/// The sending half of the record queue together with the packets that the
/// queue has taken through it, oldest first. Only [`RecordQueue::offer`]
/// adds to that history.
pub struct RecordQueue {
    sender: UnboundedSender<LogPacket>,
    taken: Ghost<Seq<LogPacketView>>,
}

impl RecordQueue {
    /// The sender that packets are offered to.
    pub closed spec fn sender(&self) -> UnboundedSender<LogPacket> {
        self.sender
    }

    /// The packets that the queue took, oldest first.
    pub closed spec fn taken(&self) -> Seq<LogPacketView> {
        self.taken@
    }

    /// A queue over `sender` that has taken nothing yet.
    pub fn new(sender: UnboundedSender<LogPacket>) -> (queue: Self)
        ensures
            queue.sender() == sender,
            queue.taken() == Seq::<LogPacketView>::empty(),
    {
        RecordQueue { sender, taken: Ghost(Seq::empty()) }
    }

    /// `tokio::sync::mpsc::UnboundedSender::send`: puts the packet on the
    /// queue without waiting. The answer is whether the queue took it; it
    /// refuses once its receiving half is closed or dropped, which nothing
    /// here can foresee. A packet that was taken is the newest entry of the
    /// history; a packet that was refused leaves the history as it was.
    /// The sender stays the same.
    #[verifier::external_body]
    pub(crate) fn offer(&mut self, packet: LogPacket) -> (taken: bool)
        ensures
            final(self).sender() == old(self).sender(),
            final(self).taken() == if taken {
                old(self).taken().push(packet@)
            } else {
                old(self).taken()
            },
    {
        self.sender.send(packet).is_ok()
    }
}

} // verus!

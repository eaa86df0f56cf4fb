//! The output dispatcher: it turns each packet into a record and sends the
//! record to every sink that the packet's mask selects, in the order in
//! which the sinks are configured.

use crate::log_def::priority_of;
use crate::log_def::timestamp_of;
use crate::log_def::LogMessage;
use crate::log_def::LogMessageView;
use crate::log_def::LogPriority;
use crate::log_def::LogTimeStamp;
use crate::log_def::TIMESTAMP_SZ;
use crate::msg_sink::line::line_of;
use crate::msg_sink::line::line_prefix;
use crate::msg_sink::MessageSink;
use crate::msg_sink::SinkType;
use crate::msg_sink::SinkTypeOrdinal;
use crate::msg_sink::SinkView;
use crate::prot_handler::LogPacket;
use crate::prot_handler::LogPacketView;
use vstd::prelude::*;
use vstd::utf8::decode_utf8;
use vstd::utf8::decode_utf8_encode_utf8;
use vstd::utf8::valid_utf8;

verus! {

/// A processor takes the configured sinks and the receiving end of the
/// record queue, and hands back a handle on the work it started.
pub trait MessageProcessor<M, R, H> {
    fn run(sink_vec: Vec<M>, receiver: R) -> H;
}

/// The text that `String::from_utf8_lossy` makes of a byte string.
pub uninterp spec fn lossy_text(bytes: Seq<u8>) -> Seq<char>;

/// `String::from_utf8_lossy`: the text of a byte string, with every
/// malformed stretch replaced by U+FFFD. Bytes that are valid UTF-8 come
/// out as the text they encode.
#[verifier::external_body]
fn decode_lossy(bytes: &[u8]) -> (text: String)
    ensures
        text@ == lossy_text(bytes@),
        valid_utf8(bytes@) ==> text@ == decode_utf8(bytes@),
{
    String::from_utf8_lossy(bytes).into_owned()
}

/// The text of a packet's payload: what the bytes encode where they are
/// valid UTF-8, and the lenient reading of them otherwise.
pub open spec fn text_of(bytes: Seq<u8>) -> Seq<char> {
    if valid_utf8(bytes) {
        decode_utf8(bytes)
    } else {
        lossy_text(bytes)
    }
}

/// Whether a sink mask selects the sink with the given ordinal.
pub open spec fn selects(mask: u8, ordinal: SinkTypeOrdinal) -> bool {
    mask & ordinal.bit_of() != 0
}

/// The record that a packet stands for. The message is decoded leniently;
/// the packet carries no tag.
pub open spec fn message_of(packet: LogPacketView) -> LogMessageView {
    LogMessageView {
        pid: packet.pid as u64,
        priority: priority_of(packet.priority),
        timestamp: timestamp_of(packet.timestamp),
        tag: None,
        message: text_of(packet.message),
    }
}

/// The sink at position `i` after the packet was dispatched: it received
/// the packet's record if the packet's mask selects it, and is untouched
/// otherwise.
pub open spec fn delivered(sink: SinkView, packet: LogPacketView) -> SinkView {
    if selects(packet.sink_type, sink.ordinal()) {
        sink.after_send(message_of(packet))
    } else {
        sink
    }
}

/// A payload that is valid UTF-8 reaches the log file byte for byte: the
/// record's line is the prefix followed by the payload as it was sent.
pub proof fn lemma_valid_payload_kept(packet: LogPacketView)
    requires
        valid_utf8(packet.message),
    ensures
        line_of(message_of(packet)) == line_prefix(message_of(packet)) + packet.message,
{
    decode_utf8_encode_utf8(packet.message);
}

/// The dispatcher.
pub struct OutputHandler;

impl OutputHandler {
    /// Whether `mask` selects the sink with the given ordinal.
    pub fn is_selected(mask: u8, ordinal: &SinkTypeOrdinal) -> (selected: bool)
        ensures
            selected == selects(mask, *ordinal),
    {
        mask & ordinal.bit() != 0
    }

    /// Makes the record that `packet` stands for.
    pub fn to_message(packet: &LogPacket) -> (message: LogMessage)
        requires
            packet@.timestamp.len() == TIMESTAMP_SZ,
        ensures
            message@ == message_of(packet@),
    {
        LogMessage {
            pid: packet.pid as u64,
            priority: LogPriority::from_wire(packet.priority),
            timestamp: LogTimeStamp::from_wire(packet.timestamp.as_slice()),
            tag: None,
            message: decode_lossy(packet.message.as_slice()),
        }
    }

    /// Asks every sink, in order, to initialise itself. The sinks are at
    /// rest. No sink refuses at
    /// this point; one whose files cannot be opened shows it in its state
    /// once the host has reported, and stays in the list.
    pub fn init_sinks(sink_vec: &mut Vec<SinkType>)
        requires
            forall|i: int|
                0 <= i < old(sink_vec)@.len() ==> (#[trigger] old(sink_vec)@[i])@.wf() && !old(
                    sink_vec,
                )@[i]@.busy(),
        ensures
            final(sink_vec)@.len() == old(sink_vec)@.len(),
            forall|i: int|
                0 <= i < old(sink_vec)@.len() ==> (#[trigger] final(sink_vec)@[i])@ == old(
                    sink_vec,
                )@[i]@.after_init(),
            forall|i: int| 0 <= i < final(sink_vec)@.len() ==> (#[trigger] final(sink_vec)@[i])@.wf(),
    {
        let mut i: usize = 0;
        while i < sink_vec.len()
            invariant
                i <= sink_vec@.len(),
                sink_vec@.len() == old(sink_vec)@.len(),
                forall|j: int| 0 <= j < sink_vec@.len() ==> (#[trigger] sink_vec@[j])@.wf(),
                forall|j: int|
                    0 <= j < i ==> (#[trigger] sink_vec@[j])@ == old(sink_vec)@[j]@.after_init(),
                forall|j: int| i <= j < sink_vec@.len() ==> sink_vec@[j] == old(sink_vec)@[j],
                forall|j: int| 0 <= j < old(sink_vec)@.len() ==> !(#[trigger] old(sink_vec)@[j])@.busy(),
            decreases sink_vec@.len() - i,
        {
            let _ = sink_vec[i].init();
            i = i + 1;
        }
    }

    /// Sends the record of `packet` to every sink that the packet selects,
    /// first sink first. Sinks that it does not select are left alone. The
    /// sinks are at rest: the host has done what earlier records called
    /// for.
    pub fn dispatch(sink_vec: &mut Vec<SinkType>, packet: &LogPacket)
        requires
            packet@.timestamp.len() == TIMESTAMP_SZ,
            forall|i: int|
                0 <= i < old(sink_vec)@.len() ==> (#[trigger] old(sink_vec)@[i])@.wf() && !old(
                    sink_vec,
                )@[i]@.busy(),
        ensures
            final(sink_vec)@.len() == old(sink_vec)@.len(),
            forall|i: int|
                0 <= i < old(sink_vec)@.len() ==> (#[trigger] final(sink_vec)@[i])@ == delivered(
                    old(sink_vec)@[i]@,
                    packet@,
                ),
            forall|i: int| 0 <= i < final(sink_vec)@.len() ==> (#[trigger] final(sink_vec)@[i])@.wf(),
    {
        let mut i: usize = 0;
        while i < sink_vec.len()
            invariant
                i <= sink_vec@.len(),
                sink_vec@.len() == old(sink_vec)@.len(),
                packet@.timestamp.len() == TIMESTAMP_SZ,
                forall|j: int| 0 <= j < sink_vec@.len() ==> (#[trigger] sink_vec@[j])@.wf(),
                forall|j: int|
                    0 <= j < i ==> (#[trigger] sink_vec@[j])@ == delivered(
                        old(sink_vec)@[j]@,
                        packet@,
                    ),
                forall|j: int| i <= j < sink_vec@.len() ==> sink_vec@[j] == old(sink_vec)@[j],
                forall|j: int| 0 <= j < old(sink_vec)@.len() ==> !(#[trigger] old(sink_vec)@[j])@.busy(),
            decreases sink_vec@.len() - i,
        {
            if Self::is_selected(packet.sink_type, sink_vec[i].get_ordinal()) {
                let message = Self::to_message(packet);
                sink_vec[i].send_message(message);
            }
            i = i + 1;
        }
    }
}

} // verus!

//! The sink that hands records to the platform's native log.
//!
//! The platform call takes NUL-terminated strings, so a message is cut at
//! its first NUL byte, and a message that starts with one is not written
//! at all. This module decides what is written; the host makes the call.

use crate::log_def::LogMessage;
use crate::log_def::LogMessageView;
use crate::log_def::LogPriority;
use crate::msg_sink::MessageSink;
use vstd::prelude::*;
use vstd::slice::slice_subrange;
use vstd::slice::slice_to_vec;
use vstd::utf8::encode_utf8;

verus! {

/// The platform's own priority scale.
#[derive(Debug, Clone, Copy, PartialEq, Eq, Structural)]
pub enum AndroidLogPriority {
    Unknown,
    Default,
    Verbose,
    Debug,
    Info,
    Warn,
    Error,
    Fatal,
    Silent,
}

impl AndroidLogPriority {
    /// The integer that the platform call takes for this priority.
    pub open spec fn code_of(self) -> i32 {
        match self {
            AndroidLogPriority::Unknown => 0,
            AndroidLogPriority::Default => 1,
            AndroidLogPriority::Verbose => 2,
            AndroidLogPriority::Debug => 3,
            AndroidLogPriority::Info => 4,
            AndroidLogPriority::Warn => 5,
            AndroidLogPriority::Error => 6,
            AndroidLogPriority::Fatal => 7,
            AndroidLogPriority::Silent => 8,
        }
    }

    /// The integer that the platform call takes for this priority.
    pub fn code(&self) -> (code: i32)
        ensures
            code == self.code_of(),
    {
        match self {
            AndroidLogPriority::Unknown => 0,
            AndroidLogPriority::Default => 1,
            AndroidLogPriority::Verbose => 2,
            AndroidLogPriority::Debug => 3,
            AndroidLogPriority::Info => 4,
            AndroidLogPriority::Warn => 5,
            AndroidLogPriority::Error => 6,
            AndroidLogPriority::Fatal => 7,
            AndroidLogPriority::Silent => 8,
        }
    }
}

/// The platform priority that stands for one of ours.
pub open spec fn native_priority(priority: LogPriority) -> AndroidLogPriority {
    match priority {
        LogPriority::Verbose => AndroidLogPriority::Verbose,
        LogPriority::Debug => AndroidLogPriority::Debug,
        LogPriority::Info => AndroidLogPriority::Info,
        LogPriority::Warn => AndroidLogPriority::Warn,
        LogPriority::Error => AndroidLogPriority::Error,
        LogPriority::Fatal => AndroidLogPriority::Fatal,
    }
}

pub fn convert_priority(priority: LogPriority) -> (native: AndroidLogPriority)
    ensures
        native == native_priority(priority),
{
    match priority {
        LogPriority::Debug => AndroidLogPriority::Debug,
        LogPriority::Info => AndroidLogPriority::Info,
        LogPriority::Warn => AndroidLogPriority::Warn,
        LogPriority::Error => AndroidLogPriority::Error,
        LogPriority::Fatal => AndroidLogPriority::Fatal,
        _ => AndroidLogPriority::Verbose,
    }
}

/// The tag under which the daemon writes.
pub const LOG_TAG: &'static str = "NotCat";

/// No byte of `bytes` is NUL.
pub open spec fn nul_free(bytes: Seq<u8>) -> bool {
    forall|i: int| 0 <= i < bytes.len() ==> bytes[i] != 0
}

/// The position of the first NUL byte of `bytes`, or their number if there
/// is none.
pub open spec fn first_nul(bytes: Seq<u8>) -> int
    decreases bytes.len(),
{
    if bytes.len() == 0 || bytes[0] == 0 {
        0
    } else {
        1 + first_nul(bytes.skip(1))
    }
}

/// What [`first_nul`] computes: a position up to which no byte is NUL, and
/// at which the bytes end or a NUL stands.
pub proof fn lemma_first_nul(bytes: Seq<u8>)
    ensures
        0 <= first_nul(bytes) <= bytes.len(),
        nul_free(bytes.take(first_nul(bytes))),
        first_nul(bytes) < bytes.len() ==> bytes[first_nul(bytes)] == 0,
        nul_free(bytes) <==> first_nul(bytes) == bytes.len(),
    decreases bytes.len(),
{
    if bytes.len() == 0 || bytes[0] == 0 {
    } else {
        let rest = bytes.skip(1);
        lemma_first_nul(rest);
        let cut = first_nul(bytes);
        assert forall|i: int| 0 <= i < cut implies bytes.take(cut)[i] != 0 by {
            if i > 0 {
                assert(bytes[i] == rest.take(cut - 1)[i - 1]);
            }
        }
        if nul_free(bytes) {
            assert forall|i: int| 0 <= i < rest.len() implies rest[i] != 0 by {
                assert(rest[i] == bytes[i + 1]);
            }
        }
        if first_nul(bytes) == bytes.len() {
            assert(bytes.take(cut) =~= bytes);
        }
    }
}

/// One call of the platform's log-write primitive. Neither byte string
/// holds a NUL.
#[derive(Debug, Clone, PartialEq, Eq)]
pub struct NativeWrite {
    pub priority: AndroidLogPriority,
    pub tag: Vec<u8>,
    pub text: Vec<u8>,
}

/// Mathematical content of a [`NativeWrite`].
pub ghost struct NativeWriteView {
    pub priority: AndroidLogPriority,
    pub tag: Seq<u8>,
    pub text: Seq<u8>,
}

impl View for NativeWrite {
    type V = NativeWriteView;

    open spec fn view(&self) -> NativeWriteView {
        NativeWriteView { priority: self.priority, tag: self.tag@, text: self.text@ }
    }
}

/// What is written for a message with the given tag and text, if anything.
/// Nothing is written where the tag holds a NUL or the text starts with
/// one. Otherwise the text is written up to its first NUL.
pub open spec fn native_write_of(
    priority: AndroidLogPriority,
    tag: Seq<u8>,
    text: Seq<u8>,
) -> Option<NativeWriteView> {
    if !nul_free(tag) || (text.len() > 0 && text[0] == 0) {
        None
    } else {
        Some(NativeWriteView { priority, tag, text: text.take(first_nul(text)) })
    }
}

/// The position of the first NUL byte of `bytes`, or their number if there
/// is none.
fn find_nul(bytes: &[u8]) -> (at: usize)
    ensures
        at == first_nul(bytes@),
        at <= bytes@.len(),
        at < bytes@.len() ==> bytes@[at as int] == 0,
        at == bytes@.len() <==> nul_free(bytes@),
{
    let mut at: usize = 0;
    assert(bytes@.skip(0) =~= bytes@);
    while at < bytes.len() && bytes[at] != 0
        invariant
            at <= bytes@.len(),
            first_nul(bytes@) == at + first_nul(bytes@.skip(at as int)),
        decreases bytes@.len() - at,
    {
        proof {
            let here = bytes@.skip(at as int);
            assert(here[0] == bytes@[at as int]);
            assert(here.skip(1) =~= bytes@.skip(at + 1));
        }
        at = at + 1;
    }
    proof {
        let here = bytes@.skip(at as int);
        if at < bytes@.len() {
            assert(here[0] == bytes@[at as int]);
        }
        lemma_first_nul(bytes@);
    }
    at
}

/// Prepares one write to the platform log: the call that the host is to
/// make for this priority, tag and message, or `None` where the message is
/// dropped.
pub fn log_android_native(prio: AndroidLogPriority, tag: &str, msg: &str) -> (write: Option<
    NativeWrite,
>)
    ensures
        match write {
            Some(w) => native_write_of(prio, encode_utf8(tag@), encode_utf8(msg@)) == Some(w@),
            None => native_write_of(prio, encode_utf8(tag@), encode_utf8(msg@)).is_none(),
        },
{
    let tag_bytes = tag.as_bytes();
    let text = msg.as_bytes();
    assert(tag_bytes@ == encode_utf8(tag@));
    assert(text@ == encode_utf8(msg@));
    if find_nul(tag_bytes) < tag_bytes.len() {
        return None;
    }
    let cut = find_nul(text);
    if cut == 0 && text.len() > 0 {
        return None;
    }
    Some(
        NativeWrite {
            priority: prio,
            tag: slice_to_vec(tag_bytes),
            text: slice_to_vec(slice_subrange(text, 0, cut)),
        },
    )
}

/// The write that a record asks of the platform log, if any. Every record
/// is written under the daemon's tag, whatever tag it carries itself.
pub open spec fn native_write_for(message: LogMessageView) -> Option<NativeWriteView> {
    native_write_of(
        native_priority(message.priority),
        encode_utf8(LOG_TAG@),
        encode_utf8(message.message),
    )
}

/// The native-log sink. It keeps no state of its own beside the one write
/// that the host has not made yet; it is at rest when there is none.
#[derive(Debug)]
pub struct AndroidLog {
    outstanding: Option<NativeWrite>,
}

impl View for AndroidLog {
    type V = Option<NativeWriteView>;

    closed spec fn view(&self) -> Option<NativeWriteView> {
        match self.outstanding {
            Some(w) => Some(w@),
            None => None,
        }
    }
}

impl AndroidLog {
    /// A sink with nothing to write.
    pub fn new() -> (sink: Self)
        ensures
            sink@.is_none(),
    {
        AndroidLog { outstanding: None }
    }

    /// The write that the host is to make next, if any.
    pub fn pending(&self) -> (write: Option<&NativeWrite>)
        ensures
            match write {
                Some(w) => self@ == Some(w@),
                None => self@.is_none(),
            },
    {
        self.outstanding.as_ref()
    }

    /// Tells the sink that the outstanding write was made. Whether the
    /// platform took it makes no difference.
    pub fn complete(&mut self)
        ensures
            final(self)@.is_none(),
    {
        self.outstanding = None;
    }
}

impl MessageSink for AndroidLog {
    open spec fn ready(&self) -> bool {
        true
    }

    open spec fn at_rest(&self) -> bool {
        self@.is_none()
    }

    fn init(&mut self) -> (result: Result<(), String>)
        ensures
            result.is_ok(),
            final(self)@ == old(self)@,
    {
        Ok(())
    }

    fn send_message(&mut self, message: LogMessage)
        ensures
            final(self)@ == native_write_for(message@),
    {
        let priority = convert_priority(message.priority);
        self.outstanding = log_android_native(priority, LOG_TAG, message.message.as_str());
    }

    fn close(&mut self) -> (result: Result<(), String>)
        ensures
            result.is_ok(),
            final(self)@ == old(self)@,
    {
        Ok(())
    }
}

} // verus!

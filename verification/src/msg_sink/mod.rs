//! The sinks that records are delivered to.
//!
//! A sink performs no I/O. An event may leave it with an action for the
//! host ([`SinkType::pending`]); the host performs the action and reports
//! back ([`SinkType::complete`]) until the sink names no further action.

pub mod android_native;
pub mod line;
pub mod local_file;
pub mod ring;

use crate::log_def::LogMessage;
use crate::log_def::LogMessageView;
use crate::msg_sink::android_native::native_write_for;
use crate::msg_sink::android_native::AndroidLog;
use crate::msg_sink::android_native::NativeWrite;
use crate::msg_sink::android_native::NativeWriteView;
use crate::msg_sink::local_file::file_after_send;
use crate::msg_sink::local_file::FileOp;
use crate::msg_sink::local_file::IoOutcome;
use crate::msg_sink::local_file::LocalFileSink;
use crate::msg_sink::local_file::LoggingEventView;
use crate::msg_sink::local_file::LoggingState;
use crate::msg_sink::local_file::SinkModel;
use crate::msg_sink::local_file::Step;
use crate::msg_sink::local_file::MAX_LOG_FILES_COUNT;
use crate::msg_sink::local_file::MAX_LOG_FILE_SIZE;
use vstd::prelude::*;

verus! {

/// What every sink offers to the dispatcher. A sink takes an event only at
/// rest, that is once its host has done what earlier events called for.
pub trait MessageSink {
    /// The sink's invariant holds.
    spec fn ready(&self) -> bool;

    /// The sink waits for nothing from its host.
    spec fn at_rest(&self) -> bool;

    /// Prepares the sink for records.
    fn init(&mut self) -> (result: Result<(), String>)
        requires
            old(self).ready(),
            old(self).at_rest(),
        ensures
            final(self).ready(),
    ;

    /// Hands one record to the sink.
    fn send_message(&mut self, message: LogMessage)
        requires
            old(self).ready(),
            old(self).at_rest(),
        ensures
            final(self).ready(),
    ;

    /// Lets the sink finish its work.
    fn close(&mut self) -> (result: Result<(), String>)
        requires
            old(self).ready(),
            old(self).at_rest(),
        ensures
            final(self).ready(),
    ;
}

/// The kinds of sink. Each has its own bit in a record's sink mask.
#[derive(Debug, Clone, Copy, PartialEq, Eq, Structural)]
pub enum SinkTypeOrdinal {
    LocalFileType,
    AndroidNativeType,
}

impl SinkTypeOrdinal {
    /// The bit of this kind in a sink mask.
    pub open spec fn bit_of(self) -> u8 {
        match self {
            SinkTypeOrdinal::LocalFileType => 1,
            SinkTypeOrdinal::AndroidNativeType => 2,
        }
    }

    /// The bit of this kind in a sink mask.
    pub fn bit(&self) -> (bit: u8)
        ensures
            bit == self.bit_of(),
    {
        match self {
            SinkTypeOrdinal::LocalFileType => 1,
            SinkTypeOrdinal::AndroidNativeType => 2,
        }
    }
}

/// A configured sink with the ordinal it answers to.
#[derive(Debug)]
#[allow(inconsistent_fields)]
pub enum SinkType {
    LocalFile { implem: LocalFileSink, ordinal: SinkTypeOrdinal },
    AndroidNative { implem: AndroidLog, ordinal: SinkTypeOrdinal },
}

/// Mathematical content of a [`SinkType`].
#[allow(inconsistent_fields)]
pub ghost enum SinkView {
    LocalFile { sink: SinkModel, ordinal: SinkTypeOrdinal },
    AndroidNative { sink: Option<NativeWriteView>, ordinal: SinkTypeOrdinal },
}

impl SinkView {
    pub open spec fn ordinal(self) -> SinkTypeOrdinal {
        match self {
            SinkView::LocalFile { ordinal, .. } => ordinal,
            SinkView::AndroidNative { ordinal, .. } => ordinal,
        }
    }

    /// The sink's invariant.
    pub open spec fn wf(self) -> bool {
        match self {
            SinkView::LocalFile { sink, .. } => sink.wf(),
            SinkView::AndroidNative { .. } => true,
        }
    }

    /// Whether the sink waits for its host to act.
    pub open spec fn busy(self) -> bool {
        match self {
            SinkView::LocalFile { sink, .. } => sink.step != Step::Idle,
            SinkView::AndroidNative { sink, .. } => sink.is_some(),
        }
    }

    /// The sink after it was asked to initialise itself.
    pub open spec fn after_init(self) -> SinkView {
        match self {
            SinkView::LocalFile { sink, ordinal } => SinkView::LocalFile {
                sink: sink.begin(LoggingEventView::Init),
                ordinal,
            },
            SinkView::AndroidNative { .. } => self,
        }
    }

    /// The sink after a record was sent to it.
    pub open spec fn after_send(self, message: LogMessageView) -> SinkView {
        match self {
            SinkView::LocalFile { sink, ordinal } => SinkView::LocalFile {
                sink: file_after_send(sink, message),
                ordinal,
            },
            SinkView::AndroidNative { sink, ordinal } => SinkView::AndroidNative {
                sink: native_write_for(message),
                ordinal,
            },
        }
    }

    /// The sink after it was asked to close: a file sink that runs starts
    /// its last flush; the native sink has nothing to finish.
    pub open spec fn after_close(self) -> SinkView {
        match self {
            SinkView::LocalFile { sink, ordinal } => SinkView::LocalFile {
                sink: sink.begin(LoggingEventView::Close),
                ordinal,
            },
            SinkView::AndroidNative { .. } => self,
        }
    }

    /// Whether the host is to keep a file open for the sink.
    pub open spec fn holds_file(self) -> bool {
        match self {
            SinkView::LocalFile { sink, .. } => sink.holds_file(),
            SinkView::AndroidNative { .. } => false,
        }
    }

    /// The sink after its host reported the outcome of the action it had
    /// named. The native sink takes any outcome as completion.
    pub open spec fn after_outcome(self, outcome: IoOutcome) -> SinkView {
        match self {
            SinkView::LocalFile { sink, ordinal } => SinkView::LocalFile {
                sink: sink.advance(outcome),
                ordinal,
            },
            SinkView::AndroidNative { sink, ordinal } => SinkView::AndroidNative {
                sink: None,
                ordinal,
            },
        }
    }
}

impl View for SinkType {
    type V = SinkView;

    open spec fn view(&self) -> SinkView {
        match self {
            SinkType::LocalFile { implem, ordinal } => SinkView::LocalFile {
                sink: implem@,
                ordinal: *ordinal,
            },
            SinkType::AndroidNative { implem, ordinal } => SinkView::AndroidNative {
                sink: implem@,
                ordinal: *ordinal,
            },
        }
    }
}

/// What a sink asks its host to do.
#[derive(Debug)]
pub enum SinkAction<'a> {
    /// Perform this file operation; `line` is what an `Append` writes
    /// before the newline.
    File { op: FileOp, line: &'a Vec<u8> },
    /// Make this call of the platform log.
    Native { write: &'a NativeWrite },
}

impl MessageSink for SinkType {
    open spec fn ready(&self) -> bool {
        self@.wf()
    }

    open spec fn at_rest(&self) -> bool {
        !self@.busy()
    }

    /// Initialising never fails at this point: a file sink that cannot open
    /// its ring shows it in its state once the host has reported.
    fn init(&mut self) -> (result: Result<(), String>)
        ensures
            result.is_ok(),
            final(self)@ == old(self)@.after_init(),
    {
        match self {
            SinkType::LocalFile { implem, .. } => implem.init(),
            SinkType::AndroidNative { .. } => Ok(()),
        }
    }

    fn send_message(&mut self, message: LogMessage)
        ensures
            final(self)@ == old(self)@.after_send(message@),
    {
        match self {
            SinkType::LocalFile { implem, .. } => implem.send_message(message),
            SinkType::AndroidNative { implem, .. } => implem.send_message(message),
        }
    }

    /// Closes the sink behind the handle.
    fn close(&mut self) -> (result: Result<(), String>)
        ensures
            result.is_ok(),
            final(self)@ == old(self)@.after_close(),
    {
        match self {
            SinkType::LocalFile { implem, .. } => implem.close(),
            SinkType::AndroidNative { implem, .. } => implem.close(),
        }
    }
}

impl SinkType {
    /// A fresh sink of the kind that `ordinal` names. There is one for
    /// every ordinal.
    pub fn new(ordinal: SinkTypeOrdinal) -> (made: Option<Self>)
        ensures
            made.is_some(),
            made.unwrap()@.wf(),
            made.unwrap()@ == match ordinal {
                SinkTypeOrdinal::LocalFileType => SinkView::LocalFile {
                    sink: SinkModel {
                        state: LoggingState::Starting,
                        step: Step::Idle,
                        number: 0,
                        size: 0,
                        line: Seq::empty(),
                        count: MAX_LOG_FILES_COUNT,
                        cap: MAX_LOG_FILE_SIZE,
                    },
                    ordinal,
                },
                SinkTypeOrdinal::AndroidNativeType => SinkView::AndroidNative {
                    sink: None,
                    ordinal,
                },
            },
    {
        match ordinal {
            SinkTypeOrdinal::LocalFileType => Some(
                SinkType::LocalFile { implem: LocalFileSink::new(), ordinal },
            ),
            SinkTypeOrdinal::AndroidNativeType => Some(
                SinkType::AndroidNative { implem: AndroidLog::new(), ordinal },
            ),
        }
    }

    pub fn get_ordinal(&self) -> (ordinal: &SinkTypeOrdinal)
        ensures
            *ordinal == self@.ordinal(),
    {
        match self {
            SinkType::LocalFile { ordinal, .. } => ordinal,
            SinkType::AndroidNative { ordinal, .. } => ordinal,
        }
    }

    /// The action that the host is to perform next for this sink, if any.
    pub fn pending(&self) -> (action: Option<SinkAction<'_>>)
        requires
            self@.wf(),
        ensures
            action.is_some() == self@.busy(),
            match action {
                Some(SinkAction::File { op, line }) => self@ matches SinkView::LocalFile {
                    sink,
                    ..
                } && sink.awaited() == Some(op) && sink.line == line@,
                Some(SinkAction::Native { write }) => self@ matches SinkView::AndroidNative {
                    sink,
                    ..
                } && sink == Some(write@),
                None => true,
            },
    {
        match self {
            SinkType::LocalFile { implem, .. } => match implem.pending() {
                Some(op) => Some(SinkAction::File { op, line: implem.line() }),
                None => None,
            },
            SinkType::AndroidNative { implem, .. } => match implem.pending() {
                Some(write) => Some(SinkAction::Native { write }),
                None => None,
            },
        }
    }

    /// Whether the host is to keep a file open for this sink.
    pub fn keeps_file(&self) -> (kept: bool)
        ensures
            kept == self@.holds_file(),
    {
        match self {
            SinkType::LocalFile { implem, .. } => implem.keeps_file(),
            SinkType::AndroidNative { .. } => false,
        }
    }

    /// Takes the outcome of the action that [`Self::pending`] named.
    pub fn complete(&mut self, outcome: IoOutcome)
        requires
            old(self)@.wf(),
        ensures
            final(self)@ == old(self)@.after_outcome(outcome),
            final(self)@.wf(),
    {
        match self {
            SinkType::LocalFile { implem, .. } => implem.complete(outcome),
            SinkType::AndroidNative { implem, .. } => implem.complete(),
        }
    }
}

} // verus!

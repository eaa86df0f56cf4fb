//! The sink that appends records to a ring of size-capped files.
//!
//! The files are the generations `0` to `N - 1` of one log; a higher index
//! holds later records. The sink writes to one generation until the next
//! line would bring it to the cap; then it moves on to the next index, or,
//! at the last index, drops generation `0`, shifts every other generation
//! down by one and starts the last one anew.
//!
//! The sink touches no file itself. It is a state machine that names one
//! file operation at a time ([`RotatingFileSink::pending`]), and takes the
//! operation's outcome ([`RotatingFileSink::complete`]) to decide what
//! comes next. The host performs the operations.

use crate::log_def::LogMessage;
use crate::log_def::LogMessageView;
use crate::msg_sink::line::decimal;
use crate::msg_sink::line::format_line;
use crate::msg_sink::line::push_bytes;
use crate::msg_sink::line::push_decimal;
use crate::msg_sink::line::line_of;
use crate::msg_sink::MessageSink;
use vstd::prelude::*;
use vstd::utf8::encode_utf8;

verus! {

/// Directory of the log files.
pub const LOG_DIR: &'static str = "/data/misc/notcat";

/// Name of the log files; generation `i` carries the suffix `.i`.
pub const LOG_FILE: &'static str = "notcat.log";

/// Cap on the size of all generations together: 100 MiB.
pub const MAX_LOG_FILES_SIZE: u64 = 104857600;

/// Number of generations.
pub const MAX_LOG_FILES_COUNT: u32 = 5;

/// Cap on the size of one generation: 20 MiB.
pub const MAX_LOG_FILE_SIZE: u64 = 20971520;

pub const SLASH: u8 = 0x2f;

pub const DOT: u8 = 0x2e;

/// The path of generation `index`: directory, `/`, file name, `.`, and the
/// index in decimal.
pub open spec fn path_of(index: u32) -> Seq<u8> {
    (encode_utf8(LOG_DIR@).push(SLASH) + encode_utf8(LOG_FILE@)).push(DOT) + decimal(index as nat)
}

/// The path of generation `index`, as bytes.
pub fn file_path(index: u32) -> (path: Vec<u8>)
    ensures
        path@ == path_of(index),
{
    let mut path: Vec<u8> = Vec::new();
    push_bytes(&mut path, LOG_DIR.as_bytes());
    path.push(SLASH);
    push_bytes(&mut path, LOG_FILE.as_bytes());
    path.push(DOT);
    push_decimal(&mut path, index as u64);
    assert(Seq::<u8>::empty() + encode_utf8(LOG_DIR@) =~= encode_utf8(LOG_DIR@));
    path
}

/// Where a sink stands in its life.
#[derive(Debug, Clone, Copy, PartialEq, Eq, Structural)]
pub enum LoggingState {
    /// Not initialised yet.
    Starting,
    /// A generation is open and takes lines.
    Running,
    /// Closed in good order.
    Stopping,
    /// A file operation failed. The sink stays here and drops what it is
    /// sent.
    Error,
}

/// What can be asked of a sink.
#[derive(Debug)]
pub enum LoggingEvent {
    Init,
    /// Write this line; the sink adds the newline.
    SendMessage(Vec<u8>),
    Close,
}

/// Mathematical content of a [`LoggingEvent`].
pub ghost enum LoggingEventView {
    Init,
    SendMessage(Seq<u8>),
    Close,
}

impl View for LoggingEvent {
    type V = LoggingEventView;

    open spec fn view(&self) -> LoggingEventView {
        match self {
            LoggingEvent::Init => LoggingEventView::Init,
            LoggingEvent::SendMessage(line) => LoggingEventView::SendMessage(line@),
            LoggingEvent::Close => LoggingEventView::Close,
        }
    }
}

/// One file operation that the sink asks its host to perform. Generations
/// are named by index.
#[derive(Debug, Clone, Copy, PartialEq, Eq, Structural)]
pub enum FileOp {
    /// Find out whether the generation exists.
    Probe { index: u32 },
    /// Open the generation, which exists, for appending, and measure it.
    OpenExisting { index: u32 },
    /// Open the generation for appending and create it if it is missing.
    /// The file opened replaces the one that was open before.
    Create { index: u32 },
    /// Delete the generation.
    Remove { index: u32 },
    /// Give generation `from` the name of generation `to`.
    Rename { from: u32, to: u32 },
    /// Append the sink's current line and a newline to the open file,
    /// which is this generation.
    Append { index: u32 },
    /// Flush the open file, which is this generation.
    Flush { index: u32 },
}

/// What became of a file operation. `ok` tells whether it succeeded; for a
/// probe, whether the generation exists. `size` is read only after a
/// successful `OpenExisting`: the file's length, or 0 where it could not
/// be measured.
#[derive(Debug, Clone, Copy, PartialEq, Eq, Structural)]
pub struct IoOutcome {
    pub ok: bool,
    pub size: u64,
}

/// The operation that a sink waits for.
#[derive(Debug, Clone, Copy, PartialEq, Eq, Structural)]
pub enum Step {
    /// None: the sink is ready for an event.
    Idle,
    /// Initialising: looking for the highest generation that exists.
    Probing { index: u32 },
    /// Initialising: opening the generation found.
    Opening { index: u32 },
    /// Initialising: no generation exists, creating the first.
    CreatingFirst,
    /// Rotating at the last index: deleting generation 0.
    Removing,
    /// Rotating at the last index: shifting generation `from` down.
    Renaming { from: u32 },
    /// Rotating: opening the generation that takes the next lines. `failed`
    /// records that a rename before it failed.
    Reopening { failed: bool },
    /// Appending the line.
    Writing,
    /// Flushing after the line. `failed` records that the append failed.
    Flushing { failed: bool },
    /// Flushing before the sink stops.
    Closing,
}

/// A size after `len` bytes and a newline were added to it. It stops at the
/// largest number that the counter holds.
pub open spec fn grown(size: u64, len: nat) -> u64 {
    if size + 1 + len > u64::MAX {
        u64::MAX
    } else {
        (size + 1 + len) as u64
    }
}

/// The rotating sink as a mathematical value.
pub ghost struct SinkModel {
    pub state: LoggingState,
    pub step: Step,
    /// Index of the generation that takes the lines.
    pub number: u32,
    /// Bytes in that generation, as far as the sink knows.
    pub size: u64,
    /// The line sent last.
    pub line: Seq<u8>,
    /// Number of generations in the ring.
    pub count: u32,
    /// Cap on one generation's size.
    pub cap: u64,
}

impl SinkModel {
    /// The generation written to is either below the cap or holds nothing
    /// but the line sent last.
    pub open spec fn size_settled(self) -> bool {
        self.size < self.cap || self.size == grown(0, self.line.len())
    }

    /// The invariant of a sink: the ring has a generation, the index is
    /// inside the ring, and the step fits the state.
    pub open spec fn wf(self) -> bool {
        &&& self.count >= 1
        &&& self.number < self.count
        &&& match self.step {
            Step::Idle => true,
            Step::Probing { index } => self.state == LoggingState::Starting && index < self.count,
            Step::Opening { index } => self.state == LoggingState::Starting && index
                == self.number,
            Step::CreatingFirst => self.state == LoggingState::Starting && self.number == 0,
            Step::Removing => self.state == LoggingState::Running && self.number == self.count
                - 1,
            Step::Renaming { from } => self.state == LoggingState::Running && self.number
                == self.count - 1 && 1 <= from < self.count,
            Step::Reopening { failed } => self.state == LoggingState::Running,
            Step::Writing => self.state == LoggingState::Running && self.size_settled(),
            Step::Flushing { failed } => self.state == LoggingState::Running
                && self.size_settled(),
            Step::Closing => self.state == LoggingState::Running,
        }
    }

    /// Whether a line of `len` bytes, with its newline, would bring the
    /// current generation to the cap.
    pub open spec fn overflows(self, len: nat) -> bool {
        self.size + 1 + len >= self.cap
    }

    /// The file operation that the sink waits for.
    pub open spec fn awaited(self) -> Option<FileOp> {
        match self.step {
            Step::Idle => None,
            Step::Probing { index } => Some(FileOp::Probe { index }),
            Step::Opening { index } => Some(FileOp::OpenExisting { index }),
            Step::CreatingFirst => Some(FileOp::Create { index: 0 }),
            Step::Removing => Some(FileOp::Remove { index: 0 }),
            Step::Renaming { from } => Some(FileOp::Rename { from, to: (from - 1) as u32 }),
            Step::Reopening { failed } => Some(FileOp::Create { index: self.number }),
            Step::Writing => Some(FileOp::Append { index: self.number }),
            Step::Flushing { failed } => Some(FileOp::Flush { index: self.number }),
            Step::Closing => Some(FileOp::Flush { index: self.number }),
        }
    }

    /// The sink after an event that finds it at rest. Only three pairs of
    /// state and event do anything: `Init` while starting, and
    /// `SendMessage` and `Close` while running. Every other pair leaves
    /// the sink as it is.
    pub open spec fn begin(self, event: LoggingEventView) -> SinkModel {
        match (self.state, event) {
            (LoggingState::Starting, LoggingEventView::Init) => SinkModel {
                step: Step::Probing { index: (self.count - 1) as u32 },
                ..self
            },
            (LoggingState::Running, LoggingEventView::SendMessage(line)) => {
                if !self.overflows(line.len()) {
                    SinkModel {
                        step: Step::Writing,
                        size: grown(self.size, line.len()),
                        line,
                        ..self
                    }
                } else if self.number == self.count - 1 {
                    SinkModel { step: Step::Removing, line, ..self }
                } else {
                    SinkModel {
                        step: Step::Reopening { failed: false },
                        number: (self.number + 1) as u32,
                        size: 0,
                        line,
                        ..self
                    }
                }
            },
            (LoggingState::Running, LoggingEventView::Close) => SinkModel {
                step: Step::Closing,
                ..self
            },
            _ => self,
        }
    }

    /// Whether the host is to keep the sink's file open: while the sink
    /// runs, and while it is in the middle of its work. Once the sink has
    /// stopped or failed, no file is held.
    pub open spec fn holds_file(self) -> bool {
        self.state == LoggingState::Running || self.step != Step::Idle
    }

    /// The sink at rest in the given state.
    pub open spec fn rest(self, state: LoggingState) -> SinkModel {
        SinkModel { state, step: Step::Idle, ..self }
    }

    /// The sink waiting for another operation.
    pub open spec fn then_step(self, step: Step) -> SinkModel {
        SinkModel { step, ..self }
    }

    /// The sink after the awaited operation ended with `outcome`.
    ///
    /// Initialising ends in `Running` once a generation is open, in `Error`
    /// where opening fails. A rotation that cannot delete generation 0 ends
    /// in `Error` at once; one that cannot rename goes on to open the next
    /// generation and then ends in `Error`. A failed append is still
    /// followed by the flush. Closing ends in `Stopping` whatever the flush
    /// did.
    pub open spec fn advance(self, outcome: IoOutcome) -> SinkModel {
        match self.step {
            Step::Idle => self,
            Step::Probing { index } => {
                if outcome.ok {
                    SinkModel { number: index, step: Step::Opening { index }, ..self }
                } else if index == 0 {
                    SinkModel { number: 0, size: 0, step: Step::CreatingFirst, ..self }
                } else {
                    self.then_step(Step::Probing { index: (index - 1) as u32 })
                }
            },
            Step::Opening { index } => {
                if outcome.ok {
                    SinkModel { size: outcome.size, ..self }.rest(LoggingState::Running)
                } else {
                    self.rest(LoggingState::Error)
                }
            },
            Step::CreatingFirst => {
                if outcome.ok {
                    self.rest(LoggingState::Running)
                } else {
                    self.rest(LoggingState::Error)
                }
            },
            Step::Removing => {
                if !outcome.ok {
                    self.rest(LoggingState::Error)
                } else if self.count == 1 {
                    self.then_step(Step::Reopening { failed: false })
                } else {
                    self.then_step(Step::Renaming { from: 1 })
                }
            },
            Step::Renaming { from } => {
                if !outcome.ok {
                    self.then_step(Step::Reopening { failed: true })
                } else if from == self.count - 1 {
                    self.then_step(Step::Reopening { failed: false })
                } else {
                    self.then_step(Step::Renaming { from: (from + 1) as u32 })
                }
            },
            Step::Reopening { failed } => {
                if outcome.ok && !failed {
                    SinkModel { size: grown(0, self.line.len()), step: Step::Writing, ..self }
                } else {
                    SinkModel { size: 0, ..self }.rest(LoggingState::Error)
                }
            },
            Step::Writing => self.then_step(Step::Flushing { failed: !outcome.ok }),
            Step::Flushing { failed } => {
                if outcome.ok && !failed {
                    self.rest(LoggingState::Running)
                } else {
                    self.rest(LoggingState::Error)
                }
            },
            Step::Closing => self.rest(LoggingState::Stopping),
        }
    }

    /// An upper bound on the operations that the sink will still ask for
    /// before it is at rest.
    pub open spec fn steps_left(self) -> nat {
        match self.step {
            Step::Idle => 0,
            Step::Probing { index } => (index + 2) as nat,
            Step::Opening { index } => 1,
            Step::CreatingFirst => 1,
            Step::Removing => (self.count + 4) as nat,
            Step::Renaming { from } => (self.count - from + 3) as nat,
            Step::Reopening { failed } => 3,
            Step::Writing => 2,
            Step::Flushing { failed } => 1,
            Step::Closing => 1,
        }
    }
}

/// The mutable facts about the generation that takes the lines.
#[derive(Debug, Clone, Copy, PartialEq, Eq, Structural)]
pub struct CurrentSinkFileData {
    pub number: u32,
    pub current_size: u64,
}

/// The state machine behind [`LocalFileSink`].
#[derive(Debug)]
pub struct RotatingFileSink {
    current_file_data: CurrentSinkFileData,
    state: LoggingState,
    step: Step,
    line: Vec<u8>,
    max_files: u32,
    max_file_size: u64,
}

impl View for RotatingFileSink {
    type V = SinkModel;

    closed spec fn view(&self) -> SinkModel {
        SinkModel {
            state: self.state,
            step: self.step,
            number: self.current_file_data.number,
            size: self.current_file_data.current_size,
            line: self.line@,
            count: self.max_files,
            cap: self.max_file_size,
        }
    }
}

/// Whether `size + 1 + len >= cap`, computed without overflow.
fn reaches_cap(size: u64, len: usize, cap: u64) -> (reached: bool)
    ensures
        reached == (size + 1 + len >= cap),
{
    let len = len as u64;
    if len >= cap {
        true
    } else {
        size >= cap - len - 1
    }
}

/// `size + 1 + len`, stopping at the largest `u64`.
fn grow(size: u64, len: usize) -> (sum: u64)
    ensures
        sum == grown(size, len as nat),
{
    let len = len as u64;
    if len >= u64::MAX - size {
        u64::MAX
    } else {
        size + 1 + len
    }
}

impl RotatingFileSink {
    /// A sink for the daemon's own ring: five generations of 20 MiB.
    pub fn new() -> (sink: Self)
        ensures
            sink@.wf(),
            sink@ == (SinkModel {
                state: LoggingState::Starting,
                step: Step::Idle,
                number: 0,
                size: 0,
                line: Seq::empty(),
                count: MAX_LOG_FILES_COUNT,
                cap: MAX_LOG_FILE_SIZE,
            }),
    {
        RotatingFileSink {
            current_file_data: CurrentSinkFileData { number: 0, current_size: 0 },
            state: LoggingState::Starting,
            step: Step::Idle,
            line: Vec::new(),
            max_files: MAX_LOG_FILES_COUNT,
            max_file_size: MAX_LOG_FILE_SIZE,
        }
    }

    /// A sink for a ring of `max_files` generations of at most
    /// `max_file_size` bytes. A ring needs at least one generation.
    pub fn with_limits(max_files: u32, max_file_size: u64) -> (made: Option<Self>)
        ensures
            made.is_some() <==> max_files >= 1,
            made.is_some() ==> made.unwrap()@.wf() && made.unwrap()@ == (SinkModel {
                state: LoggingState::Starting,
                step: Step::Idle,
                number: 0,
                size: 0,
                line: Seq::empty(),
                count: max_files,
                cap: max_file_size,
            }),
    {
        if max_files == 0 {
            return None;
        }
        Some(
            RotatingFileSink {
                current_file_data: CurrentSinkFileData { number: 0, current_size: 0 },
                state: LoggingState::Starting,
                step: Step::Idle,
                line: Vec::new(),
                max_files,
                max_file_size,
            },
        )
    }

    pub fn state(&self) -> (state: LoggingState)
        ensures
            state == self@.state,
    {
        self.state
    }

    /// Index and size of the generation that takes the lines.
    pub fn current_file(&self) -> (data: CurrentSinkFileData)
        ensures
            data.number == self@.number,
            data.current_size == self@.size,
    {
        self.current_file_data
    }

    /// The line sent last: what an `Append` is to write before the newline.
    pub fn line(&self) -> (line: &Vec<u8>)
        ensures
            line@ == self@.line,
    {
        &self.line
    }

    /// The file operation that the host is to perform next, if any.
    pub fn pending(&self) -> (op: Option<FileOp>)
        requires
            self@.wf(),
        ensures
            op == self@.awaited(),
    {
        match self.step {
            Step::Idle => None,
            Step::Probing { index } => Some(FileOp::Probe { index }),
            Step::Opening { index } => Some(FileOp::OpenExisting { index }),
            Step::CreatingFirst => Some(FileOp::Create { index: 0 }),
            Step::Removing => Some(FileOp::Remove { index: 0 }),
            Step::Renaming { from } => Some(FileOp::Rename { from, to: from - 1 }),
            Step::Reopening { .. } => Some(FileOp::Create { index: self.current_file_data.number }),
            Step::Writing => Some(FileOp::Append { index: self.current_file_data.number }),
            Step::Flushing { .. } => Some(FileOp::Flush { index: self.current_file_data.number }),
            Step::Closing => Some(FileOp::Flush { index: self.current_file_data.number }),
        }
    }

    /// Whether the host is to keep the sink's file open.
    pub fn keeps_file(&self) -> (kept: bool)
        ensures
            kept == self@.holds_file(),
    {
        self.state == LoggingState::Running || self.step != Step::Idle
    }

    /// Takes an event. The sink must be at rest: the host has performed
    /// every operation that earlier events called for. Afterwards the sink
    /// is at rest or names the first operation that the event calls for.
    pub fn handle_event(&mut self, event: LoggingEvent)
        requires
            old(self)@.wf(),
            old(self)@.step == Step::Idle,
        ensures
            final(self)@ == old(self)@.begin(event@),
            final(self)@.wf(),
    {
        match event {
            LoggingEvent::Init => {
                if self.state == LoggingState::Starting {
                    self.step = Step::Probing { index: self.max_files - 1 };
                }
            },
            LoggingEvent::SendMessage(line) => {
                if self.state == LoggingState::Running {
                    let size = self.current_file_data.current_size;
                    if !reaches_cap(size, line.len(), self.max_file_size) {
                        self.current_file_data.current_size = grow(size, line.len());
                        self.step = Step::Writing;
                    } else if self.current_file_data.number == self.max_files - 1 {
                        self.step = Step::Removing;
                    } else {
                        self.current_file_data.number = self.current_file_data.number + 1;
                        self.current_file_data.current_size = 0;
                        self.step = Step::Reopening { failed: false };
                    }
                    self.line = line;
                }
            },
            LoggingEvent::Close => {
                if self.state == LoggingState::Running {
                    self.step = Step::Closing;
                }
            },
        }
    }

    /// Takes the outcome of the operation that [`Self::pending`] named.
    /// Without such an operation nothing changes.
    pub fn complete(&mut self, outcome: IoOutcome)
        requires
            old(self)@.wf(),
        ensures
            final(self)@ == old(self)@.advance(outcome),
            final(self)@.wf(),
            final(self)@.steps_left() < old(self)@.steps_left() || old(self)@.step == Step::Idle,
    {
        match self.step {
            Step::Idle => {},
            Step::Probing { index } => {
                if outcome.ok {
                    self.current_file_data.number = index;
                    self.step = Step::Opening { index };
                } else if index == 0 {
                    self.current_file_data.number = 0;
                    self.current_file_data.current_size = 0;
                    self.step = Step::CreatingFirst;
                } else {
                    self.step = Step::Probing { index: index - 1 };
                }
            },
            Step::Opening { .. } => {
                if outcome.ok {
                    self.current_file_data.current_size = outcome.size;
                    self.state = LoggingState::Running;
                } else {
                    self.state = LoggingState::Error;
                }
                self.step = Step::Idle;
            },
            Step::CreatingFirst => {
                if outcome.ok {
                    self.state = LoggingState::Running;
                } else {
                    self.state = LoggingState::Error;
                }
                self.step = Step::Idle;
            },
            Step::Removing => {
                if !outcome.ok {
                    self.state = LoggingState::Error;
                    self.step = Step::Idle;
                } else if self.max_files == 1 {
                    self.step = Step::Reopening { failed: false };
                } else {
                    self.step = Step::Renaming { from: 1 };
                }
            },
            Step::Renaming { from } => {
                if !outcome.ok {
                    self.step = Step::Reopening { failed: true };
                } else if from == self.max_files - 1 {
                    self.step = Step::Reopening { failed: false };
                } else {
                    self.step = Step::Renaming { from: from + 1 };
                }
            },
            Step::Reopening { failed } => {
                if outcome.ok && !failed {
                    self.current_file_data.current_size = grow(0, self.line.len());
                    self.step = Step::Writing;
                } else {
                    self.current_file_data.current_size = 0;
                    self.state = LoggingState::Error;
                    self.step = Step::Idle;
                }
            },
            Step::Writing => {
                self.step = Step::Flushing { failed: !outcome.ok };
            },
            Step::Flushing { failed } => {
                if outcome.ok && !failed {
                    self.state = LoggingState::Running;
                } else {
                    self.state = LoggingState::Error;
                }
                self.step = Step::Idle;
            },
            Step::Closing => {
                self.state = LoggingState::Stopping;
                self.step = Step::Idle;
            },
        }
    }
}

/// The sink after a record was sent to it: the record's line is the event.
pub open spec fn file_after_send(sink: SinkModel, message: LogMessageView) -> SinkModel {
    sink.begin(LoggingEventView::SendMessage(line_of(message)))
}

/// The rotating-file sink: it turns records into lines and hands them to
/// its state machine.
#[derive(Debug)]
pub struct LocalFileSink {
    local_file_sm: RotatingFileSink,
}

impl View for LocalFileSink {
    type V = SinkModel;

    closed spec fn view(&self) -> SinkModel {
        self.local_file_sm@
    }
}

impl LocalFileSink {
    /// A sink for the daemon's own ring, not initialised yet.
    pub fn new() -> (sink: Self)
        ensures
            sink@.wf(),
            sink@ == (SinkModel {
                state: LoggingState::Starting,
                step: Step::Idle,
                number: 0,
                size: 0,
                line: Seq::empty(),
                count: MAX_LOG_FILES_COUNT,
                cap: MAX_LOG_FILE_SIZE,
            }),
    {
        LocalFileSink { local_file_sm: RotatingFileSink::new() }
    }

    /// A sink over the given state machine.
    pub fn over(machine: RotatingFileSink) -> (sink: Self)
        ensures
            sink@ == machine@,
    {
        LocalFileSink { local_file_sm: machine }
    }

    pub fn state(&self) -> (state: LoggingState)
        ensures
            state == self@.state,
    {
        self.local_file_sm.state()
    }

    /// Index and size of the generation that takes the lines.
    pub fn current_file(&self) -> (data: CurrentSinkFileData)
        ensures
            data.number == self@.number,
            data.current_size == self@.size,
    {
        self.local_file_sm.current_file()
    }

    /// The line sent last: what an `Append` is to write before the newline.
    pub fn line(&self) -> (line: &Vec<u8>)
        ensures
            line@ == self@.line,
    {
        self.local_file_sm.line()
    }

    /// Whether the host is to keep the sink's file open.
    pub fn keeps_file(&self) -> (kept: bool)
        ensures
            kept == self@.holds_file(),
    {
        self.local_file_sm.keeps_file()
    }

    /// The file operation that the host is to perform next, if any.
    pub fn pending(&self) -> (op: Option<FileOp>)
        requires
            self@.wf(),
        ensures
            op == self@.awaited(),
    {
        self.local_file_sm.pending()
    }

    /// Takes the outcome of the operation that [`Self::pending`] named.
    pub fn complete(&mut self, outcome: IoOutcome)
        requires
            old(self)@.wf(),
        ensures
            final(self)@ == old(self)@.advance(outcome),
            final(self)@.wf(),
            final(self)@.steps_left() < old(self)@.steps_left() || old(self)@.step == Step::Idle,
    {
        self.local_file_sm.complete(outcome)
    }
}

impl MessageSink for LocalFileSink {
    open spec fn ready(&self) -> bool {
        self@.wf()
    }

    open spec fn at_rest(&self) -> bool {
        self@.step == Step::Idle
    }

    fn init(&mut self) -> (result: Result<(), String>)
        ensures
            result.is_ok(),
            final(self)@ == old(self)@.begin(LoggingEventView::Init),
    {
        self.local_file_sm.handle_event(LoggingEvent::Init);
        Ok(())
    }

    fn send_message(&mut self, message: LogMessage)
        ensures
            final(self)@ == file_after_send(old(self)@, message@),
    {
        let line = format_line(&message);
        self.local_file_sm.handle_event(LoggingEvent::SendMessage(line));
    }

    fn close(&mut self) -> (result: Result<(), String>)
        ensures
            result.is_ok(),
            final(self)@ == old(self)@.begin(LoggingEventView::Close),
    {
        self.local_file_sm.handle_event(LoggingEvent::Close);
        Ok(())
    }
}

} // verus!

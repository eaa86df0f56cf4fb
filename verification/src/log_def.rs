//! The record types shared by the decoder, the dispatcher and the sinks.

use vstd::prelude::*;

verus! {

/// Severity of a record, in increasing order.
#[derive(Debug, Clone, Copy, PartialEq, Eq, Structural)]
pub enum LogPriority {
    Verbose,
    Debug,
    Info,
    Warn,
    Error,
    Fatal,
}

/// Wall-clock time as the client reported it. Nothing is validated: the
/// daemon only carries these numbers through.
#[derive(Debug, Clone, Copy, PartialEq, Eq, Structural)]
pub struct LogTimeStamp {
    pub year: u16,
    pub month: u8,
    pub day: u8,
    pub hour: u8,
    pub minute: u8,
    pub second: u8,
    pub millisecond: u16,
}

/// A record as the sinks receive it.
#[derive(Debug, Clone, PartialEq, Eq)]
pub struct LogMessage {
    pub pid: u64,
    pub priority: LogPriority,
    pub timestamp: LogTimeStamp,
    pub tag: Option<String>,
    pub message: String,
}

/// Mathematical content of a [`LogMessage`].
pub ghost struct LogMessageView {
    pub pid: u64,
    pub priority: LogPriority,
    pub timestamp: LogTimeStamp,
    pub tag: Option<Seq<char>>,
    pub message: Seq<char>,
}

impl View for LogMessage {
    type V = LogMessageView;

    open spec fn view(&self) -> LogMessageView {
        LogMessageView {
            pid: self.pid,
            priority: self.priority,
            timestamp: self.timestamp,
            tag: match self.tag {
                Some(t) => Some(t@),
                None => None,
            },
            message: self.message@,
        }
    }
}

/// Number of bytes a timestamp occupies on the wire.
pub const TIMESTAMP_SZ: usize = 9;

/// The priority that a wire byte stands for. Bytes 0 to 4 name `Verbose` to
/// `Error`; every other byte is read as `Verbose`.
pub open spec fn priority_of(byte: u8) -> LogPriority {
    if byte == 1 {
        LogPriority::Debug
    } else if byte == 2 {
        LogPriority::Info
    } else if byte == 3 {
        LogPriority::Warn
    } else if byte == 4 {
        LogPriority::Error
    } else {
        LogPriority::Verbose
    }
}

/// The 16-bit number that two big-endian bytes stand for.
pub open spec fn be16(hi: u8, lo: u8) -> u16 {
    (hi * 256 + lo) as u16
}

/// The timestamp that nine wire bytes stand for: year, month, day, hour,
/// minute, second, millisecond, the two 16-bit fields big-endian.
pub open spec fn timestamp_of(bytes: Seq<u8>) -> LogTimeStamp
    recommends
        bytes.len() == TIMESTAMP_SZ,
{
    LogTimeStamp {
        year: be16(bytes[0], bytes[1]),
        month: bytes[2],
        day: bytes[3],
        hour: bytes[4],
        minute: bytes[5],
        second: bytes[6],
        millisecond: be16(bytes[7], bytes[8]),
    }
}

impl LogPriority {
    /// Reads a priority from its wire byte.
    pub fn from_wire(byte: u8) -> (priority: LogPriority)
        ensures
            priority == priority_of(byte),
    {
        match byte {
            1 => LogPriority::Debug,
            2 => LogPriority::Info,
            3 => LogPriority::Warn,
            4 => LogPriority::Error,
            _ => LogPriority::Verbose,
        }
    }
}

impl LogTimeStamp {
    /// Reads a timestamp from its nine wire bytes.
    pub fn from_wire(bytes: &[u8]) -> (stamp: LogTimeStamp)
        requires
            bytes@.len() == TIMESTAMP_SZ,
        ensures
            stamp == timestamp_of(bytes@),
    {
        LogTimeStamp {
            year: (bytes[0] as u16) * 256 + (bytes[1] as u16),
            month: bytes[2],
            day: bytes[3],
            hour: bytes[4],
            minute: bytes[5],
            second: bytes[6],
            millisecond: (bytes[7] as u16) * 256 + (bytes[8] as u16),
        }
    }
}

} // verus!

//! The text form of a record in the log files:
//!
//! ```text
//! [<pid>] <P> <year>-<month>-<day> <hour>:<minute>:<second>-<millisecond> <message>
//! ```
//!
//! Numbers are written in decimal without padding. `<P>` is one letter for
//! the priority. The line is a byte string; the message contributes its
//! UTF-8 encoding.

use crate::log_def::LogMessage;
use crate::log_def::LogMessageView;
use crate::log_def::LogPriority;
use vstd::prelude::*;
use vstd::utf8::encode_utf8;

verus! {

pub const DIGIT_ZERO: u8 = 0x30;

pub const SPACE: u8 = 0x20;

pub const DASH: u8 = 0x2d;

pub const COLON: u8 = 0x3a;

pub const BRACKET_OPEN: u8 = 0x5b;

pub const BRACKET_CLOSE: u8 = 0x5d;

/// The decimal digits of `n`, most significant first, as ASCII.
pub open spec fn decimal(n: nat) -> Seq<u8>
    decreases n,
{
    if n < 10 {
        seq![(DIGIT_ZERO + n) as u8]
    } else {
        decimal(n / 10).push((DIGIT_ZERO + n % 10) as u8)
    }
}

/// The letter that stands for a priority: `V`, `D`, `I`, `W`, `E`, and `U`
/// for `Fatal`.
pub open spec fn priority_letter(priority: LogPriority) -> u8 {
    match priority {
        LogPriority::Verbose => 0x56,
        LogPriority::Debug => 0x44,
        LogPriority::Info => 0x49,
        LogPriority::Warn => 0x57,
        LogPriority::Error => 0x45,
        LogPriority::Fatal => 0x55,
    }
}

/// The part of a line that stands before the message.
pub open spec fn line_prefix(message: LogMessageView) -> Seq<u8> {
    let stamp = message.timestamp;
    let pid = seq![BRACKET_OPEN] + decimal(message.pid as nat);
    let letter = pid.push(BRACKET_CLOSE).push(SPACE).push(priority_letter(message.priority));
    let year = letter.push(SPACE) + decimal(stamp.year as nat);
    let month = year.push(DASH) + decimal(stamp.month as nat);
    let day = month.push(DASH) + decimal(stamp.day as nat);
    let hour = day.push(SPACE) + decimal(stamp.hour as nat);
    let minute = hour.push(COLON) + decimal(stamp.minute as nat);
    let second = minute.push(COLON) + decimal(stamp.second as nat);
    let millisecond = second.push(DASH) + decimal(stamp.millisecond as nat);
    millisecond.push(SPACE)
}

/// The line that a record is written as, without the newline that ends it.
pub open spec fn line_of(message: LogMessageView) -> Seq<u8> {
    line_prefix(message) + encode_utf8(message.message)
}

/// Appends the decimal digits of `n` to `out`.
pub fn push_decimal(out: &mut Vec<u8>, n: u64)
    ensures
        final(out)@ == old(out)@ + decimal(n as nat),
    decreases n,
{
    if n < 10 {
        out.push(DIGIT_ZERO + (n as u8));
        assert(out@ =~= old(out)@ + decimal(n as nat));
    } else {
        push_decimal(out, n / 10);
        out.push(DIGIT_ZERO + ((n % 10) as u8));
        assert(out@ =~= old(out)@ + decimal(n as nat));
    }
}

/// Appends `bytes` to `out`.
pub fn push_bytes(out: &mut Vec<u8>, bytes: &[u8])
    ensures
        final(out)@ == old(out)@ + bytes@,
{
    let mut at: usize = 0;
    assert(out@ =~= old(out)@ + bytes@.take(0));
    while at < bytes.len()
        invariant
            at <= bytes@.len(),
            out@ == old(out)@ + bytes@.take(at as int),
        decreases bytes@.len() - at,
    {
        out.push(bytes[at]);
        at = at + 1;
        assert(out@ =~= old(out)@ + bytes@.take(at as int));
    }
    assert(bytes@.take(at as int) =~= bytes@);
}

/// The letter that stands for a priority.
pub fn letter_of(priority: LogPriority) -> (letter: u8)
    ensures
        letter == priority_letter(priority),
{
    match priority {
        LogPriority::Verbose => 0x56,
        LogPriority::Debug => 0x44,
        LogPriority::Info => 0x49,
        LogPriority::Warn => 0x57,
        LogPriority::Error => 0x45,
        _ => 0x55,
    }
}

/// Writes a record as one line, without the newline that ends it.
pub fn format_line(message: &LogMessage) -> (line: Vec<u8>)
    ensures
        line@ == line_of(message@),
{
    let mut line: Vec<u8> = Vec::new();
    line.push(BRACKET_OPEN);
    assert(line@ =~= seq![BRACKET_OPEN]);
    push_decimal(&mut line, message.pid);
    line.push(BRACKET_CLOSE);
    line.push(SPACE);
    line.push(letter_of(message.priority));
    line.push(SPACE);
    push_decimal(&mut line, message.timestamp.year as u64);
    line.push(DASH);
    push_decimal(&mut line, message.timestamp.month as u64);
    line.push(DASH);
    push_decimal(&mut line, message.timestamp.day as u64);
    line.push(SPACE);
    push_decimal(&mut line, message.timestamp.hour as u64);
    line.push(COLON);
    push_decimal(&mut line, message.timestamp.minute as u64);
    line.push(COLON);
    push_decimal(&mut line, message.timestamp.second as u64);
    line.push(DASH);
    push_decimal(&mut line, message.timestamp.millisecond as u64);
    line.push(SPACE);
    assert(line@ == line_prefix(message@));
    let text = message.message.as_str().as_bytes();
    assert(text@ == encode_utf8(message@.message));
    push_bytes(&mut line, text);
    line
}

} // verus!

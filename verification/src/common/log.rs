//! Log levels and the decisions of the log sink.
//!
//! The sink itself, a file behind a lock shared by every thread, lives with
//! the program. What it decides is here: whether a line passes the level
//! filter, and when the file has grown enough to be rotated.

use vstd::prelude::*;

verus! {

#[derive(Debug, Clone, Copy, PartialEq, Eq, PartialOrd, Ord, Structural)]
pub enum Level {
    Trace,
    Debug,
    Info,
    Warn,
    Error,
    Off,
}

/// Position of a level in the order trace < debug < info < warn < error < off.
pub open spec fn rank(l: Level) -> nat {
    match l {
        Level::Trace => 0,
        Level::Debug => 1,
        Level::Info => 2,
        Level::Warn => 3,
        Level::Error => 4,
        Level::Off => 5,
    }
}

impl Level {
    pub open spec fn spec_as_str(self) -> Seq<char> {
        match self {
            Level::Trace => "TRACE"@,
            Level::Debug => "DEBUG"@,
            Level::Info => "INFO "@,
            Level::Warn => "WARN "@,
            Level::Error => "ERROR"@,
            Level::Off => "OFF  "@,
        }
    }

    /// Fixed width name, so the columns of the log stay aligned.
    pub fn as_str(self) -> (r: &'static str)
        ensures
            r@ == self.spec_as_str(),
    {
        match self {
            Level::Trace => "TRACE",
            Level::Debug => "DEBUG",
            Level::Info => "INFO ",
            Level::Warn => "WARN ",
            Level::Error => "ERROR",
            Level::Off => "OFF  ",
        }
    }

    /// Position of the level in the severity order.
    pub fn rank(self) -> (r: u8)
        ensures
            r as nat == rank(self),
    {
        match self {
            Level::Trace => 0,
            Level::Debug => 1,
            Level::Info => 2,
            Level::Warn => 3,
            Level::Error => 4,
            Level::Off => 5,
        }
    }
}

/// Whether a line of the given level is written by a sink set to `threshold`:
/// at least as severe as the threshold, and the sink not switched off.
pub fn admits(level: Level, threshold: Level) -> (r: bool)
    ensures
        r == (rank(level) >= rank(threshold) && threshold != Level::Off),
{
    level.rank() >= threshold.rank() && threshold != Level::Off
}

/// Rotation size in bytes for a limit stated in kilobytes; nought disables
/// rotation.
pub fn rotation_limit(max_size_kb: u32) -> (r: u64)
    ensures
        r == max_size_kb as nat * 1024,
{
    max_size_kb as u64 * 1024
}

/// Accounts one written line: the bytes now in the file, and whether the file
/// is to be rotated.
///
/// Tested after the write rather than before it, so a line is never split
/// across a rotation. The overshoot is one line. A rotation starts the count
/// again from nought.
pub fn account_line(written: u64, line_len: u64, max_bytes: u64) -> (r: (u64, bool))
    requires
        written + line_len <= u64::MAX,
    ensures
        r.1 == (max_bytes > 0 && written + line_len >= max_bytes),
        r.0 == (if r.1 {
            0
        } else {
            written + line_len
        }),
{
    let total = written + line_len;
    if max_bytes > 0 && total >= max_bytes {
        (0, true)
    } else {
        (total, false)
    }
}

} // verus!

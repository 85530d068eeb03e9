//! What is logged, and how a line of the log reads.
use vstd::prelude::*;

use crate::number;

verus! {

/// How grave a message is, the gravest first.
#[derive(Debug, Clone, Copy, PartialEq, Eq, PartialOrd, Ord, Structural)]
pub enum LogLevel {
    Error,
    Warn,
    Info,
    Debug,
}

impl Default for LogLevel {
    fn default() -> (r: Self)
        ensures
            r == LogLevel::Info,
    {
        LogLevel::Info
    }
}

impl LogLevel {
    /// The place of the level in the order of gravity.
    pub open spec fn rank(self) -> int {
        match self {
            LogLevel::Error => 0,
            LogLevel::Warn => 1,
            LogLevel::Info => 2,
            LogLevel::Debug => 3,
        }
    }

    fn priority(self) -> (r: u8)
        ensures
            r == self.rank(),
    {
        match self {
            LogLevel::Error => 0,
            LogLevel::Warn => 1,
            LogLevel::Info => 2,
            LogLevel::Debug => 3,
        }
    }

    /// Whether a logger at this level takes messages of level `msg_level`: those that are at least
    /// as grave.
    pub fn allows(self, msg_level: LogLevel) -> (r: bool)
        ensures
            r == (msg_level.rank() <= self.rank()),
    {
        msg_level.priority() <= self.priority()
    }

    /// The name of the level in a line of the log.
    pub open spec fn name(self) -> Seq<char> {
        match self {
            LogLevel::Error => "ERROR"@,
            LogLevel::Warn => "WARN"@,
            LogLevel::Info => "INFO"@,
            LogLevel::Debug => "DEBUG"@,
        }
    }
}

/// The name of a level in a line of the log.
pub fn level_name(level: LogLevel) -> (r: &'static str)
    ensures
        r@ == level.name(),
{
    match level {
        LogLevel::Error => "ERROR",
        LogLevel::Warn => "WARN",
        LogLevel::Info => "INFO",
        LogLevel::Debug => "DEBUG",
    }
}

/// A message to be logged.
#[derive(Debug, Clone, PartialEq, Eq)]
pub struct LogRecord {
    pub level: LogLevel,
    pub message: String,
}

/// What a `LogRecord` holds.
pub struct LogRecordView {
    pub level: LogLevel,
    pub message: Seq<char>,
}

impl View for LogRecord {
    type V = LogRecordView;

    open spec fn view(&self) -> LogRecordView {
        LogRecordView { level: self.level, message: self.message@ }
    }
}

/// What a list of records holds.
pub open spec fn record_views(v: Seq<LogRecord>) -> Seq<LogRecordView> {
    v.map_values(|r: LogRecord| r@)
}

/// A line of the log, and the stream of the terminal that it goes to.
#[derive(Debug, Clone, PartialEq, Eq)]
pub struct LogLine {
    pub text: String,
    pub to_stderr: bool,
}

/// The text of a line of the log: the time in seconds, the level, the message.
pub open spec fn line_text(now: u64, level: LogLevel, message: Seq<char>) -> Seq<char> {
    "["@ + number::decimal(now as nat) + "]["@ + level.name() + "] "@ + message
}

/// The line that a logger at level `threshold` writes for a message at time `now`: none for a
/// message below the threshold, one on the error stream for an error, one on the output stream for
/// any other.
pub fn log_line(threshold: LogLevel, level: LogLevel, now: u64, message: &str) -> (r: Option<
    LogLine,
>)
    ensures
        r is Some <==> level.rank() <= threshold.rank(),
        r matches Some(line) ==> {
            &&& line.text@ == line_text(now, level, message@)
            &&& line.to_stderr == (level == LogLevel::Error)
        },
{
    if !threshold.allows(level) {
        return None;
    }
    let mut line: String = "[".to_owned();
    line.append(number::decimal_text(now).as_str());
    line.append("][");
    line.append(level_name(level));
    line.append("] ");
    line.append(message);
    Some(LogLine { text: line, to_stderr: level == LogLevel::Error })
}

/// What a user is told where the file of the log cannot be opened: the log goes to the terminal
/// only, and why.
pub open spec fn terminal_only_text(path: Seq<char>, cause: Seq<char>) -> Seq<char> {
    "[WARN] 初始化日志文件 `"@ + path + "` 失败，后续仅输出到终端，不写入磁盘: "@ + cause
}

/// What a user is told where the file of the log cannot be opened.
pub fn terminal_only_warning(path: &str, cause: &str) -> (r: String)
    ensures
        r@ == terminal_only_text(path@, cause@),
{
    let mut s: String = "[WARN] 初始化日志文件 `".to_owned();
    s.append(path);
    s.append("` 失败，后续仅输出到终端，不写入磁盘: ");
    s.append(cause);
    s
}

/// A logger at any level takes errors and messages of its own level, and a logger that takes more
/// than another takes all that the other does.
pub proof fn levels_are_ordered(a: LogLevel, b: LogLevel, message: LogLevel)
    ensures
        LogLevel::Error.rank() <= a.rank(),
        a.rank() == b.rank() ==> a == b,
        a.rank() <= b.rank() && message.rank() <= a.rank() ==> message.rank() <= b.rank(),
{
}

/// Errors are the gravest, then warnings, then what informs, then what helps to find faults; each
/// level has a name of its own.
pub proof fn levels_go_from_error_to_debug()
    ensures
        LogLevel::Error.rank() < LogLevel::Warn.rank() < LogLevel::Info.rank()
            < LogLevel::Debug.rank(),
        LogLevel::Error.name() == "ERROR"@,
        LogLevel::Warn.name() == "WARN"@,
        LogLevel::Info.name() == "INFO"@,
        LogLevel::Debug.name() == "DEBUG"@,
{
}

/// A line of the log tells the time, the level and the message, each as it is: the message is what
/// stands at its end, and what stands before does not depend on it.
pub proof fn line_tells_time_level_and_message(now: u64, level: LogLevel, message: Seq<char>)
    ensures
        line_text(now, level, message) == line_text(now, level, seq![]) + message,
        line_text(now, level, seq![]) == seq!['['] + number::decimal(now as nat) + seq![']', '[']
            + level.name() + seq![']', ' '],
{
    reveal_strlit("[");
    reveal_strlit("][");
    reveal_strlit("] ");
    assert(line_text(now, level, message) =~= line_text(now, level, seq![]) + message);
    assert("["@ =~= seq!['[']);
    assert("]["@ =~= seq![']', '[']);
    assert("] "@ =~= seq![']', ' ']);
    assert(line_text(now, level, seq![]) =~= seq!['['] + number::decimal(now as nat) + seq![
        ']',
        '[',
    ] + level.name() + seq![']', ' ']);
}

/// Who has no file of the log is told the path of the file and the cause, each as it is.
pub proof fn missing_file_is_told(path: Seq<char>, cause: Seq<char>)
    ensures
        terminal_only_text(path, cause) == "[WARN] 初始化日志文件 `"@ + path
            + "` 失败，后续仅输出到终端，不写入磁盘: "@ + cause,
{
}

/// A record holds its level and its message, and a list of records each of them, in order.
pub proof fn records_hold_their_parts(r: LogRecord, v: Seq<LogRecord>)
    ensures
        r@.level == r.level,
        r@.message == r.message@,
        record_views(v).len() == v.len(),
        forall|i: int| 0 <= i < v.len() ==> #[trigger] record_views(v)[i] == v[i]@,
{
}

} // verus!

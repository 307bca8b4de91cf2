//! The text of the engine's log: where the log file goes and how each
//! record is written, on the console in colour and in the file plainly.
use vstd::prelude::*;
use vstd::string::StringExecFns;

verus! {

/// The severity of a log record.
#[derive(Debug, Clone, Copy, PartialEq, Eq, Structural)]
pub enum LogLevel {
    Error,
    Warn,
    Info,
    Debug,
    Trace,
}

/// The terminal colour code that a level's label is shown in.
pub open spec fn level_style_text(l: LogLevel) -> Seq<char> {
    match l {
        LogLevel::Error => "\x1b[31m"@,
        LogLevel::Warn => "\x1b[33m"@,
        LogLevel::Info => "\x1b[32m"@,
        LogLevel::Debug => "\x1b[36m"@,
        LogLevel::Trace => "\x1b[35m"@,
    }
}

/// A level's name, padded with spaces to five characters.
pub open spec fn level_label_text(l: LogLevel) -> Seq<char> {
    match l {
        LogLevel::Error => "ERROR"@,
        LogLevel::Warn => "WARN "@,
        LogLevel::Info => "INFO "@,
        LogLevel::Debug => "DEBUG"@,
        LogLevel::Trace => "TRACE"@,
    }
}

/// A record as the console shows it: the coloured level, the target in
/// brackets, then the message.
pub open spec fn colored_line_text(l: LogLevel, target: Seq<char>, message: Seq<char>) -> Seq<char> {
    level_style_text(l) + "["@ + level_label_text(l) + "]\x1b[0m ["@ + target + "] "@ + message
}

/// A record as the log file holds it: as on the console, without colour.
pub open spec fn plain_line_text(l: LogLevel, target: Seq<char>, message: Seq<char>) -> Seq<char> {
    "["@ + level_label_text(l) + "] ["@ + target + "] "@ + message
}

/// The colour code of `level`.
pub fn level_style(level: LogLevel) -> (s: &'static str)
    ensures
        s@ == level_style_text(level),
{
    match level {
        LogLevel::Error => "\x1b[31m",
        LogLevel::Warn => "\x1b[33m",
        LogLevel::Info => "\x1b[32m",
        LogLevel::Debug => "\x1b[36m",
        LogLevel::Trace => "\x1b[35m",
    }
}

/// The padded name of `level`.
pub fn level_label(level: LogLevel) -> (s: &'static str)
    ensures
        s@ == level_label_text(level),
{
    match level {
        LogLevel::Error => "ERROR",
        LogLevel::Warn => "WARN ",
        LogLevel::Info => "INFO ",
        LogLevel::Debug => "DEBUG",
        LogLevel::Trace => "TRACE",
    }
}

/// The console line of a record.
pub fn colored_line(level: LogLevel, target: &str, message: &str) -> (s: String)
    ensures
        s@ == colored_line_text(level, target@, message@),
{
    String::from_str(level_style(level)).concat("[").concat(level_label(level)).concat("]\x1b[0m [").concat(
        target,
    ).concat("] ").concat(message)
}

/// The log file line of a record.
pub fn plain_line(level: LogLevel, target: &str, message: &str) -> (s: String)
    ensures
        s@ == plain_line_text(level, target@, message@),
{
    String::from_str("[").concat(level_label(level)).concat("] [").concat(target).concat("] ").concat(message)
}

/// Where the log of a run started at `timestamp` is written.
pub fn log_file_path(timestamp: &str) -> (s: String)
    ensures
        s@ == "logs/resonance_"@ + timestamp@ + ".log"@,
{
    String::from_str("logs/resonance_").concat(timestamp).concat(".log")
}

} // verus!

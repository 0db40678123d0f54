use vstd::prelude::*;
use vstd::string::*;

use crate::utils::{colored, show_color, Color};

verus! {

broadcast use vstd::string::group_string_axioms;

/// How serious a log message is; `Error` is the most serious.
#[derive(PartialEq, Eq, Structural, Clone, Copy, Debug)]
pub enum Level {
    Error,
    Warn,
    Info,
}

/// The position of a level, most serious first.
pub open spec fn level_rank(level: Level) -> int {
    match level {
        Level::Error => 0,
        Level::Warn => 1,
        Level::Info => 2,
    }
}

/// A logger that writes messages up to a maximum level.
pub struct SimpleLogger {
    pub max_level: Level,
}

/// The error returned when a logger has already been installed.
#[derive(Debug)]
pub struct SetLoggerError;

/// How a level is shown in a log line.
pub open spec fn level_label_spec(level: Level) -> Seq<char> {
    match level {
        Level::Error => colored("Error"@, Color::RED),
        Level::Warn => colored("Warning"@, Color::BLUE),
        Level::Info => "Info"@,
    }
}

/// Shows a level as it appears in a log line.
pub fn level_label(level: &Level) -> (r: String)
    ensures
        r@ == level_label_spec(*level),
{
    match level {
        Level::Error => show_color("Error", Color::RED),
        Level::Warn => show_color("Warning", Color::BLUE),
        Level::Info => String::from_str("Info"),
    }
}

/// What a logger does: decides which messages it writes, and how a written line reads.
pub trait Log {
    /// Whether a message of `level` is written.
    fn enabled(&self, level: &Level) -> bool;

    /// The line written for a message of `level`.
    fn log(&self, level: &Level, message: &str) -> String;
}

impl Log for SimpleLogger {
    /// A message is written when it is at least as serious as the maximum.
    fn enabled(&self, level: &Level) -> (b: bool)
        ensures
            b == (level_rank(*level) <= level_rank(self.max_level)),
    {
        let rank = match level {
            Level::Error => 0u8,
            Level::Warn => 1u8,
            Level::Info => 2u8,
        };
        let max = match self.max_level {
            Level::Error => 0u8,
            Level::Warn => 1u8,
            Level::Info => 2u8,
        };
        rank <= max
    }

    /// The line written for a message: `[level] message`.
    fn log(&self, level: &Level, message: &str) -> (r: String)
        ensures
            r@ == log_line(*level, message@),
    {
        let mut r = String::from_str("[");
        let label = level_label(level);
        r.append(label.as_str());
        r.append("] ");
        r.append(message);
        r
    }
}

/// The line written for a message: `[level] message`.
pub open spec fn log_line(level: Level, message: Seq<char>) -> Seq<char> {
    "["@ + level_label_spec(level) + "] "@ + message
}

/// The program's logger, installed at most once.
pub struct LoggerSlot {
    pub logger: Option<SimpleLogger>,
}

impl LoggerSlot {
    /// No logger installed yet.
    pub fn new() -> (r: Self)
        ensures
            r.logger is None,
    {
        LoggerSlot { logger: None }
    }
}

/// The line written for a message of `level` by the installed logger, if one is installed
/// and writes such messages.
pub open spec fn logged(slot: LoggerSlot, level: Level, message: Seq<char>) -> Option<Seq<char>> {
    match slot.logger {
        Some(l) => if level_rank(level) <= level_rank(l.max_level) {
            Some(log_line(level, message))
        } else {
            None
        },
        None => None,
    }
}

/// The line to write for a message, if any (see `logged`).
fn log(slot: &LoggerSlot, level: Level, message: &str) -> (r: Option<String>)
    ensures
        match r {
            Some(line) => logged(*slot, level, message@) == Some(line@),
            None => logged(*slot, level, message@) is None,
        },
{
    match &slot.logger {
        Some(logger) => {
            if logger.enabled(&level) {
                Some(logger.log(&level, message))
            } else {
                None
            }
        },
        None => None,
    }
}

/// The line to write for an error message, if any.
pub fn error(slot: &LoggerSlot, message: &str) -> (r: Option<String>)
    ensures
        match r {
            Some(line) => logged(*slot, Level::Error, message@) == Some(line@),
            None => logged(*slot, Level::Error, message@) is None,
        },
{
    log(slot, Level::Error, message)
}

/// The line to write for a warning, if any.
pub fn warn(slot: &LoggerSlot, message: &str) -> (r: Option<String>)
    ensures
        match r {
            Some(line) => logged(*slot, Level::Warn, message@) == Some(line@),
            None => logged(*slot, Level::Warn, message@) is None,
        },
{
    log(slot, Level::Warn, message)
}

/// The line to write for an informative message, if any.
pub fn info(slot: &LoggerSlot, message: &str) -> (r: Option<String>)
    ensures
        match r {
            Some(line) => logged(*slot, Level::Info, message@) == Some(line@),
            None => logged(*slot, Level::Info, message@) is None,
        },
{
    log(slot, Level::Info, message)
}

/// Installs `logger`, unless one is installed already: then the slot keeps its logger and
/// the answer is an error.
pub fn set_boxed_logger(slot: &mut LoggerSlot, logger: SimpleLogger) -> (r: Result<(), SetLoggerError>)
    ensures
        old(slot).logger is Some ==> r is Err && *final(slot) == *old(slot),
        old(slot).logger is None ==> r is Ok && final(slot).logger == Some(logger),
{
    if slot.logger.is_some() {
        return Err(SetLoggerError);
    }
    slot.logger = Some(logger);
    Ok(())
}

/// Installs a simple logger that writes messages up to `max_level`; a logger must not be
/// installed yet.
pub fn init_log(slot: &mut LoggerSlot, max_level: Level)
    requires
        old(slot).logger is None,
    ensures
        final(slot).logger == Some(SimpleLogger { max_level }),
{
    let r = set_boxed_logger(slot, SimpleLogger { max_level });
    match r {
        Ok(()) => {},
        Err(_) => {},
    }
}

/// The maximum level the `--debug` option asks for: 2 for informative messages, 1 for
/// warnings, anything else for errors only.
pub fn level_of_debug(debug: u8) -> (r: Level)
    ensures
        r == (if debug == 2 {
            Level::Info
        } else if debug == 1 {
            Level::Warn
        } else {
            Level::Error
        }),
{
    if debug == 2 {
        Level::Info
    } else if debug == 1 {
        Level::Warn
    } else {
        Level::Error
    }
}

}

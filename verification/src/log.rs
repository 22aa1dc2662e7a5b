//! Which messages are shown, and how a shown message is dressed.

use vstd::prelude::*;
use vstd::string::StringExecFns;

verus! {

/// How much a message matters, the gravest first.
#[derive(Clone, Copy, Debug, PartialEq, Eq, Structural)]
pub enum Level {
    Error,
    Warn,
    Info,
    Debug,
    Trace,
}

/// Where a line goes.
#[derive(Clone, Copy, Debug, PartialEq, Eq, Structural)]
pub enum Stream {
    Stdout,
    Stderr,
}

/// A dressed message and the stream it goes to.
#[derive(Debug, PartialEq, Eq)]
pub struct Line {
    pub stream: Stream,
    pub text: String,
}

/// Shows errors, warnings and information; keeps quiet below that.
pub struct Logger;

/// Whether messages of `level` are shown.
pub open spec fn shown(level: Level) -> bool {
    level is Error || level is Warn || level is Info
}

/// The coloured word that goes before a shown message of `level`.
pub open spec fn prefix(level: Level) -> Seq<char> {
    match level {
        Level::Error => "\x1b[31;1merror \x1b[0m"@,
        Level::Warn => "\x1b[33;1mwarn  \x1b[0m"@,
        _ => "\x1b[36;1minfo  \x1b[0m"@,
    }
}

/// The stream for a shown message of `level`: errors go to the error
/// stream, the rest to the output.
pub open spec fn stream(level: Level) -> Stream {
    if level is Error {
        Stream::Stderr
    } else {
        Stream::Stdout
    }
}

impl Logger {
    /// Whether messages of `level` are shown.
    pub fn enabled(&self, level: Level) -> (r: bool)
        ensures
            r == shown(level),
    {
        match level {
            Level::Error | Level::Warn | Level::Info => true,
            Level::Debug | Level::Trace => false,
        }
    }

    /// The line for `message`, or `None` where messages of `level` are not
    /// shown.
    pub fn log(&self, level: Level, message: &str) -> (r: Option<Line>)
        ensures
            r.is_some() == shown(level),
            r matches Some(line) ==> line.stream == stream(level) && line.text@ == prefix(level)
                + message@,
    {
        let word = match level {
            Level::Error => "\x1b[31;1merror \x1b[0m",
            Level::Warn => "\x1b[33;1mwarn  \x1b[0m",
            Level::Info => "\x1b[36;1minfo  \x1b[0m",
            Level::Debug | Level::Trace => {
                return None;
            },
        };
        let stream = if let Level::Error = level {
            Stream::Stderr
        } else {
            Stream::Stdout
        };
        Some(Line { stream, text: String::from_str(word).concat(message) })
    }
}

} // verus!

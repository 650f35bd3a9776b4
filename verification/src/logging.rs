//! The levels at which plugins log, and the levels the host writes them at.

use vstd::prelude::*;

verus! {

/// A level that a plugin may log at.
#[derive(Debug, Clone, Copy, PartialEq, Eq, Structural)]
pub enum Level {
    Trace,
    Debug,
    Info,
    Warn,
    Error,
    Critical,
}

/// A level that the host writes at.
#[derive(Debug, Clone, Copy, PartialEq, Eq, Structural)]
pub enum HostLevel {
    Trace,
    Debug,
    Info,
    Warn,
    Error,
}

/// The host level for a plugin level: each its own, and critical as error.
pub open spec fn host_level_of(level: Level) -> HostLevel {
    match level {
        Level::Trace => HostLevel::Trace,
        Level::Debug => HostLevel::Debug,
        Level::Info => HostLevel::Info,
        Level::Warn => HostLevel::Warn,
        Level::Error => HostLevel::Error,
        Level::Critical => HostLevel::Error,
    }
}

/// The level at which the host writes a plugin's message.
pub fn host_level(level: Level) -> (host: HostLevel)
    ensures
        host == host_level_of(level),
{
    match level {
        Level::Trace => HostLevel::Trace,
        Level::Debug => HostLevel::Debug,
        Level::Info => HostLevel::Info,
        Level::Warn => HostLevel::Warn,
        Level::Error => HostLevel::Error,
        Level::Critical => HostLevel::Error,
    }
}

/// The line that the host writes: the context, a space, the message.
pub fn log_line(context: &str, message: &str) -> (line: String)
    ensures
        line@ == context@ + " "@ + message@,
{
    let mut line = context.to_owned();
    line = line.concat(" ");
    line.concat(message)
}

} // verus!

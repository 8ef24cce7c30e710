//! Levels of logging, and how a configured level is passed on.

use vstd::prelude::*;

verus! {

/// The least severe kind of message that is logged.
#[derive(Debug, Clone, Copy, PartialEq, Eq, Structural)]
pub enum LevelFilter {
    Off,
    Error,
    Warn,
    Info,
    Debug,
    Trace,
}

/// The level of logging that a user may ask for.
#[derive(Debug, Clone, Copy, PartialEq, Eq, Structural)]
pub enum LogLevel {
    Debug,
    Info,
    Warn,
    Error,
}

impl Default for LogLevel {
    fn default() -> (r: Self)
        ensures
            r == LogLevel::Info,
    {
        LogLevel::Info
    }
}

impl LogLevel {
    /// The filter of the same name.
    pub fn as_filter(self) -> (r: LevelFilter)
        ensures
            r == match self {
                LogLevel::Debug => LevelFilter::Debug,
                LogLevel::Info => LevelFilter::Info,
                LogLevel::Warn => LevelFilter::Warn,
                LogLevel::Error => LevelFilter::Error,
            },
    {
        match self {
            LogLevel::Debug => LevelFilter::Debug,
            LogLevel::Info => LevelFilter::Info,
            LogLevel::Warn => LevelFilter::Warn,
            LogLevel::Error => LevelFilter::Error,
        }
    }
}

/// How logging is set up: the level, and whether messages go to the
/// standard error stream or nowhere.
#[derive(Debug, Clone, Copy)]
pub struct LogConfig {
    pub level: LevelFilter,
    pub print_logs: bool,
}

impl LogConfig {
    /// The set-up with this level and destination.
    pub fn new(level: LevelFilter, print_logs: bool) -> (r: Self)
        ensures
            r.level == level,
            r.print_logs == print_logs,
    {
        LogConfig { level, print_logs }
    }

    /// The name of the level as a filter directive.
    pub open spec fn directive(self) -> Seq<char> {
        match self.level {
            LevelFilter::Off => "off"@,
            LevelFilter::Error => "error"@,
            LevelFilter::Warn => "warn"@,
            LevelFilter::Info => "info"@,
            LevelFilter::Debug => "debug"@,
            LevelFilter::Trace => "trace"@,
        }
    }

    /// The name of the level as a filter directive, used where the
    /// environment names no filter.
    pub fn level_str(&self) -> (r: &'static str)
        ensures
            r@ == self.directive(),
    {
        match self.level {
            LevelFilter::Off => "off",
            LevelFilter::Error => "error",
            LevelFilter::Warn => "warn",
            LevelFilter::Info => "info",
            LevelFilter::Debug => "debug",
            LevelFilter::Trace => "trace",
        }
    }
}

} // verus!

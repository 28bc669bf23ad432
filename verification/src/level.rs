use vstd::prelude::*;

verus! {

/// Severity of a log record.  `Off` records are accepted by the queue but
/// discarded at the sink layer.
#[derive(Debug, Clone, Copy, PartialEq, Eq, Structural)]
pub enum LogLevel {
    Info,
    Warn,
    Error,
    Debug,
    Crit,
    Off,
}

impl LogLevel {
    /// One-letter code of the level.
    pub open spec fn spec_short(self) -> char {
        match self {
            LogLevel::Info => 'I',
            LogLevel::Warn => 'W',
            LogLevel::Error => 'E',
            LogLevel::Debug => 'D',
            LogLevel::Crit => 'C',
            LogLevel::Off => 'O',
        }
    }

    /// Display name of the level, as it appears in formatted lines.
    pub open spec fn spec_name(self) -> Seq<char> {
        match self {
            LogLevel::Info => "INFO"@,
            LogLevel::Warn => "WARN"@,
            LogLevel::Error => "ERROR"@,
            LogLevel::Debug => "DEBUG"@,
            LogLevel::Crit => "CRIT"@,
            LogLevel::Off => "OFF"@,
        }
    }

    pub fn short(&self) -> (c: char)
        ensures
            c == self.spec_short(),
    {
        match self {
            LogLevel::Info => 'I',
            LogLevel::Warn => 'W',
            LogLevel::Error => 'E',
            LogLevel::Debug => 'D',
            LogLevel::Crit => 'C',
            LogLevel::Off => 'O',
        }
    }

    /// Display name of the level as a string slice.
    pub fn as_str(&self) -> (r: &'static str)
        ensures
            r@ == self.spec_name(),
    {
        match self {
            LogLevel::Info => "INFO",
            LogLevel::Warn => "WARN",
            LogLevel::Error => "ERROR",
            LogLevel::Debug => "DEBUG",
            LogLevel::Crit => "CRIT",
            LogLevel::Off => "OFF",
        }
    }
}

} // verus!

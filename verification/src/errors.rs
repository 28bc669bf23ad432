use vstd::prelude::*;
use vstd::string::StringExecFns;

verus! {

/// Errors of the logging engine.
///
/// The producer-facing API never fails; these arise from construction,
/// initialization and the consumer's file handling.
#[derive(Debug)]
pub enum LoggerError {
    /// A generic wrapper used for self-reports from the consumer.
    LogError(String),
    /// Raised only from the consumer loop when flushing the buffered
    /// writers fails.
    FlushError(String),
    /// An OS-reported I/O failure with no extra context.
    IoError(String),
    /// An I/O failure where a human explanation and the path add value:
    /// cause, optional context message, path.
    IoSpecificError(String, Option<String>, String),
    /// Returned from init when the process-wide instance is already set.
    AlreadyInitialized,
}

impl LoggerError {
    /// The human-readable description of the error.
    pub open spec fn spec_message(self) -> Seq<char> {
        match self {
            LoggerError::LogError(m) => "Unknown Error occurred in logging thread: "@ + m@,
            LoggerError::FlushError(m) => "Error occurred during flush in logging thread: "@
                + m@,
            LoggerError::IoError(m) => "IO Error occurred in logging thread: "@ + m@,
            LoggerError::IoSpecificError(m, _ctx, path) => "IO Error at "@ + path@
                + " occurred in logging thread: "@ + m@,
            LoggerError::AlreadyInitialized => "Logger already initialized"@,
        }
    }

    /// Renders the error for display.
    pub fn message(&self) -> (r: String)
        ensures
            r@ == self.spec_message(),
    {
        match self {
            LoggerError::LogError(m) => {
                let mut s = String::from_str("Unknown Error occurred in logging thread: ");
                s.append(m.as_str());
                s
            },
            LoggerError::FlushError(m) => {
                let mut s = String::from_str("Error occurred during flush in logging thread: ");
                s.append(m.as_str());
                s
            },
            LoggerError::IoError(m) => {
                let mut s = String::from_str("IO Error occurred in logging thread: ");
                s.append(m.as_str());
                s
            },
            LoggerError::IoSpecificError(m, _ctx, path) => {
                let mut s = String::from_str("IO Error at ");
                s.append(path.as_str());
                s.append(" occurred in logging thread: ");
                s.append(m.as_str());
                proof {
                    assert(s@ =~= self.spec_message());
                }
                s
            },
            LoggerError::AlreadyInitialized => String::from_str("Logger already initialized"),
        }
    }
}

} // verus!

use vstd::prelude::*;
use vstd::string::StringExecFns;

verus! {

/// Configuration of the logging engine, immutable after init.
pub struct LoggerConfig {
    /// Maximum number of Unicode characters (not bytes) per post-chunk
    /// message.  Zero is not a valid setting and is treated as one.
    pub max_string_len: usize,
    /// Initial capacity of each batch buffer.
    pub log_max_buffer_count: usize,
    /// Line terminator character for file output.
    pub line_end: char,
    /// Directory in which per-context files are created.
    pub context_log_path: String,
}

impl LoggerConfig {
    /// The chunk cap actually applied: a zero setting saturates to one.
    pub open spec fn spec_effective_max(self) -> nat {
        if self.max_string_len == 0 {
            1
        } else {
            self.max_string_len as nat
        }
    }

    /// The chunk cap actually applied: a zero setting saturates to one.
    pub fn effective_max(&self) -> (r: usize)
        ensures
            r as nat == self.spec_effective_max(),
            r >= 1,
    {
        if self.max_string_len == 0 {
            1
        } else {
            self.max_string_len
        }
    }
}

impl Default for LoggerConfig {
    /// The default configuration: chunk cap 1024, buffer capacity 100,
    /// newline terminator, context files under `./logs`.
    fn default() -> (r: Self)
        ensures
            r.max_string_len == 1024,
            r.log_max_buffer_count == 100,
            r.line_end == '\n',
            r.context_log_path@ == "./logs"@,
    {
        LoggerConfig {
            max_string_len: 1024,
            log_max_buffer_count: 100,
            line_end: '\n',
            context_log_path: String::from_str("./logs"),
        }
    }
}

} // verus!

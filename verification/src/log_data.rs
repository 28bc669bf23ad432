//! The structured log record and its character-exact formatting.

use vstd::prelude::*;
use vstd::string::StringExecFns;

use crate::level::LogLevel;
use crate::numfmt::{i64_to_string, spec_i64_digits, spec_u64_digits, u32_to_string};

verus! {

/// A structured log entry, immutable after enqueue.
pub struct LogData {
    pub level: LogLevel,
    /// Optional routing key; a missing tag is displayed as `GLOBAL`.
    pub tag: Option<String>,
    /// UTF-8 text; may contain newlines; bounded only after chunking.
    pub message: String,
    /// Wall-clock seconds since the Unix epoch, captured at enqueue.
    pub timestamp: i64,
    pub file: String,
    pub line: u32,
    pub column: u32,
    pub function_name: Option<String>,
}

/// The mathematical model of a record: each text field as a sequence of
/// characters, each integer as a mathematical integer.
#[verifier::ext_equal]
pub ghost struct LogDataView {
    pub level: LogLevel,
    pub tag: Option<Seq<char>>,
    pub message: Seq<char>,
    pub timestamp: int,
    pub file: Seq<char>,
    pub line: nat,
    pub column: nat,
    pub function_name: Option<Seq<char>>,
}

impl LogDataView {
    /// The same record with the message replaced, all other fields kept.
    pub open spec fn with_message(self, m: Seq<char>) -> LogDataView {
        LogDataView { message: m, ..self }
    }
}

impl View for LogData {
    type V = LogDataView;

    open spec fn view(&self) -> LogDataView {
        LogDataView {
            level: self.level,
            tag: match self.tag {
                Option::Some(t) => Option::Some(t@),
                Option::None => Option::None,
            },
            message: self.message@,
            timestamp: self.timestamp as int,
            file: self.file@,
            line: self.line as nat,
            column: self.column as nat,
            function_name: match self.function_name {
                Option::Some(f) => Option::Some(f@),
                Option::None => Option::None,
            },
        }
    }
}

/// The display form of an optional tag: the reserved name `GLOBAL` when
/// missing.
pub open spec fn spec_tag_display(tag: Option<Seq<char>>) -> Seq<char> {
    match tag {
        Option::Some(t) => t,
        Option::None => "GLOBAL"@,
    }
}

/// The display form of an optional function name: `default` when missing.
pub open spec fn spec_function_display(f: Option<Seq<char>>) -> Seq<char> {
    match f {
        Option::Some(t) => t,
        Option::None => "default"@,
    }
}

/// The source-site part of a formatted line: `file:line:column@function`.
pub open spec fn spec_source_site(d: LogDataView) -> Seq<char> {
    d.file + ":"@ + spec_u64_digits(d.line) + ":"@ + spec_u64_digits(d.column) + "@"@
        + spec_function_display(d.function_name)
}

/// The full line written to the global file:
/// `LEVEL [timestamp] [tag|GLOBAL] file:line:column@fn message` and a
/// terminating newline.
pub open spec fn spec_format(d: LogDataView) -> Seq<char> {
    d.level.spec_name() + " ["@ + spec_i64_digits(d.timestamp) + "] ["@ + spec_tag_display(d.tag)
        + "] "@ + spec_source_site(d) + " "@ + d.message + "\n"@
}

/// The compact line written to a context file: as the full line but
/// without the tag, which equals the file's name.
pub open spec fn spec_format_compact(d: LogDataView) -> Seq<char> {
    d.level.spec_name() + " ["@ + spec_i64_digits(d.timestamp) + "] "@ + spec_source_site(d)
        + " "@ + d.message + "\n"@
}

/// Relies on chrono::Local::now for the wall-clock time; the result is
/// its timestamp in whole seconds since the Unix epoch.
#[verifier::external_body]
fn now_timestamp() -> (t: i64) {
    chrono::Local::now().timestamp()
}

impl LogData {
    /// Builds a record, capturing the wall-clock time.
    pub fn new(
        level: LogLevel,
        tag: Option<String>,
        message: String,
        file: String,
        line: u32,
        column: u32,
        function_name: Option<String>,
    ) -> (r: Self)
        ensures
            r.level == level,
            r.tag == tag,
            r.message == message,
            r.file == file,
            r.line == line,
            r.column == column,
            r.function_name == function_name,
    {
        LogData {
            level,
            tag,
            message,
            timestamp: now_timestamp(),
            file,
            line,
            column,
            function_name,
        }
    }

    fn append_source_site(&self, s: &mut String)
        ensures
            final(s)@ == old(s)@ + spec_source_site(self@),
    {
        s.append(self.file.as_str());
        s.append(":");
        let line_str = u32_to_string(self.line);
        s.append(line_str.as_str());
        s.append(":");
        let col_str = u32_to_string(self.column);
        s.append(col_str.as_str());
        s.append("@");
        match &self.function_name {
            Option::Some(f) => s.append(f.as_str()),
            Option::None => s.append("default"),
        }
        proof {
            assert(s@ =~= old(s)@ + spec_source_site(self@));
        }
    }

    /// Renders the record in the full form used for the global file.
    pub fn format(&self) -> (r: String)
        ensures
            r@ == spec_format(self@),
    {
        let mut s = self.level.as_str().to_owned();
        s.append(" [");
        let ts = i64_to_string(self.timestamp);
        s.append(ts.as_str());
        s.append("] [");
        match &self.tag {
            Option::Some(t) => s.append(t.as_str()),
            Option::None => s.append("GLOBAL"),
        }
        s.append("] ");
        self.append_source_site(&mut s);
        s.append(" ");
        s.append(self.message.as_str());
        s.append("\n");
        proof {
            assert(s@ =~= spec_format(self@));
        }
        s
    }

    /// Renders the record in the compact form used for context files.
    pub fn format_compact(&self) -> (r: String)
        ensures
            r@ == spec_format_compact(self@),
    {
        let mut s = self.level.as_str().to_owned();
        s.append(" [");
        let ts = i64_to_string(self.timestamp);
        s.append(ts.as_str());
        s.append("] ");
        self.append_source_site(&mut s);
        s.append(" ");
        s.append(self.message.as_str());
        s.append("\n");
        proof {
            assert(s@ =~= spec_format_compact(self@));
        }
        s
    }

    /// Clones the record, keeping every field.
    pub fn clone_record(&self) -> (r: Self)
        ensures
            r@ == self@,
    {
        let r = self.with_message(clone_string(&self.message));
        proof {
            assert(self@.with_message(self@.message) =~= self@);
        }
        r
    }

    /// Clones the record with the message replaced by `m`.
    pub fn with_message(&self, m: String) -> (r: Self)
        ensures
            r@ == self@.with_message(m@),
    {
        LogData {
            level: self.level,
            tag: clone_opt_string(&self.tag),
            message: m,
            timestamp: self.timestamp,
            file: clone_string(&self.file),
            line: self.line,
            column: self.column,
            function_name: clone_opt_string(&self.function_name),
        }
    }
}

impl Default for LogData {
    /// An empty informational record, stamped with the current time.
    fn default() -> (r: Self)
        ensures
            r.level is Info,
            r.tag is None,
            r.message@ == Seq::<char>::empty(),
            r.file@ == Seq::<char>::empty(),
            r.line == 0,
            r.column == 0,
            r.function_name is None,
    {
        LogData {
            level: LogLevel::Info,
            tag: Option::None,
            message: String::new(),
            timestamp: now_timestamp(),
            file: String::new(),
            line: 0,
            column: 0,
            function_name: Option::None,
        }
    }
}

/// Clones a string, keeping its characters.
pub fn clone_string(s: &String) -> (r: String)
    ensures
        r@ == s@,
{
    s.as_str().to_owned()
}

/// Clones an optional string, keeping its characters.
pub fn clone_opt_string(s: &Option<String>) -> (r: Option<String>)
    ensures
        match (r, s) {
            (Option::Some(a), Option::Some(b)) => a@ == b@,
            (Option::None, Option::None) => true,
            _ => false,
        },
{
    match s {
        Option::Some(v) => Option::Some(v.as_str().to_owned()),
        Option::None => Option::None,
    }
}

} // verus!

//! The producer-side facades: mapping of the `log`/`tracing` severity
//! scale onto the engine's levels, the layer that forwards tracing
//! events, the assembly of visited event fields into one message, and
//! the panic hook's self-report text.

use vstd::prelude::*;
use vstd::string::StringExecFns;

use crate::level::LogLevel;
use crate::log_data::{spec_format, LogData};
use crate::numfmt::{spec_u64_digits, u32_to_string};

verus! {

/// Severity of a record arriving through a facade, most severe first.
#[derive(Debug, Clone, Copy, PartialEq, Eq, Structural)]
pub enum FacadeLevel {
    Error,
    Warn,
    Info,
    Debug,
    Trace,
}

/// A facade's maximum-level filter: `Off` admits nothing, `Trace`
/// admits everything.
#[derive(Debug, Clone, Copy, PartialEq, Eq, Structural)]
pub enum FacadeFilter {
    Off,
    Error,
    Warn,
    Info,
    Debug,
    Trace,
}

/// The numeric rank of a facade level: more verbose levels rank higher.
pub open spec fn spec_level_rank(l: FacadeLevel) -> nat {
    match l {
        FacadeLevel::Error => 1,
        FacadeLevel::Warn => 2,
        FacadeLevel::Info => 3,
        FacadeLevel::Debug => 4,
        FacadeLevel::Trace => 5,
    }
}

/// The numeric rank of a filter: a level is admitted when its rank does
/// not exceed the filter's.
pub open spec fn spec_filter_rank(f: FacadeFilter) -> nat {
    match f {
        FacadeFilter::Off => 0,
        FacadeFilter::Error => 1,
        FacadeFilter::Warn => 2,
        FacadeFilter::Info => 3,
        FacadeFilter::Debug => 4,
        FacadeFilter::Trace => 5,
    }
}

/// Whether a facade record of level `level` passes the filter `max`.
pub fn facade_enabled(level: FacadeLevel, max: FacadeFilter) -> (r: bool)
    ensures
        r == (spec_level_rank(level) <= spec_filter_rank(max)),
{
    let lr: u8 = match level {
        FacadeLevel::Error => 1,
        FacadeLevel::Warn => 2,
        FacadeLevel::Info => 3,
        FacadeLevel::Debug => 4,
        FacadeLevel::Trace => 5,
    };
    let fr: u8 = match max {
        FacadeFilter::Off => 0,
        FacadeFilter::Error => 1,
        FacadeFilter::Warn => 2,
        FacadeFilter::Info => 3,
        FacadeFilter::Debug => 4,
        FacadeFilter::Trace => 5,
    };
    lr <= fr
}

/// The engine level a facade level maps to; facade trace records are
/// logged as debug.
pub open spec fn spec_map_level(l: FacadeLevel) -> LogLevel {
    match l {
        FacadeLevel::Error => LogLevel::Error,
        FacadeLevel::Warn => LogLevel::Warn,
        FacadeLevel::Info => LogLevel::Info,
        FacadeLevel::Debug => LogLevel::Debug,
        FacadeLevel::Trace => LogLevel::Debug,
    }
}

/// Maps a facade level onto the engine's levels.
pub fn map_level(level: FacadeLevel) -> (r: LogLevel)
    ensures
        r == spec_map_level(level),
{
    match level {
        FacadeLevel::Error => LogLevel::Error,
        FacadeLevel::Warn => LogLevel::Warn,
        FacadeLevel::Info => LogLevel::Info,
        FacadeLevel::Debug => LogLevel::Debug,
        FacadeLevel::Trace => LogLevel::Debug,
    }
}

/// The facade level at which the tracing backend re-emits an engine
/// record; critical records are re-emitted as errors.
pub open spec fn spec_tracing_level(l: LogLevel) -> FacadeLevel {
    match l {
        LogLevel::Info => FacadeLevel::Info,
        LogLevel::Warn => FacadeLevel::Warn,
        LogLevel::Error => FacadeLevel::Error,
        LogLevel::Debug => FacadeLevel::Debug,
        LogLevel::Crit => FacadeLevel::Error,
        LogLevel::Off => FacadeLevel::Error,
    }
}

/// The tracing backend's decision for one record: the level at which to
/// re-emit it and the formatted message — or nothing for an `Off`
/// record, which is discarded at this sink.
pub fn do_log(log: &LogData) -> (r: Option<(FacadeLevel, String)>)
    ensures
        (r is None) <==> (log@.level is Off),
        r matches Option::Some(p) ==> p.0 == spec_tracing_level(log@.level) && p.1@ == spec_format(
            log@,
        ),
{
    match log.level {
        LogLevel::Off => Option::None,
        LogLevel::Info => Option::Some((FacadeLevel::Info, log.format())),
        LogLevel::Warn => Option::Some((FacadeLevel::Warn, log.format())),
        LogLevel::Error => Option::Some((FacadeLevel::Error, log.format())),
        LogLevel::Debug => Option::Some((FacadeLevel::Debug, log.format())),
        LogLevel::Crit => Option::Some((FacadeLevel::Error, log.format())),
    }
}

/// A tracing layer that forwards events into the engine, optionally
/// tagging every record with a fixed context.
pub struct PaperLayer {
    pub tag: Option<String>,
}

impl PaperLayer {
    /// A layer with no tag: records route only to the global file.
    pub fn new() -> (r: Self)
        ensures
            r.tag is None,
    {
        PaperLayer { tag: Option::None }
    }

    /// The same layer with every record tagged `tag`.
    pub fn with_tag(self, tag: &str) -> (r: Self)
        ensures
            r.tag matches Option::Some(t) && t@ == tag@,
    {
        PaperLayer { tag: Option::Some(tag.to_owned()) }
    }
}

/// Appends one visited event field to the message parts: fields are
/// rendered `name=value` and separated by single spaces.
pub fn push_field(parts: &mut String, name: &str, value: &str)
    ensures
        final(parts)@ == old(parts)@ + (if old(parts)@.len() > 0 {
            " "@
        } else {
            Seq::<char>::empty()
        }) + name@ + "="@ + value@,
{
    if !parts.as_str().is_empty() {
        parts.append(" ");
    }
    parts.append(name);
    parts.append("=");
    parts.append(value);
    proof {
        assert(parts@ =~= old(parts)@ + (if old(parts)@.len() > 0 {
            " "@
        } else {
            Seq::<char>::empty()
        }) + name@ + "="@ + value@);
    }
}

/// The self-report text of the panic hook: the panic payload and the
/// source location, as `panicked at '<payload>', <file>:<line>:<column>`.
pub fn format_panic_message(msg: &str, file: &str, line: u32, column: u32) -> (r: String)
    ensures
        r@ == "panicked at '"@ + msg@ + "', "@ + file@ + ":"@ + spec_u64_digits(line as nat)
            + ":"@ + spec_u64_digits(column as nat),
{
    let mut s = String::from_str("panicked at '");
    s.append(msg);
    s.append("', ");
    s.append(file);
    s.append(":");
    let line_str = u32_to_string(line);
    s.append(line_str.as_str());
    s.append(":");
    let col_str = u32_to_string(column);
    s.append(col_str.as_str());
    proof {
        assert(s@ =~= "panicked at '"@ + msg@ + "', "@ + file@ + ":"@ + spec_u64_digits(
            line as nat,
        ) + ":"@ + spec_u64_digits(column as nat));
    }
    s
}

} // verus!

//! The log-line formatting decision of the logging component: which label a
//! severity maps to, and the line that is printed. The printing itself is
//! host I/O and lives outside the library.

use vstd::prelude::*;

verus! {

/// A log severity. `Critical` is reported at the same label as `Error`.
#[derive(Debug, PartialEq, Eq)]
pub enum LogLevel {
    Trace,
    Debug,
    Info,
    Warn,
    Error,
    Critical,
}

/// The label a severity is reported under; `Error` and `Critical` collapse
/// to one label.
pub open spec fn spec_level_label(l: LogLevel) -> Seq<char> {
    match l {
        LogLevel::Trace => "TRACE"@,
        LogLevel::Debug => "DEBUG"@,
        LogLevel::Info => "INFO"@,
        LogLevel::Warn => "WARN"@,
        LogLevel::Error => "ERROR"@,
        LogLevel::Critical => "ERROR"@,
    }
}

/// The line a message is logged as: its severity's label, a space, the
/// message.
pub fn inner_log(severity: LogLevel, data: &str) -> (r: String)
    ensures
        r@ == spec_level_label(severity) + " "@ + data@,
{
    let mut r = String::new();
    match severity {
        LogLevel::Trace => r.append("TRACE"),
        LogLevel::Debug => r.append("DEBUG"),
        LogLevel::Info => r.append("INFO"),
        LogLevel::Warn => r.append("WARN"),
        LogLevel::Error => r.append("ERROR"),
        LogLevel::Critical => r.append("ERROR"),
    }
    r.append(" ");
    r.append(data);
    r
}

} // verus!

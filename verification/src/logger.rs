//! The application's logger: which records it prints, and how it writes them
//! (`<severity>target - message`, with RFC 5424 severities, as systemd reads
//! them from standard output).
use std::io::Write;
use vstd::prelude::*;

use crate::text::{decimal, decimal_string};

verus! {

/// The level of a log record, as the `log` crate orders them: `Error` is the
/// most severe and the smallest.
#[derive(Clone, Copy, Debug, PartialEq, Eq, Structural)]
pub enum LogLevel {
    Error,
    Warn,
    Info,
    Debug,
    Trace,
}

/// The place of a level in the `log` crate's order (`Error` is 1, `Trace` 5).
pub open spec fn rank(level: LogLevel) -> nat {
    match level {
        LogLevel::Error => 1,
        LogLevel::Warn => 2,
        LogLevel::Info => 3,
        LogLevel::Debug => 4,
        LogLevel::Trace => 5,
    }
}

/// The RFC 5424 severity of a level.
pub open spec fn severity(level: LogLevel) -> nat {
    match level {
        LogLevel::Trace => 7,
        LogLevel::Debug => 7,
        LogLevel::Info => 6,
        LogLevel::Warn => 4,
        LogLevel::Error => 3,
    }
}

/// The target of this application's own records.
pub open spec fn app_target() -> Seq<char> {
    "nicow"@
}

/// A record is printed where its target is the application's and its level
/// compares at or above `Info`, or where its level compares at or above
/// `Warn`, in the `log` crate's order.
pub open spec fn enabled_for(target: Seq<char>, level: LogLevel) -> bool {
    (target == app_target() && rank(level) >= rank(LogLevel::Info)) || rank(level) >= rank(LogLevel::Warn)
}

/// The printed line of a record: `<severity>target - message`.
pub open spec fn log_line(level: LogLevel, target: Seq<char>, message: Seq<char>) -> Seq<char> {
    "<"@ + decimal(severity(level)) + ">"@ + target + " - "@ + message
}

/// The logger of this application.
pub struct AppLogger;

impl AppLogger {
    /// The RFC 5424 severity of `level`.
    pub fn to_severity_rfc5424(level: LogLevel) -> (r: usize)
        ensures
            r == severity(level),
    {
        match level {
            LogLevel::Trace => 7,
            LogLevel::Debug => 7,
            LogLevel::Info => 6,
            LogLevel::Warn => 4,
            LogLevel::Error => 3,
        }
    }

    /// Whether a record of `target` at `level` is printed.
    pub fn is_enabled(target: &str, level: LogLevel) -> (r: bool)
        ensures
            r == enabled_for(target@, level),
    {
        let app = "nicow";
        proof {
            reveal_strlit("nicow");
        }
        let r = (str_equal(target, app) && level_at_or_above(level, LogLevel::Info))
            || level_at_or_above(level, LogLevel::Warn);
        r
    }

    /// The line printed for a record.
    pub fn format_line(level: LogLevel, target: &str, message: &str) -> (r: String)
        ensures
            r@ == log_line(level, target@, message@),
    {
        let sev = AppLogger::to_severity_rfc5424(level);
        let mut line = String::from_str("<");
        let digits = decimal_string(sev as u64);
        line.append(digits.as_str());
        line.append(">");
        line.append(target);
        line.append(" - ");
        line.append(message);
        proof {
            reveal_strlit("<");
            reveal_strlit(">");
            reveal_strlit(" - ");
        }
        assert(line@ =~= log_line(level, target@, message@));
        line
    }

    /// The most verbose level that the `log` crate is to hand on to this
    /// logger: `Info`.
    pub fn app_max_level() -> (l: LogLevel)
        ensures
            l == LogLevel::Info,
    {
        LogLevel::Info
    }

    /// Sets the most verbose level that the `log` crate hands on to
    /// `app_max_level()` (`Info`),
    /// and installs this logger as the global one. Fails where a global logger
    /// was installed before.
    pub fn init() -> (r: Result<(), log::SetLoggerError>) {
        set_max_level(AppLogger::app_max_level());
        install_app_logger()
    }
}

/// Whether `level` compares at or above `bound` in the `log` crate's order.
pub fn level_at_or_above(level: LogLevel, bound: LogLevel) -> (r: bool)
    ensures
        r == (rank(level) >= rank(bound)),
{
    level_rank(level) >= level_rank(bound)
}

/// The place of `level` in the `log` crate's order.
fn level_rank(level: LogLevel) -> (r: u8)
    ensures
        r == rank(level),
{
    match level {
        LogLevel::Error => 1,
        LogLevel::Warn => 2,
        LogLevel::Info => 3,
        LogLevel::Debug => 4,
        LogLevel::Trace => 5,
    }
}

/// Whether two strings hold the same characters.
pub fn str_equal(a: &str, b: &str) -> (r: bool)
    ensures
        r == (a@ == b@),
{
    let n = a.unicode_len();
    let m = b.unicode_len();
    if n != m {
        return false;
    }
    let mut i: usize = 0;
    while i < n
        invariant
            n == a@.len(),
            m == b@.len(),
            n == m,
            i <= n,
            forall|j: int| 0 <= j < i ==> a@[j] == b@[j],
        decreases n - i,
    {
        if a.get_char(i) != b.get_char(i) {
            return false;
        }
        i = i + 1;
    }
    assert(a@ =~= b@);
    true
}

/// What the comparison of `enabled_for` comes to: as `Error` is the
/// smallest level in the `log` crate's order, every level but `Error`
/// compares at or above `Warn`, so records at `Error` are never printed and
/// records at every other level are.
pub proof fn lemma_enabled_exactly_below_error(target: Seq<char>, level: LogLevel)
    ensures
        enabled_for(target, level) <==> level != LogLevel::Error,
{
}

#[verifier::external_type_specification]
#[verifier::external_body]
pub struct ExMetadata<'a>(log::Metadata<'a>);

#[verifier::external_type_specification]
#[verifier::external_body]
pub struct ExRecord<'a>(log::Record<'a>);

#[verifier::external_type_specification]
#[verifier::external_body]
pub struct ExSetLoggerError(log::SetLoggerError);

/// `log::Metadata::target`. A record's metadata is opaque here, so nothing
/// is stated of the target it holds.
#[verifier::external_body]
fn metadata_target<'a>(metadata: &log::Metadata<'a>) -> &'a str {
    metadata.target()
}

/// `log::Metadata::level`, converted to the library's level one variant for
/// one. A record's metadata is opaque here, so nothing is stated of the level
/// it holds.
#[verifier::external_body]
fn metadata_level(metadata: &log::Metadata) -> LogLevel {
    match metadata.level() {
        log::Level::Error => LogLevel::Error,
        log::Level::Warn => LogLevel::Warn,
        log::Level::Info => LogLevel::Info,
        log::Level::Debug => LogLevel::Debug,
        log::Level::Trace => LogLevel::Trace,
    }
}

/// `log::Record::metadata`: the level and target of a record.
#[verifier::external_body]
fn record_metadata<'a, 'b>(record: &'b log::Record<'a>) -> &'b log::Metadata<'a> {
    record.metadata()
}

/// The message of a record (`log::Record::args`), written out. A record is
/// opaque here, so nothing is stated of its message.
#[verifier::external_body]
fn record_message(record: &log::Record) -> String {
    format!("{}", record.args())
}

/// Writes `line` and a line break to standard output; a failed write is
/// ignored.
#[verifier::external_body]
fn write_stdout_line(line: &str) {
    let _ = writeln!(std::io::stdout(), "{}", line);
}

/// `log::set_max_level`, with the `LevelFilter` of the same name as `level`.
#[verifier::external_body]
fn set_max_level(level: LogLevel) {
    log::set_max_level(match level {
        LogLevel::Error => log::LevelFilter::Error,
        LogLevel::Warn => log::LevelFilter::Warn,
        LogLevel::Info => log::LevelFilter::Info,
        LogLevel::Debug => log::LevelFilter::Debug,
        LogLevel::Trace => log::LevelFilter::Trace,
    });
}

/// `log::set_logger` with this application's logger. Whether it succeeds
/// depends on whether a global logger was installed before in this process,
/// so nothing is stated of the result.
#[verifier::external_body]
fn install_app_logger() -> Result<(), log::SetLoggerError> {
    log::set_logger(&AppLogger)
}

impl log::Log for AppLogger {
    fn enabled(&self, metadata: &log::Metadata) -> bool {
        AppLogger::is_enabled(metadata_target(metadata), metadata_level(metadata))
    }

    fn log(&self, record: &log::Record) {
        let metadata = record_metadata(record);
        let target = metadata_target(metadata);
        let level = metadata_level(metadata);
        if AppLogger::is_enabled(target, level) {
            let message = record_message(record);
            let line = AppLogger::format_line(level, target, message.as_str());
            write_stdout_line(line.as_str());
        }
    }

    fn flush(&self) {
    }
}

} // verus!

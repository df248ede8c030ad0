use niconico_watcher::logger::{level_at_or_above, str_equal, AppLogger, LogLevel};

#[test]
fn severity_per_level() {
    assert_eq!(AppLogger::to_severity_rfc5424(LogLevel::Trace), 7);
    assert_eq!(AppLogger::to_severity_rfc5424(LogLevel::Debug), 7);
    assert_eq!(AppLogger::to_severity_rfc5424(LogLevel::Info), 6);
    assert_eq!(AppLogger::to_severity_rfc5424(LogLevel::Warn), 4);
    assert_eq!(AppLogger::to_severity_rfc5424(LogLevel::Error), 3);
}

#[test]
fn enabled_levels() {
    assert!(AppLogger::is_enabled("nicow", LogLevel::Info));
    assert!(AppLogger::is_enabled("nicow", LogLevel::Trace));
    assert!(AppLogger::is_enabled("other", LogLevel::Warn));
    assert!(AppLogger::is_enabled("other", LogLevel::Debug));
    // In the `log` crate's order every level but `Error` compares at or above
    // `Warn`, so records at `Error` are never printed.
    assert!(!AppLogger::is_enabled("nicow", LogLevel::Error));
    assert!(!AppLogger::is_enabled("other", LogLevel::Error));
}

#[test]
fn level_order() {
    assert!(level_at_or_above(LogLevel::Trace, LogLevel::Info));
    assert!(level_at_or_above(LogLevel::Info, LogLevel::Info));
    assert!(!level_at_or_above(LogLevel::Warn, LogLevel::Info));
    assert!(!level_at_or_above(LogLevel::Error, LogLevel::Warn));
}

#[test]
fn line_format() {
    assert_eq!(
        AppLogger::format_line(LogLevel::Info, "nicow", "Ready."),
        "<6>nicow - Ready."
    );
    assert_eq!(AppLogger::format_line(LogLevel::Error, "x", ""), "<3>x - ");
}

#[test]
fn string_equality() {
    assert!(str_equal("nicow", "nicow"));
    assert!(!str_equal("nicow", "nicowx"));
    assert!(!str_equal("nicoW", "nicow"));
    assert!(str_equal("", ""));
    assert!(str_equal("ニコ", "ニコ"));
}

#[test]
fn init_installs_once() {
    assert!(AppLogger::init().is_ok());
    assert_eq!(log::max_level(), log::LevelFilter::Info);
    assert!(AppLogger::init().is_err());
}

#[test]
fn max_level_is_info() {
    assert_eq!(AppLogger::app_max_level(), LogLevel::Info);
}

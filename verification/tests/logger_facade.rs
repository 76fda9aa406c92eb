//! Facade tests: registration, the privacy flags and their defaults,
//! routing of the five severities, and the disabled fast path.

use win_etw::logger::LogLevel;
use win_etw::logger::TraceLogger;

#[test]
fn new_registers_with_defaults() {
    let t = TraceLogger::new().unwrap();
    assert!(t.log_module_path());
    assert!(t.log_file_path());
    assert!(t.provider.registered);
    assert!(!t.provider.enabled);
}

#[test]
fn flags_are_independent() {
    let mut t = TraceLogger::new().unwrap();
    t.set_log_module_path(false);
    assert!(!t.log_module_path());
    assert!(t.log_file_path());
    t.set_log_file_path(false);
    assert!(!t.log_file_path());
    t.set_log_module_path(true);
    assert!(t.log_module_path());
    assert!(!t.log_file_path());
}

#[test]
fn disabled_logging_costs_nothing() {
    let mut t = TraceLogger::new().unwrap();
    let r = t.log(LogLevel::Info, "crate::mod", "lib.rs", 42, "hello");
    assert!(r.is_ok());
    assert_eq!(t.provider.events_written, 0);
    assert_eq!(t.provider.work_counter, 0);
}

#[test]
fn each_severity_routes_one_event() {
    let mut t = TraceLogger::new().unwrap();
    t.provider.set_enabled(true, 5, 0);
    for (i, level) in [
        LogLevel::Error,
        LogLevel::Warn,
        LogLevel::Info,
        LogLevel::Debug,
        LogLevel::Trace,
    ]
    .into_iter()
    .enumerate()
    {
        let r = t.log(level, "crate::mod", "lib.rs", 7, "msg");
        assert!(r.is_ok());
        assert_eq!(t.provider.events_written, (i + 1) as u64);
        assert_eq!(t.provider.last_descriptor_count, 5);
    }
    assert_eq!(t.provider.work_counter, 20);
}

#[test]
fn level_mask_drops_verbose_records() {
    let mut t = TraceLogger::new().unwrap();
    t.provider.set_enabled(true, 3, 0);
    t.log(LogLevel::Trace, "m", "f", 1, "x").unwrap();
    t.log(LogLevel::Info, "m", "f", 1, "x").unwrap();
    assert_eq!(t.provider.events_written, 0);
    t.log(LogLevel::Error, "m", "f", 1, "x").unwrap();
    t.log(LogLevel::Warn, "m", "f", 1, "x").unwrap();
    assert_eq!(t.provider.events_written, 2);
}

#[test]
fn event_levels_match_severities() {
    let t = TraceLogger::new().unwrap();
    assert_eq!(t.event_error.level, 2);
    assert_eq!(t.event_warn.level, 3);
    assert_eq!(t.event_info.level, 4);
    assert_eq!(t.event_debug.level, 5);
    assert_eq!(t.event_trace.level, 5);
}

#[test]
fn unregister_twice_does_not_fail() {
    let mut t = TraceLogger::new().unwrap();
    t.unregister();
    assert!(!t.provider.registered);
    t.unregister();
    assert!(!t.provider.registered);
}

#[test]
fn logging_after_unregister_is_silent() {
    let mut t = TraceLogger::new().unwrap();
    t.provider.set_enabled(true, 5, 0);
    t.unregister();
    let r = t.log(LogLevel::Error, "m", "f", 1, "x");
    assert!(r.is_ok());
    assert_eq!(t.provider.events_written, 0);
}

// Rendering with colours switched on. Every test here sets the same
// override, so that they can share a process.

use libdogd::{format_log, level_marker, LogLine, LogPriority, Timestamp};

fn record(line: &str, prog_name: &str, priority: LogPriority) -> LogLine {
    LogLine {
        line: line.to_string(),
        prog_name: prog_name.to_string(),
        priority,
        time: Timestamp::zero(),
    }
}

#[test]
fn coloured_markers() {
    colored::control::set_override(true);
    assert_eq!(level_marker(LogPriority::Debug), "\x1b[90mD\x1b[0m");
    assert_eq!(level_marker(LogPriority::Info), "I");
    assert_eq!(level_marker(LogPriority::Error), "\x1b[31mE\x1b[0m");
    assert_eq!(level_marker(LogPriority::Critical), "\x1b[47;31mC\x1b[0m");
}

#[test]
fn two_lines_as_error_in_colour() {
    colored::control::set_override(true);
    assert_eq!(
        format_log(&record("a\nb", "x", LogPriority::Error)),
        "x(\x1b[31mE\x1b[0m) a\nx(\x1b[31mE\x1b[0m) b\n"
    );
}

#[test]
fn info_is_plain_even_in_colour() {
    colored::control::set_override(true);
    assert_eq!(format_log(&record("boot ok", "svc", LogPriority::Info)), "svc(I) boot ok\n");
}

#[test]
fn critical_in_colour() {
    colored::control::set_override(true);
    assert_eq!(
        format_log(&record("down", "svc", LogPriority::Critical)),
        "svc(\x1b[47;31mC\x1b[0m) down\n"
    );
}

#[test]
fn debug_in_colour() {
    colored::control::set_override(true);
    assert_eq!(
        format_log(&record("trace", "svc", LogPriority::Debug)),
        "svc(\x1b[90mD\x1b[0m) trace\n"
    );
}

use rdwm_native::invocation::CommandInvocation;
use rdwm_native::logfile::{log_dir_name, log_file_name, Timestamp};
use rdwm_native::spawn::spawn_log_line;

#[test]
fn log_line_with_args() {
    let inv = CommandInvocation {
        command: "ls".to_string(),
        args: vec!["-la".to_string(), "/tmp".to_string()],
    };
    assert_eq!(spawn_log_line(&inv), "spawn process: ls -la, /tmp");
}

#[test]
fn log_line_single_arg() {
    let inv = CommandInvocation {
        command: "cat".to_string(),
        args: vec!["notes.txt".to_string()],
    };
    assert_eq!(spawn_log_line(&inv), "spawn process: cat notes.txt");
}

#[test]
fn log_line_without_args() {
    let inv = CommandInvocation {
        command: "true".to_string(),
        args: vec![],
    };
    assert_eq!(spawn_log_line(&inv), "spawn process: true ");
}

#[test]
fn file_name_basic() {
    let ts = Timestamp {
        year: 2026,
        month: 10,
        day: 11,
        hour: 9,
        minute: 30,
        second: 59,
    };
    assert_eq!(log_file_name(&ts), "2026-10-11-093059.log");
}

#[test]
fn file_name_pads_small_fields() {
    let ts = Timestamp {
        year: 3,
        month: 1,
        day: 2,
        hour: 0,
        minute: 0,
        second: 7,
    };
    assert_eq!(log_file_name(&ts), "0003-01-02-000007.log");
}

#[test]
fn timestamp_validity() {
    let good = Timestamp {
        year: 1999,
        month: 12,
        day: 31,
        hour: 23,
        minute: 59,
        second: 59,
    };
    assert!(good.is_valid());
    let bad = Timestamp {
        year: 1999,
        month: 0,
        day: 31,
        hour: 23,
        minute: 59,
        second: 59,
    };
    assert!(!bad.is_valid());
}

#[test]
fn dir_name() {
    assert_eq!(log_dir_name(), "rdwm");
}

use guarderd::journal::{exit_notice, log_line, restart_notice, rotation_notice, shutdown_notice, stamped};

#[test]
fn log_line_stamps_the_start_of_1970() {
    assert_eq!(log_line(0, 0, "x"), Some("[1970-01-01T00:00:00+00:00] x".to_string()));
}

#[test]
fn log_line_writes_fractions_of_a_second() {
    assert_eq!(
        log_line(1431648000, 0, "Log size exceeded. Rotated"),
        Some("[2015-05-15T00:00:00+00:00] Log size exceeded. Rotated".to_string())
    );
    assert_eq!(log_line(1431648000, 500_000_000, ""), Some("[2015-05-15T00:00:00.500+00:00] ".to_string()));
    assert_eq!(log_line(1431648000, 1_000, "a"), Some("[2015-05-15T00:00:00.000001+00:00] a".to_string()));
    assert_eq!(log_line(-1, 999_999_999, "a"), Some("[1969-12-31T23:59:59.999999999+00:00] a".to_string()));
}

#[test]
fn log_line_agrees_with_chrono() {
    let instant = chrono::DateTime::from_timestamp(1_700_000_000, 123_456_789).unwrap();
    assert_eq!(
        log_line(instant.timestamp(), instant.timestamp_subsec_nanos(), "tick"),
        Some(format!("[{}] tick", instant.to_rfc3339()))
    );
}

#[test]
fn log_line_knows_no_instant_out_of_range() {
    assert_eq!(log_line(i64::MAX, 0, "x"), None);
    assert_eq!(log_line(i64::MIN, 0, "x"), None);
    assert_eq!(log_line(0, 2_000_000_000, "x"), None);
    assert_eq!(log_line(0, 1_000_000_000, "x"), None);
}

#[test]
fn stamped_puts_the_time_in_brackets() {
    assert_eq!(stamped("T", "body"), "[T] body");
    assert_eq!(stamped("", ""), "[] ");
}

#[test]
fn notices_read_as_the_daemon_writes_them() {
    assert_eq!(rotation_notice(), "Log size exceeded. Rotated");
    assert_eq!(shutdown_notice(), "Daemon: Received Ctrl-C, shutting down...");
    assert_eq!(exit_notice(4712, "exit status: 1"), "Child process 4712 exited with status exit status: 1");
    assert_eq!(restart_notice(5), "Restarting child process in 5 seconds...");
    assert_eq!(restart_notice(0), "Restarting child process in 0 seconds...");
    assert_eq!(
        restart_notice(u64::MAX),
        "Restarting child process in 18446744073709551615 seconds..."
    );
}

#[test]
fn rotation_marker_is_its_time_and_29_characters() {
    let stamp = "2024-02-29T12:00:00.250+00:00";
    let marker = stamped(stamp, rotation_notice());
    assert_eq!(marker, "[2024-02-29T12:00:00.250+00:00] Log size exceeded. Rotated");
    assert_eq!(marker.chars().count(), stamp.chars().count() + 29);
}

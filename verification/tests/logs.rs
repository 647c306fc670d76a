use core_node::logging::{error_line, log_file_path, stack_line, validate_log_filename};

#[test]
fn validate_log_filename_accepts_safe_names() {
    for name in ["foo.log", "camera_0.1.0_20260101_000000_000.log", "a-b_c.log"] {
        assert!(validate_log_filename(name).is_ok(), "should accept `{name}`");
    }
}

#[test]
fn validate_log_filename_rejects_traversal_and_separators() {
    for name in ["", ".", "..", "../evil.log", "a/b.log", "a\\b.log", "a\0b.log"] {
        assert!(validate_log_filename(name).is_err(), "should reject `{name}`");
    }
}

#[test]
fn a_refused_name_is_quoted() {
    assert_eq!(
        validate_log_filename("a\\b\n.log"),
        Err("invalid log filename: \"a\\\\b\\n.log\"".to_string())
    );
}

#[test]
fn a_log_stands_in_its_directory() {
    assert_eq!(
        log_file_path("/logs", "a.log", &Ok(()), &Ok(())),
        Ok("/logs/a.log".to_string())
    );
    assert_eq!(
        log_file_path("/logs", "a.log", &Err("full".to_string()), &Ok(())),
        Err("Failed to create logs directory: full".to_string())
    );
    assert_eq!(
        log_file_path("/logs", "a.log", &Ok(()), &Err("full".to_string())),
        Err("Failed to create log file: full".to_string())
    );
    assert!(log_file_path("/logs", "../a.log", &Ok(()), &Ok(())).is_err());
}

#[test]
fn lines_carry_their_time() {
    assert_eq!(error_line("12:00", "bad"), "[12:00] [error] bad");
    assert_eq!(stack_line("12:00", "up"), "[12:00] up");
}

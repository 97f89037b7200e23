use klipo::logging::{
    rotated_file_name, rotation_plan, should_rotate, size_after_write, RotationStep,
    LOG_FILE_NAME, MAX_LOG_FILE_SIZE, MAX_ROTATED_LOG_FILES,
};

#[test]
fn rotated_files_are_numbered() {
    assert_eq!(rotated_file_name(1), "klipo.1.log");
    assert_eq!(rotated_file_name(5), "klipo.5.log");
    assert_eq!(rotated_file_name(12), "klipo.12.log");
    assert_eq!(LOG_FILE_NAME, "klipo.log");
}

#[test]
fn a_non_empty_log_rotates_before_passing_the_limit() {
    assert_eq!(MAX_LOG_FILE_SIZE, 5 * 1024 * 1024);
    assert!(!should_rotate(0, MAX_LOG_FILE_SIZE + 10));
    assert!(!should_rotate(MAX_LOG_FILE_SIZE - 10, 10));
    assert!(should_rotate(MAX_LOG_FILE_SIZE - 10, 11));
    assert!(should_rotate(u64::MAX, 1));
}

#[test]
fn recorded_size_saturates() {
    assert_eq!(size_after_write(10, 5), 15);
    assert_eq!(size_after_write(u64::MAX - 1, 5), u64::MAX);
}

#[test]
fn rotation_drops_the_oldest_and_shifts_the_rest() {
    assert_eq!(MAX_ROTATED_LOG_FILES, 5);
    assert_eq!(
        rotation_plan(),
        vec![
            RotationStep::RemoveRotated(5),
            RotationStep::ShiftRotated { from: 4, to: 5 },
            RotationStep::ShiftRotated { from: 3, to: 4 },
            RotationStep::ShiftRotated { from: 2, to: 3 },
            RotationStep::ShiftRotated { from: 1, to: 2 },
            RotationStep::RetireCurrent,
        ]
    );
}

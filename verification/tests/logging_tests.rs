use exit_pipeline::logging::{LogCategory, LogRotation};

#[test]
fn categories_have_fixed_names() {
    assert_eq!(LogCategory::SnipingCore.as_str(), "sniping_core");
    assert_eq!(LogCategory::AntColony.as_str(), "ant_colony");
    assert_eq!(LogCategory::Error.as_str(), "error");
}

#[test]
fn rotation_triggers_at_the_size_limit() {
    let rotation = LogRotation::new(1_048_576, 5);
    assert!(!rotation.should_rotate(1_048_575));
    assert!(rotation.should_rotate(1_048_576));
    assert!(rotation.should_rotate(2_000_000));
}

#[test]
fn rotated_filenames_carry_the_index() {
    let rotation = LogRotation::new(1_048_576, 5);
    assert_eq!(rotation.get_rotated_filename("ant_colony", "log", 0), "ant_colony.0.log");
    assert_eq!(rotation.get_rotated_filename("ant_colony", "log", 3), "ant_colony.3.log");
    assert_eq!(rotation.get_rotated_filename("error", "log", 1234), "error.1234.log");
    assert_eq!(rotation.get_rotated_filename("a", "b", 4_294_967_295), "a.4294967295.b");
}

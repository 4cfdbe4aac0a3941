use power_profiles_cfg::AppError;

#[test]
fn error_messages() {
    assert_eq!(AppError::DeviceReadFailure.message(), "Error reading sysfs file");
    assert_eq!(AppError::DeviceWriteFailure.message(), "Error writing to sysfs file");
    assert_eq!(AppError::ConfigParseFailure.message(), "Error parsing RON from file");
    assert_eq!(AppError::ConfigPersistFailure.message(), "Error saving profiles to file");
    assert_eq!(AppError::NoProfilesAvailable.message(), "No profiles exist");
}

#[test]
fn errors_compare_by_variant() {
    assert_eq!(AppError::DeviceReadFailure, AppError::DeviceReadFailure);
    assert_ne!(AppError::DeviceReadFailure, AppError::DeviceWriteFailure);
    assert_ne!(AppError::ConfigParseFailure, AppError::ConfigPersistFailure);
}

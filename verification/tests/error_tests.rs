use surveillance_system::error::{ErrorSeverity, SurveillanceError};

#[test]
fn test_error_codes() {
    let auth_error = SurveillanceError::auth_error("test");
    assert_eq!(auth_error.error_code(), 1001);

    let config_error = SurveillanceError::config_error("test");
    assert_eq!(config_error.error_code(), 1002);
}

#[test]
fn test_error_severity() {
    let auth_error = SurveillanceError::auth_error("test");
    assert!(matches!(auth_error.severity(), ErrorSeverity::Warning));

    let internal_error = SurveillanceError::internal_error("test");
    assert!(matches!(internal_error.severity(), ErrorSeverity::Critical));
    assert!(internal_error.is_critical());
}

#[test]
fn every_constructor_has_its_code() {
    assert_eq!(SurveillanceError::rtsp_error("x").error_code(), 1003);
    assert_eq!(SurveillanceError::network_error("x").error_code(), 1004);
    assert_eq!(SurveillanceError::filesystem_error("x").error_code(), 1005);
    assert_eq!(SurveillanceError::json_error("x").error_code(), 1006);
    assert_eq!(SurveillanceError::PermissionDenied.error_code(), 1007);
    assert_eq!(SurveillanceError::UserNotFound.error_code(), 1008);
    assert_eq!(SurveillanceError::InvalidCredentials.error_code(), 1009);
    assert_eq!(
        SurveillanceError::CameraUnavailable { camera_id: 7 }.error_code(),
        1010
    );
    assert_eq!(SurveillanceError::ConnectionTimeout.error_code(), 1011);
    assert_eq!(SurveillanceError::internal_error("x").error_code(), 9999);
}

#[test]
fn criticality_matches_severity() {
    let filesystem = SurveillanceError::filesystem_error("disk gone");
    assert!(filesystem.is_critical());
    assert!(matches!(filesystem.severity(), ErrorSeverity::Critical));

    let not_found = SurveillanceError::UserNotFound;
    assert!(!not_found.is_critical());
    assert!(matches!(not_found.severity(), ErrorSeverity::Info));

    let json = SurveillanceError::json_error("bad byte");
    assert!(!json.is_critical());
    assert!(matches!(json.severity(), ErrorSeverity::Error));
}

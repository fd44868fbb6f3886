use surveillance_system::config::{Config, ConfigManager, Settings};
use surveillance_system::error::SurveillanceError;

fn empty_registry() -> Config {
    Config {
        users: Vec::new(),
        apartments: Vec::new(),
        cameras: Vec::new(),
        settings: Settings::default(),
    }
}

#[test]
fn test_config_validation() {
    let config = Config::new_test();
    assert!(config.validate().is_ok());
}

#[test]
fn test_cameras_by_apartment() {
    let config = Config::new_test();
    let cameras = config.get_cameras_by_apartment("Квартира на Пушкина");
    assert!(!cameras.is_empty());
}

#[test]
fn test_add_camera() {
    let mut config = Config::new_test();
    let result = config.add_camera(
        "Новая камера".to_string(),
        "Квартира на Пушкина".to_string(),
        "rtsp://test:554/stream".to_string(),
    );
    assert!(result.is_ok());
}

#[test]
fn add_apartment_assigns_sequential_ids() {
    let mut config = empty_registry();
    let id = config
        .add_apartment("Elm St".to_string(), "12A".to_string())
        .unwrap();
    assert_eq!(id, 1);

    let mut seeded = Config::new_test();
    let id = seeded
        .add_apartment("Elm St".to_string(), "12A".to_string())
        .unwrap();
    assert_eq!(id, 4);

    let dup = seeded.add_apartment("Elm St".to_string(), "99".to_string());
    assert!(dup.is_err());
    assert_eq!(seeded.apartments.len(), 4);
}

#[test]
fn add_camera_to_unknown_apartment_fails() {
    let mut config = Config::new_test();
    let before = config.cameras.clone();
    let result = config.add_camera(
        "Hall".to_string(),
        "Elm St".to_string(),
        "rtsp://host/stream".to_string(),
    );
    assert!(matches!(
        result,
        Err(SurveillanceError::ConfigError { .. })
    ));
    // the camera set is unchanged after the failed call
    assert_eq!(config.cameras, before);

    config
        .add_apartment("Elm St".to_string(), "12A".to_string())
        .unwrap();
    let id = config
        .add_camera(
            "Hall".to_string(),
            "Elm St".to_string(),
            "rtsp://host/stream".to_string(),
        )
        .unwrap();
    assert_eq!(id, 6);
    let added = config.cameras.last().unwrap();
    assert!(added.enabled);
    assert_eq!(added.camera_name, "Hall");
}

#[test]
fn toggle_camera_flips_and_restores() {
    let mut config = Config::new_test();
    let before = config.clone();
    assert_eq!(config.toggle_camera(1).unwrap(), false);
    assert_eq!(config.toggle_camera(1).unwrap(), true);
    // two toggles leave every field of every camera unchanged
    assert_eq!(config, before);
    assert!(config.toggle_camera(999).is_err());
}

#[test]
fn remove_camera_deletes_by_id() {
    let mut config = Config::new_test();
    assert!(config.remove_camera(3).is_ok());
    assert_eq!(config.cameras.len(), 4);
    assert!(config.cameras.iter().all(|c| c.id != 3));
    assert!(config.remove_camera(3).is_err());
}

#[test]
fn update_camera_applies_fields_independently() {
    let mut config = Config::new_test();
    config
        .update_camera(1, Some("Вход".to_string()), None, None)
        .unwrap();
    assert_eq!(config.cameras[0].camera_name, "Вход");
    assert_eq!(config.cameras[0].apartment_name, "Квартира на Пушкина");

    // a dangling apartment reference is rejected and nothing is applied
    let before = config.cameras.clone();
    let result = config.update_camera(
        1,
        Some("ignored".to_string()),
        Some("Nowhere".to_string()),
        Some("rtsp://ignored".to_string()),
    );
    assert!(result.is_err());
    assert_eq!(config.cameras, before);

    config
        .update_camera(
            1,
            None,
            Some("Квартира на Ленина".to_string()),
            Some("rtsp://10.0.0.1/live".to_string()),
        )
        .unwrap();
    assert_eq!(config.cameras[0].apartment_name, "Квартира на Ленина");
    assert_eq!(config.cameras[0].rtsp_link, "rtsp://10.0.0.1/live");
    assert!(config.update_camera(999, None, None, None).is_err());
}

#[test]
fn validation_names_the_dangling_camera() {
    // a registry holding a camera whose apartment reference matches an
    // apartment validates; breaking the reference fails naming the camera
    let mut config = empty_registry();
    config
        .add_apartment("Elm St".to_string(), "12A".to_string())
        .unwrap();
    config
        .add_camera(
            "Hall".to_string(),
            "Elm St".to_string(),
            "rtsp://host/stream".to_string(),
        )
        .unwrap();
    assert!(config.validate().is_ok());

    config.cameras[0].apartment_name = "Oak St".to_string();
    match config.validate() {
        Err(SurveillanceError::ConfigError { message }) => {
            assert_eq!(
                message,
                "camera 'Hall' references unknown apartment 'Oak St'"
            );
        },
        other => panic!("expected a dangling-reference failure, got {:?}", other),
    }
}

#[test]
fn validation_rejects_empty_and_zero_settings() {
    let empty = empty_registry();
    assert!(empty.validate().is_err());

    let mut no_cameras = empty_registry();
    no_cameras
        .add_apartment("Elm St".to_string(), "12A".to_string())
        .unwrap();
    assert!(no_cameras.validate().is_err());

    let mut zero_rotation = Config::new_test();
    zero_rotation.settings.rotation_interval = 0;
    assert!(zero_rotation.validate().is_err());

    let mut zero_timeout = Config::new_test();
    zero_timeout.settings.connection_timeout = 0;
    assert!(zero_timeout.validate().is_err());
}

#[test]
fn grouping_collects_enabled_cameras() {
    let mut config = Config::new_test();
    config.toggle_camera(5).unwrap();  // disable one of the two on Ленина
    let groups = config.get_cameras_grouped_by_apartments();
    // Советской has no cameras at all, so only two groups exist
    assert_eq!(groups.len(), 2);
    for (name, cameras) in &groups {
        if name == "Квартира на Пушкина" {
            assert_eq!(cameras.len(), 3);
        } else {
            assert_eq!(name, "Квартира на Ленина");
            assert_eq!(cameras.len(), 1);
            assert_eq!(cameras[0].id, 4);
        }
    }
}

#[test]
fn cameras_by_apartment_skips_disabled() {
    let mut config = Config::new_test();
    config.toggle_camera(1).unwrap();
    let cameras = config.get_cameras_by_apartment("Квартира на Пушкина");
    assert_eq!(cameras.len(), 2);
    assert!(cameras.iter().all(|c| c.enabled));
}

#[test]
fn apartment_names_follow_registry_order() {
    let config = Config::new_test();
    let names = config.get_apartment_names();
    assert_eq!(
        names,
        vec![
            "Квартира на Пушкина".to_string(),
            "Квартира на Ленина".to_string(),
            "Квартира на Советской".to_string(),
        ]
    );
}

#[test]
fn manager_replaces_registry_only_when_valid() {
    let mut manager = ConfigManager::new();
    assert!(manager.get_config().validate().is_ok());

    let invalid = empty_registry();
    assert!(manager.update_config(invalid).is_err());
    assert!(manager.get_config().validate().is_ok());

    let mut valid = Config::new_test();
    valid
        .add_apartment("Elm St".to_string(), "12A".to_string())
        .unwrap();
    assert!(manager.update_config(valid).is_ok());
    assert_eq!(manager.get_config().apartments.len(), 4);

    manager.setup_nextcloud(
        "https://cloud.example".to_string(),
        "sync".to_string(),
        "sync-pass".to_string(),
    );
    assert!(manager.save_to_nextcloud().is_ok());
    assert!(manager.load_from_nextcloud().is_ok());
    // a remote load replaces the registry wholesale
    assert_eq!(manager.get_config().apartments.len(), 3);
}

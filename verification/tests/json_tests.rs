use surveillance_system::config::{Apartment, Camera, Config, Settings};
use surveillance_system::error::SurveillanceError;

fn one_camera_registry() -> Config {
    Config {
        users: Vec::new(),
        apartments: vec![Apartment {
            id: 1,
            apartment_name: "A".to_string(),
            apartment_number: "1".to_string(),
        }],
        cameras: vec![Camera {
            id: 2,
            camera_name: "B".to_string(),
            apartment_name: "A".to_string(),
            rtsp_link: "r".to_string(),
            enabled: true,
        }],
        settings: Settings::default(),
    }
}

#[test]
fn serialization_has_the_documented_shape() {
    let json = one_camera_registry().to_json().unwrap();
    let expected = "{\"users\":[],\
\"apartments\":[{\"id\":1,\"apartment_name\":\"A\",\"apartment_number\":\"1\"}],\
\"cameras\":[{\"id\":2,\"camera_name\":\"B\",\"apartment_name\":\"A\",\
\"rtsp_link\":\"r\",\"enabled\":true}],\
\"settings\":{\"rotation_interval\":15,\"connection_timeout\":10,\
\"retry_interval\":30,\"max_retry_attempts\":5,\
\"low_quality_resolution\":\"640x480\",\
\"high_quality_resolution\":\"1920x1080\",\"grid_size\":16}}";
    assert_eq!(json, expected);
}

#[test]
fn round_trip_preserves_the_default_registry() {
    let config = Config::new_test();
    let json = config.to_json().unwrap();
    let back = Config::from_json(&json).unwrap();
    assert_eq!(back, config);
}

#[test]
fn round_trip_preserves_awkward_characters() {
    let mut config = one_camera_registry();
    config.cameras[0].camera_name = "say \"hi\"\\no\u{7}w".to_string();
    config.cameras[0].rtsp_link = "rtsp://host/\n\t\u{0}path?q=тест".to_string();
    config.apartments[0].apartment_name = "A\u{1f}B".to_string();
    config.cameras[0].apartment_name = "A\u{1f}B".to_string();
    let json = config.to_json().unwrap();
    let back = Config::from_json(&json).unwrap();
    assert_eq!(back, config);
}

#[test]
fn round_trip_preserves_a_grown_registry() {
    let mut config = Config::new_test();
    config
        .add_apartment("Elm St".to_string(), "12A".to_string())
        .unwrap();
    config
        .add_camera(
            "Hall".to_string(),
            "Elm St".to_string(),
            "rtsp://host/stream".to_string(),
        )
        .unwrap();
    config.toggle_camera(2).unwrap();
    let json = config.to_json().unwrap();
    let back = Config::from_json(&json).unwrap();
    assert_eq!(back, config);
}

#[test]
fn malformed_documents_are_rejected_whole() {
    for bad in [
        "",
        "{}",
        "not json at all",
        "{\"users\":[],\"apartments\":[],\"cameras\":[],\"settings\":{}}",
        "{\"users\":[],\"apartments\":[],\"cameras\":[]}",
    ] {
        match Config::from_json(bad) {
            Err(SurveillanceError::JsonError { .. }) => {},
            other => panic!("expected a format failure for {:?}, got {:?}", bad, other),
        }
    }
    // trailing garbage after a well-formed document is rejected too
    let mut json = one_camera_registry().to_json().unwrap();
    json.push(' ');
    assert!(Config::from_json(&json).is_err());
}

use surveillance_system::auth::{AuthManager, LoginRequest, UserRole};
use surveillance_system::{get_current_user, has_admin_role, is_authenticated, SystemState};

#[test]
fn test_authentication() {
    let auth_manager = AuthManager::new();

    let request = LoginRequest {
        login: "admin".to_string(),
        password: "admin123".to_string(),
    };

    let response = auth_manager.authenticate(&request);
    assert!(response.success);
    assert!(response.user.is_some());

    let request = LoginRequest {
        login: "admin".to_string(),
        password: "wrong_password".to_string(),
    };

    let response = auth_manager.authenticate(&request);
    assert!(!response.success);
    assert!(response.user.is_none());
}

#[test]
fn test_user_roles() {
    let auth_manager = AuthManager::new();

    assert!(auth_manager.is_admin("admin"));
    assert!(!auth_manager.is_admin("operator1"));
}

#[test]
fn added_identity_authenticates() {
    let mut auth_manager = AuthManager::new();
    auth_manager
        .add_user("carol".to_string(), "s3cret".to_string(), UserRole::Operator)
        .unwrap();

    let ok = auth_manager.authenticate(&LoginRequest {
        login: "carol".to_string(),
        password: "s3cret".to_string(),
    });
    assert!(ok.success);
    let user = ok.user.unwrap();
    assert_eq!(user.login, "carol");
    assert_eq!(user.role, UserRole::Operator);
    // the digest never leaves the store
    assert_eq!(user.password_hash, "");

    let bad = auth_manager.authenticate(&LoginRequest {
        login: "carol".to_string(),
        password: "s3cretx".to_string(),
    });
    assert!(!bad.success);
    assert!(bad.user.is_none());
}

#[test]
fn authentication_failures_are_generic() {
    let auth_manager = AuthManager::new();

    let unknown = auth_manager.authenticate(&LoginRequest {
        login: "nobody".to_string(),
        password: "whatever".to_string(),
    });
    let wrong = auth_manager.authenticate(&LoginRequest {
        login: "admin".to_string(),
        password: "whatever".to_string(),
    });
    assert!(!unknown.success);
    assert!(!wrong.success);
    // an unknown login is not distinguishable from a wrong secret
    assert_eq!(unknown.message, wrong.message);
}

#[test]
fn duplicate_login_is_rejected() {
    let mut auth_manager = AuthManager::new();
    let result = auth_manager.add_user(
        "admin".to_string(),
        "again".to_string(),
        UserRole::Operator,
    );
    assert!(result.is_err());
    assert_eq!(result.unwrap_err(), "identity already exists");
    assert!(auth_manager.is_admin("admin"));
}

#[test]
fn primary_administrator_cannot_be_removed() {
    let mut auth_manager = AuthManager::new();
    assert!(auth_manager.remove_user("admin").is_err());

    auth_manager
        .add_user("dave".to_string(), "pw".to_string(), UserRole::Admin)
        .unwrap();
    // still protected whatever else the store holds
    assert!(auth_manager.remove_user("admin").is_err());
    assert!(auth_manager.get_user("admin").is_some());

    assert!(auth_manager.remove_user("dave").is_ok());
    assert!(auth_manager.get_user("dave").is_none());
    assert!(auth_manager.remove_user("dave").is_err());
}

#[test]
fn change_password_swaps_the_digest() {
    let mut auth_manager = AuthManager::new();
    assert!(auth_manager
        .change_password("operator1", "bad-old", "new-pass")
        .is_err());
    assert!(auth_manager
        .change_password("operator1", "operator123", "new-pass")
        .is_ok());

    let old = auth_manager.authenticate(&LoginRequest {
        login: "operator1".to_string(),
        password: "operator123".to_string(),
    });
    assert!(!old.success);
    let new = auth_manager.authenticate(&LoginRequest {
        login: "operator1".to_string(),
        password: "new-pass".to_string(),
    });
    assert!(new.success);
}

#[test]
fn get_all_users_lists_the_seeds() {
    let auth_manager = AuthManager::new();
    let users = auth_manager.get_all_users();
    assert_eq!(users.len(), 2);
}

#[test]
fn session_state_tracks_identity() {
    let mut state = SystemState::new();
    assert!(!is_authenticated(&state));
    assert!(!has_admin_role(&state));
    assert!(get_current_user(&state).is_none());

    let auth_manager = AuthManager::new();
    let response = auth_manager.authenticate(&LoginRequest {
        login: "admin".to_string(),
        password: "admin123".to_string(),
    });
    state.authenticate(response.user.unwrap());
    assert!(is_authenticated(&state));
    assert!(has_admin_role(&state));
    assert_eq!(get_current_user(&state).unwrap().login, "admin");

    state.logout();
    assert!(!is_authenticated(&state));
    assert!(!has_admin_role(&state));
}

use lighthouse::auth::{
    check_login, hash_password, verify_password, LoginError, RegisterError, RegisterRequest,
};
use lighthouse::config::Target;
use lighthouse::device::parse_device_id;

#[test]
fn device_id_parses_hex() {
    assert_eq!(
        parse_device_id("37c6a8bd264c4653a641c9b574207be5"),
        Some(0x37c6a8bd264c4653a641c9b574207be5)
    );
    assert_eq!(
        parse_device_id("37C6A8BD264C4653A641C9B574207BE5"),
        Some(0x37c6a8bd264c4653a641c9b574207be5)
    );
    assert_eq!(parse_device_id("ffffffffffffffffffffffffffffffff"), Some(u128::MAX));
    assert_eq!(parse_device_id("00000000000000000000000000000000"), Some(0));
}

#[test]
fn device_id_rejects_other_text() {
    assert_eq!(parse_device_id(""), None);
    assert_eq!(parse_device_id("37c6a8bd264c4653a641c9b574207be"), None);
    assert_eq!(parse_device_id("37c6a8bd264c4653a641c9b574207be55"), None);
    assert_eq!(parse_device_id("37c6a8bd-264c-4653-a641-c9b574207be5"), None);
    assert_eq!(parse_device_id("g7c6a8bd264c4653a641c9b574207be5"), None);
}

fn hash_of(password: &str) -> String {
    argon2::hash_encoded(password.as_bytes(), b"somesaltvalue", &argon2::Config::default()).unwrap()
}

#[test]
fn matching_password_is_accepted() {
    let hash = hash_of("SomePassword");
    assert!(verify_password(&hash, "SomePassword").is_ok());
}

#[test]
fn wrong_password_is_refused() {
    let hash = hash_of("SomePassword");
    assert!(matches!(
        verify_password(&hash, "SomeOtherPassword"),
        Err(LoginError::InvalidPassword)
    ));
}

#[test]
fn malformed_hash_is_an_internal_error() {
    match verify_password("not a hash", "SomePassword") {
        Err(LoginError::InternalError(m)) => assert_eq!(m, "malformed password hash"),
        other => panic!("unexpected outcome: {:?}", other),
    }
}

#[test]
fn error_status_codes() {
    assert_eq!(LoginError::InvalidPassword.status_code(), 400);
    assert_eq!(LoginError::UserNotFound.status_code(), 404);
    assert_eq!(LoginError::InternalError("db".to_string()).status_code(), 500);
    assert_eq!(RegisterError::InternalError("db".to_string()).status_code(), 500);
    let request = RegisterRequest {
        email: "john_smith@example.com".to_string(),
        username: "John Smith".to_string(),
        password: "SomePassword".to_string(),
    };
    assert_eq!(request.username, "John Smith");
}

#[test]
fn config_file_names() {
    assert_eq!(Target::Server.config_file_name(), "server.toml");
    assert_eq!(Target::Client.config_file_name(), "client.toml");
}

#[test]
fn unknown_user_cannot_log_in() {
    assert!(matches!(check_login(None, "SomePassword"), Err(LoginError::UserNotFound)));
}

#[test]
fn known_user_logs_in_with_its_password() {
    let hash = hash_of("SomePassword");
    assert!(check_login(Some(&hash), "SomePassword").is_ok());
    assert!(matches!(
        check_login(Some(&hash), "SomeOtherPassword"),
        Err(LoginError::InvalidPassword)
    ));
}

#[test]
fn registered_password_verifies() {
    let hash = hash_password("SomePassword", b"somesaltvalue").unwrap();
    assert!(hash.starts_with("$argon2i$"));
    assert_ne!(hash, "SomePassword");
    assert_eq!(hash, hash_of("SomePassword"));
    assert!(verify_password(&hash, "SomePassword").is_ok());
}

#[test]
fn short_salt_cannot_hash() {
    match hash_password("SomePassword", b"short") {
        Err(RegisterError::InternalError(m)) => assert_eq!(m, "password cannot be hashed"),
        Ok(h) => panic!("unexpected hash: {}", h),
    }
}

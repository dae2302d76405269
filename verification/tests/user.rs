//! Registration validation, the registration steps, and the public profile
//! responses.
use canteen_core::error::ApiError;
use canteen_core::identity::check_uniqueness;
use canteen_core::identity::fetch_user_public_info;
use canteen_core::identity::finish_registration;
use canteen_core::identity::require_password_hash;
use canteen_core::identity::validate_display_name;
use canteen_core::identity::validate_email;
use canteen_core::identity::validate_password;
use canteen_core::identity::validate_registration;
use canteen_core::identity::CountOutcome;
use canteen_core::identity::FetchPublicResponse;
use canteen_core::identity::InsertOutcome;
use canteen_core::identity::PublicRowOutcome;

#[test]
fn test_validate_display_name() {
    assert!(validate_display_name(""));
    assert!(validate_display_name(
        "thisisaverylongdisplaynamewhichshouldnotbevalidHAHAHAHHAHAHA"
    ));
    assert!(!validate_display_name("validname"));
}

#[test]
fn test_validate_email() {
    assert!(validate_email(""));
    assert!(validate_email("invalid-email"));
    assert!(!validate_email("hello@abc.com"));
    assert!(!validate_email("hello+tag@abc.com"));
}

#[test]
fn test_validate_password() {
    assert!(validate_password("short"));
    assert!(validate_password(""));
    assert!(!validate_password("validpassword"));
    assert!(!validate_password("thisisaverylongpasswordthatshouldbevalid"));
}

#[test]
fn test_response_structure() {
    let response = FetchPublicResponse {
        id: 123,
        display_name: "Test User".to_string(),
    };

    assert_eq!(response.id, 123);
    assert_eq!(response.display_name, "Test User");
}

#[test]
fn test_response_equality() {
    let response1 = FetchPublicResponse {
        id: 1,
        display_name: "John Doe".to_string(),
    };

    let response2 = FetchPublicResponse {
        id: 1,
        display_name: "John Doe".to_string(),
    };

    let response3 = FetchPublicResponse {
        id: 2,
        display_name: "Jane Smith".to_string(),
    };

    assert_eq!(response1, response2);
    assert_ne!(response1, response3);
}

#[test]
fn test_fetch_user_error_debug() {
    let error = ApiError::NotFound("User not found");
    assert_eq!(error.status_code(), 404);
    assert_eq!(error.message(), "User not found");

    let db_error = ApiError::Internal("Database error");
    assert_eq!(db_error.status_code(), 500);
    assert_eq!(db_error.message(), "Database error");
}

#[test]
fn test_error_handling_logic() {
    let not_found_error = fetch_user_public_info(PublicRowOutcome::NoRow);
    match not_found_error {
        Err(ApiError::NotFound("User not found")) => {}
        _ => {
            panic!("Expected NotFound error");
        }
    }

    let db_error = fetch_user_public_info(PublicRowOutcome::QueryError);
    match db_error {
        Err(ApiError::Internal("Database error")) => {}
        _ => {
            panic!("Expected DatabaseError");
        }
    }
}

#[test]
fn test_response_serde_structure() {
    let response = FetchPublicResponse {
        id: 1,
        display_name: "Test".to_string(),
    };

    assert_eq!(response.id, 1);
    assert_eq!(response.display_name, "Test");
}

#[test]
fn fetch_user_public_info_passes_rows_through() {
    let row = FetchPublicResponse {
        id: 7,
        display_name: "Seven".to_string(),
    };
    let got = fetch_user_public_info(PublicRowOutcome::Row(row)).unwrap();
    assert_eq!(got.id, 7);
    assert_eq!(got.display_name, "Seven");
}

#[test]
fn registration_validation_covers_each_field() {
    assert!(validate_registration("alice", "a@x.com", "longenough1").is_ok());

    let err = validate_registration("", "a@x.com", "longenough1").unwrap_err();
    assert_eq!(err.status_code(), 400);
    assert_eq!(err.message(), "Invalid input");

    let err = validate_registration("alice", "not-an-email", "longenough1").unwrap_err();
    assert_eq!(err.message(), "Invalid input");

    let err = validate_registration("alice", "a@x.com", "short").unwrap_err();
    assert_eq!(err.message(), "Invalid input");
}

#[test]
fn registration_steps_map_their_outcomes() {
    assert!(check_uniqueness(&CountOutcome::Counted(0)).is_ok());

    let err = check_uniqueness(&CountOutcome::Counted(1)).unwrap_err();
    assert_eq!(err.status_code(), 409);
    assert_eq!(err.message(), "Display name or email already exists");

    let err = check_uniqueness(&CountOutcome::QueryError).unwrap_err();
    assert_eq!(err.status_code(), 500);
    assert_eq!(err.message(), "Database query failed");

    let hash = require_password_hash(Some("phc".to_string())).unwrap();
    assert_eq!(hash, "phc");
    let err = require_password_hash(None).unwrap_err();
    assert_eq!(err.status_code(), 500);
    assert_eq!(err.message(), "Failed to hash password");

    let msg = finish_registration(&InsertOutcome::Inserted).unwrap();
    assert_eq!(msg, "User created successfully");
    let err = finish_registration(&InsertOutcome::InsertError).unwrap_err();
    assert_eq!(err.status_code(), 500);
    assert_eq!(err.message(), "Failed to create user");
}

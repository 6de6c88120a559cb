//! Error classification for both driver-backed backends, and the
//! HTTP error surface.

use rust_webapp::api::ApiError;
use rust_webapp::api::found_or_not_found;
use rust_webapp::document::classify_document_error;
use rust_webapp::relational::RelationalErrorKind;
use rust_webapp::relational::classify_relational_error;
use rust_webapp::users::User;
use rust_webapp::users::UserId;
use rust_webapp::users::UserRepoError;

#[test]
fn relational_pool_failures_are_unavailable() {
    assert!(matches!(
        classify_relational_error(RelationalErrorKind::PoolClosed),
        UserRepoError::Unavailable
    ));
    assert!(matches!(
        classify_relational_error(RelationalErrorKind::PoolTimedOut),
        UserRepoError::Unavailable
    ));
}

#[test]
fn relational_unique_violation_is_conflict() {
    let classified = classify_relational_error(RelationalErrorKind::UniqueViolation {
        field: "username".to_string(),
        value: "johndoe".to_string(),
    });
    match classified {
        UserRepoError::Conflict { field, value } => {
            assert_eq!(field, "username");
            assert_eq!(value, "johndoe");
        }
        other => panic!("expected a conflict, got {:?}", other),
    }
}

#[test]
fn relational_unrecognized_failure_is_unexpected() {
    let classified = classify_relational_error(RelationalErrorKind::Other {
        message: "disk full".to_string(),
    });
    match classified {
        UserRepoError::Unexpected { message } => assert_eq!(message, "disk full"),
        other => panic!("expected an unexpected failure, got {:?}", other),
    }
}

#[test]
fn document_connection_fragments_are_unavailable() {
    let fragments = [
        "server selection",
        "timed out",
        "timeout",
        "connection",
        "Connection refused",
        "pool",
    ];
    for fragment in fragments {
        let message = format!("driver reported: {} while talking to the store", fragment);
        assert!(matches!(
            classify_document_error(message),
            UserRepoError::Unavailable
        ));
    }
}

#[test]
fn document_unrecognized_message_stays_unexpected() {
    let classified = classify_document_error("duplicate key violation".to_string());
    match classified {
        UserRepoError::Unexpected { message } => {
            assert_eq!(message, "duplicate key violation");
        }
        other => panic!("expected an unexpected failure, got {:?}", other),
    }
}

#[test]
fn api_error_status_codes() {
    assert_eq!(ApiError::Conflict.status_code(), 409);
    assert_eq!(ApiError::BadRequest("empty username".to_string()).status_code(), 400);
    assert_eq!(ApiError::Internal.status_code(), 500);
    assert_eq!(ApiError::NotFound.status_code(), 404);
}

#[test]
fn api_error_from_repo_error() {
    assert!(matches!(
        ApiError::from(UserRepoError::Conflict {
            field: "username".to_string(),
            value: "johndoe".to_string(),
        }),
        ApiError::Conflict
    ));
    assert!(matches!(ApiError::from(UserRepoError::Unavailable), ApiError::Internal));
    assert!(matches!(
        ApiError::from(UserRepoError::Unexpected { message: "boom".to_string() }),
        ApiError::Internal
    ));
}

#[test]
fn absent_lookup_maps_to_not_found() {
    assert!(matches!(found_or_not_found(None), Err(ApiError::NotFound)));
    let user = User {
        id: UserId { hi: 7, lo: 9 },
        username: "alice".to_string(),
        email: "alice@example.com".to_string(),
    };
    let fetched = found_or_not_found(Some(user)).unwrap();
    assert_eq!(fetched.username, "alice");
}

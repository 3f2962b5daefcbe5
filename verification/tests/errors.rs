use photo_service::ddb::{changed, removed, updated, written, DaoError, StoreError};
use photo_service::graphql::errors::{APIError, FieldErrorCode, FieldErrorWithCode};
use photo_service::graphql::{authenticated, entitled, required};
use photo_service::domain::photo::Photo;
use photo_service::domain::Timestamp;

#[test]
fn codes_are_upper_snake_case() {
    assert_eq!(FieldErrorCode::BadRequest.code(), "BAD_REQUEST");
    assert_eq!(FieldErrorCode::UnAuthenticate.code(), "UNAUTHENTICATED");
    assert_eq!(FieldErrorCode::NotFound.code(), "NOT_FOUND");
    assert_eq!(FieldErrorCode::Forbidden.code(), "FORBIDDEN");
    assert_eq!(FieldErrorCode::Internal.code(), "INTERNAL");
}

#[test]
fn code_names_are_upper_camel_case() {
    assert_eq!(FieldErrorCode::BadRequest.to_string(), "BadRequest");
    assert_eq!(FieldErrorCode::UnAuthenticate.to_string(), "Unauthenticated");
    assert_eq!(FieldErrorCode::NotFound.to_string(), "NotFound");
    assert_eq!(FieldErrorCode::Forbidden.to_string(), "Forbidden");
    assert_eq!(FieldErrorCode::Internal.to_string(), "Internal");
}

#[test]
fn api_error_text() {
    assert_eq!(APIError::Text("boom".to_string()).to_string(), "api error: boom");
    assert_eq!(APIError::Text(String::new()).to_string(), "api error: ");
}

#[test]
fn constructors_set_the_code() {
    assert_eq!(FieldErrorWithCode::bad_request().code(), FieldErrorCode::BadRequest);
    assert_eq!(FieldErrorWithCode::un_authenticate().code(), FieldErrorCode::UnAuthenticate);
    assert_eq!(FieldErrorWithCode::forbidden().code(), FieldErrorCode::Forbidden);
    assert_eq!(FieldErrorWithCode::not_found().code(), FieldErrorCode::NotFound);
}

#[test]
fn every_error_carries_the_same_message() {
    let expected = "api error: エラーです";
    assert_eq!(FieldErrorWithCode::bad_request().message(), expected);
    assert_eq!(FieldErrorWithCode::un_authenticate().message(), expected);
    assert_eq!(FieldErrorWithCode::forbidden().message(), expected);
    assert_eq!(FieldErrorWithCode::not_found().message(), expected);
    assert_eq!(
        FieldErrorWithCode::from(DaoError::InternalError("table is gone".to_string())).message(),
        expected
    );
}

#[test]
fn dao_errors_keep_their_kind() {
    assert_eq!(FieldErrorWithCode::from(DaoError::NotFound).code(), FieldErrorCode::NotFound);
    assert_eq!(FieldErrorWithCode::from(DaoError::Forbidden).code(), FieldErrorCode::Forbidden);
    assert_eq!(
        FieldErrorWithCode::from(DaoError::InternalError("x".to_string())).code(),
        FieldErrorCode::Internal
    );
}

#[test]
fn error_body_has_message_and_code() {
    let body = FieldErrorWithCode::forbidden().into_body();
    assert_eq!(body.message, "api error: エラーです");
    assert_eq!(body.code, "FORBIDDEN");
    let body = FieldErrorWithCode::from(DaoError::InternalError("x".to_string())).into_body();
    assert_eq!(body.code, "INTERNAL");
    let body = FieldErrorWithCode::un_authenticate().into_body();
    assert_eq!(body.code, "UNAUTHENTICATED");
    let body = FieldErrorWithCode::bad_request().into_body();
    assert_eq!(body.code, "BAD_REQUEST");
    let body = FieldErrorWithCode::not_found().into_body();
    assert_eq!(body.code, "NOT_FOUND");
}

#[test]
fn error_body_with_takes_the_code_as_given() {
    let body = FieldErrorWithCode::not_found().body_with("WHATEVER".to_string());
    assert_eq!(body.message, "api error: エラーです");
    assert_eq!(body.code, "WHATEVER");
}

#[test]
fn dao_error_text() {
    assert_eq!(DaoError::NotFound.to_string(), "notfound");
    assert_eq!(DaoError::Forbidden.to_string(), "forbidden");
    assert_eq!(DaoError::InternalError("disk full".to_string()).to_string(), "internal error: disk full");
}

#[test]
fn store_errors_are_surfaced() {
    assert_eq!(DaoError::from(StoreError::NotFound), DaoError::NotFound);
    assert_eq!(
        DaoError::from(StoreError::Other("connection lost".to_string())),
        DaoError::InternalError("connection lost".to_string())
    );
    assert_eq!(DaoError::from("oops".to_string()), DaoError::InternalError("oops".to_string()));
}

#[test]
fn dao_error_equality_and_clone() {
    let e = DaoError::InternalError("a".to_string());
    assert_eq!(e.clone(), e);
    assert_ne!(e, DaoError::InternalError("b".to_string()));
    assert_ne!(DaoError::NotFound, DaoError::Forbidden);
    assert_eq!(DaoError::Forbidden.clone(), DaoError::Forbidden);
}

#[test]
fn insert_outcomes() {
    assert_eq!(written(Ok(1)), Ok(()));
    assert_eq!(written(Ok(0)), Ok(()));
    assert_eq!(
        written(Err(StoreError::Other("duplicate".to_string()))),
        Err(DaoError::InternalError("duplicate".to_string()))
    );
}

#[test]
fn update_outcomes() {
    assert_eq!(changed(Ok(1)), Ok(()));
    assert_eq!(changed(Ok(0)), Err(DaoError::NotFound));
    assert_eq!(changed(Err(StoreError::NotFound)), Err(DaoError::NotFound));
    assert_eq!(
        changed(Err(StoreError::Other("gone".to_string()))),
        Err(DaoError::InternalError("gone".to_string()))
    );
}

#[test]
fn delete_outcomes() {
    assert_eq!(removed(Ok(1)), Ok(true));
    assert_eq!(removed(Ok(0)), Ok(true));
    assert_eq!(
        removed(Err(StoreError::Other("gone".to_string()))),
        Err(DaoError::InternalError("gone".to_string()))
    );
}

#[test]
fn a_request_without_identity_is_unauthenticated() {
    let err = authenticated(&None).unwrap_err();
    assert_eq!(err.code(), FieldErrorCode::UnAuthenticate);
    assert_eq!(authenticated(&Some("u-1".to_string())).unwrap(), "u-1");
}

#[test]
fn a_photo_goes_to_its_owner_only() {
    let photo = Photo::with_id(
        "p-1".to_string(),
        "u-1".to_string(),
        "http://x/1".to_string(),
        false,
        Timestamp::from_micros(1),
    );
    assert_eq!(entitled(&"u-1".to_string(), Ok(photo.clone())), Ok(photo.clone()));
    assert_eq!(entitled(&"u-2".to_string(), Ok(photo)), Err(DaoError::Forbidden));
    assert_eq!(entitled(&"u-1".to_string(), Err(DaoError::NotFound)), Err(DaoError::NotFound));
    assert_eq!(
        entitled(&"u-1".to_string(), Err(DaoError::InternalError("x".to_string()))),
        Err(DaoError::InternalError("x".to_string()))
    );
}

#[test]
fn an_empty_text_is_a_bad_request() {
    assert!(required(&"a".to_string()).is_ok());
    assert_eq!(required(&String::new()).unwrap_err().code(), FieldErrorCode::BadRequest);
}

#[test]
fn update_outcomes_on_a_store_that_counts_changed_rows() {
    assert_eq!(updated(Ok(1), Ok(1)), Ok(()));
    assert_eq!(updated(Ok(1), Ok(0)), Ok(()));
    assert_eq!(updated(Ok(0), Ok(0)), Err(DaoError::NotFound));
    assert_eq!(updated(Ok(0), Err(StoreError::Other("late".to_string()))), Err(DaoError::NotFound));
    assert_eq!(
        updated(Ok(1), Err(StoreError::Other("gone".to_string()))),
        Err(DaoError::InternalError("gone".to_string()))
    );
    assert_eq!(
        updated(Err(StoreError::Other("down".to_string())), Ok(1)),
        Err(DaoError::InternalError("down".to_string()))
    );
    assert_eq!(updated(Err(StoreError::NotFound), Ok(1)), Err(DaoError::NotFound));
}

use aip::errors::Code;
use http::StatusCode;
use std::collections::HashSet;
use std::str::FromStr;

#[test]
fn test_code_to_i32() {
    assert_eq!(Code::Okay as i32, 0);
    assert_eq!(Code::Cancelled as i32, 1);
    assert_eq!(Code::Unknown as i32, 2);
    assert_eq!(Code::InvalidArgument as i32, 3);
    assert_eq!(Code::DeadlineExceeded as i32, 4);
    assert_eq!(Code::NotFound as i32, 5);
    assert_eq!(Code::AlreadyExists as i32, 6);
    assert_eq!(Code::PermissionDenied as i32, 7);
    assert_eq!(Code::ResourceExhausted as i32, 8);
    assert_eq!(Code::FailedPrecondition as i32, 9);
    assert_eq!(Code::Aborted as i32, 10);
    assert_eq!(Code::OutOfRange as i32, 11);
    assert_eq!(Code::Unimplemented as i32, 12);
    assert_eq!(Code::Internal as i32, 13);
    assert_eq!(Code::Unavailable as i32, 14);
    assert_eq!(Code::DataLoss as i32, 15);
    assert_eq!(Code::Unauthenticated as i32, 16);
}

#[test]
fn test_code_to_http_status() {
    assert_eq!(StatusCode::from(Code::Okay), StatusCode::OK);
    assert_eq!(StatusCode::from(Code::InvalidArgument), StatusCode::BAD_REQUEST);
    assert_eq!(StatusCode::from(Code::Unauthenticated), StatusCode::UNAUTHORIZED);
    assert_eq!(StatusCode::from(Code::PermissionDenied), StatusCode::FORBIDDEN);
    assert_eq!(StatusCode::from(Code::NotFound), StatusCode::NOT_FOUND);
    assert_eq!(StatusCode::from(Code::AlreadyExists), StatusCode::CONFLICT);
    assert_eq!(StatusCode::from(Code::ResourceExhausted), StatusCode::TOO_MANY_REQUESTS);
    assert_eq!(StatusCode::from(Code::Unimplemented), StatusCode::NOT_IMPLEMENTED);
    assert_eq!(StatusCode::from(Code::Internal), StatusCode::INTERNAL_SERVER_ERROR);
    assert_eq!(StatusCode::from(Code::Unavailable), StatusCode::SERVICE_UNAVAILABLE);
    assert_eq!(StatusCode::from(Code::DeadlineExceeded), StatusCode::GATEWAY_TIMEOUT);
    assert_eq!(StatusCode::from(Code::Unknown), StatusCode::INTERNAL_SERVER_ERROR);
    assert_eq!(StatusCode::from(Code::DataLoss), StatusCode::INTERNAL_SERVER_ERROR);
    assert_eq!(StatusCode::from(Code::FailedPrecondition), StatusCode::BAD_REQUEST);
    assert_eq!(StatusCode::from(Code::Aborted), StatusCode::CONFLICT);
    assert_eq!(StatusCode::from(Code::OutOfRange), StatusCode::BAD_REQUEST);
}

#[test]
fn test_http_status_to_code() {
    // 2xx -> Ok
    assert_eq!(Code::from(StatusCode::OK), Code::Okay);
    assert_eq!(Code::from(StatusCode::CREATED), Code::Okay);
    assert_eq!(Code::from(StatusCode::NO_CONTENT), Code::Okay);

    // Specific 4xx mappings
    assert_eq!(Code::from(StatusCode::BAD_REQUEST), Code::InvalidArgument);
    assert_eq!(Code::from(StatusCode::UNAUTHORIZED), Code::Unauthenticated);
    assert_eq!(Code::from(StatusCode::FORBIDDEN), Code::PermissionDenied);
    assert_eq!(Code::from(StatusCode::NOT_FOUND), Code::NotFound);
    assert_eq!(Code::from(StatusCode::CONFLICT), Code::AlreadyExists);
    assert_eq!(Code::from(StatusCode::TOO_MANY_REQUESTS), Code::ResourceExhausted);

    // Specific 5xx mappings
    assert_eq!(Code::from(StatusCode::NOT_IMPLEMENTED), Code::Unimplemented);
    assert_eq!(Code::from(StatusCode::SERVICE_UNAVAILABLE), Code::Unavailable);
    assert_eq!(Code::from(StatusCode::GATEWAY_TIMEOUT), Code::DeadlineExceeded);

    // Other 4xx -> FailedPrecondition
    assert_eq!(Code::from(StatusCode::GONE), Code::FailedPrecondition);
    assert_eq!(Code::from(StatusCode::PRECONDITION_FAILED), Code::FailedPrecondition);

    // Other 5xx -> Internal
    assert_eq!(Code::from(StatusCode::INTERNAL_SERVER_ERROR), Code::Internal);
    assert_eq!(Code::from(StatusCode::BAD_GATEWAY), Code::Internal);

    // Unknown status codes
    assert_eq!(Code::from(StatusCode::CONTINUE), Code::Unknown);
}

#[test]
fn test_code_display() {
    assert_eq!(Code::Okay.to_string(), "OK");
    assert_eq!(Code::NotFound.to_string(), "NOT_FOUND");
    assert_eq!(Code::InvalidArgument.to_string(), "INVALID_ARGUMENT");
    assert_eq!(Code::PermissionDenied.to_string(), "PERMISSION_DENIED");
    assert_eq!(Code::ResourceExhausted.to_string(), "RESOURCE_EXHAUSTED");
}

#[test]
fn test_code_from_str() {

    assert_eq!(Code::from_str("OK").unwrap(), Code::Okay);
    assert_eq!(Code::from_str("NOT_FOUND").unwrap(), Code::NotFound);
    assert_eq!(Code::from_str("INVALID_ARGUMENT").unwrap(), Code::InvalidArgument);
    assert_eq!(Code::from_str("PERMISSION_DENIED").unwrap(), Code::PermissionDenied);
    assert!(Code::from_str("INVALID").is_err());
}

#[test]
fn code_test_code_as_ref() {
    assert_eq!(Code::Okay.as_ref(), "OK");
    assert_eq!(Code::NotFound.as_ref(), "NOT_FOUND");
    assert_eq!(Code::Internal.as_ref(), "INTERNAL");
}

#[test]
fn test_code_equality_and_hash() {

    assert_eq!(Code::Okay, Code::Okay);
    assert_ne!(Code::Okay, Code::NotFound);

    let mut set = HashSet::new();
    set.insert(Code::Okay);
    set.insert(Code::NotFound);
    set.insert(Code::Okay); // Duplicate
    assert_eq!(set.len(), 2);
}

#[test]
fn test_code_clone_and_copy() {
    let code = Code::NotFound;
    let cloned = code.clone();
    let copied = code;

    assert_eq!(code, cloned);
    assert_eq!(code, copied);
}

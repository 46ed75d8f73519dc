use aip::errors::{Code, ErrorInfo, Status, StatusDetails};
use http::StatusCode;
use std::str::FromStr;

#[test]
fn test_code_http_conversion_roundtrip() {
    let test_cases = [
        (Code::Okay, StatusCode::OK),
        (Code::NotFound, StatusCode::NOT_FOUND),
        (Code::InvalidArgument, StatusCode::BAD_REQUEST),
        (Code::Unauthenticated, StatusCode::UNAUTHORIZED),
        (Code::PermissionDenied, StatusCode::FORBIDDEN),
        (Code::ResourceExhausted, StatusCode::TOO_MANY_REQUESTS),
    ];

    for (grpc_code, expected_http) in test_cases {
        let http_status: StatusCode = grpc_code.into();
        assert_eq!(http_status, expected_http, "Code {:?} should map to HTTP {}", grpc_code, expected_http);
    }
}

#[test]
fn test_complex_error_scenario() {
    // Scenario: Rate limiting error with retry information
    let error_info = ErrorInfo::new("RATE_LIMITED", "api.myservice.com")
        .with_metadata("retry_after_seconds", "60")
        .with_metadata("quota_limit", "1000")
        .with_metadata("quota_used", "1000")
        .with_metadata("quota_reset_at", "2024-01-01T00:00:00Z");

    let status = Status {
        code: 429,
        message: "Rate limit exceeded. Please retry after 60 seconds.".to_string(),
        status: Code::ResourceExhausted,
        details: StatusDetails {
            error_info: Some(error_info),
        },
    };

    // Verify HTTP mapping
    let http_code: StatusCode = Code::ResourceExhausted.into();
    assert_eq!(http_code, StatusCode::TOO_MANY_REQUESTS);

    // Verify metadata
    let info = status.details.error_info.as_ref().unwrap();
    assert_eq!(info.metadata.len(), 4);
    assert_eq!(info.metadata.get("retry_after_seconds"), Some(&"60".to_string()));
}

#[test]
fn test_error_info_builder_complete() {
    let info = ErrorInfo::builder()
        .reason("VALIDATION_ERROR")
        .domain("validation.example.com")
        .metadata("field", "email")
        .metadata("constraint", "format")
        .metadata("value", "not-an-email")
        .build();

    assert_eq!(info.reason, "VALIDATION_ERROR");
    assert_eq!(info.domain, "validation.example.com");
    assert_eq!(info.metadata.len(), 3);
}

#[test]
fn test_builder_vs_direct_construction() {
    let via_builder = ErrorInfo::builder()
        .reason("ERROR")
        .domain("test.com")
        .metadata("key", "value")
        .build();

    let via_new = ErrorInfo::new("ERROR", "test.com")
        .with_metadata("key", "value");

    assert_eq!(via_builder, via_new);
}

#[test]
fn test_all_code_values() {
    let codes = [
        (Code::Okay, 0),
        (Code::Cancelled, 1),
        (Code::Unknown, 2),
        (Code::InvalidArgument, 3),
        (Code::DeadlineExceeded, 4),
        (Code::NotFound, 5),
        (Code::AlreadyExists, 6),
        (Code::PermissionDenied, 7),
        (Code::ResourceExhausted, 8),
        (Code::FailedPrecondition, 9),
        (Code::Aborted, 10),
        (Code::OutOfRange, 11),
        (Code::Unimplemented, 12),
        (Code::Internal, 13),
        (Code::Unavailable, 14),
        (Code::DataLoss, 15),
        (Code::Unauthenticated, 16),
    ];

    for (code, expected_value) in codes {
        assert_eq!(code as i32, expected_value);
        assert_eq!(i32::from(code), expected_value);
    }
}

#[test]
fn test_code_string_representation() {
    assert_eq!(Code::Okay.to_string(), "OK");
    assert_eq!(Code::NotFound.to_string(), "NOT_FOUND");
    assert_eq!(Code::InvalidArgument.to_string(), "INVALID_ARGUMENT");
    assert_eq!(Code::PermissionDenied.to_string(), "PERMISSION_DENIED");
    assert_eq!(Code::ResourceExhausted.to_string(), "RESOURCE_EXHAUSTED");
    assert_eq!(Code::FailedPrecondition.to_string(), "FAILED_PRECONDITION");
    assert_eq!(Code::DeadlineExceeded.to_string(), "DEADLINE_EXCEEDED");
}

#[test]
fn test_code_from_string() {

    assert_eq!(Code::from_str("OK").unwrap(), Code::Okay);
    assert_eq!(Code::from_str("NOT_FOUND").unwrap(), Code::NotFound);
    assert_eq!(Code::from_str("PERMISSION_DENIED").unwrap(), Code::PermissionDenied);

    // Invalid string
    assert!(Code::from_str("INVALID_CODE").is_err());
    assert!(Code::from_str("not_found").is_err()); // Case sensitive
}

#[test]
fn integration_tests_test_code_as_ref() {
    let code = Code::Internal;
    let s: &str = code.as_ref();
    assert_eq!(s, "INTERNAL");
}

#[test]
fn test_reason_validation() {
    // Valid reasons
    let valid_reasons = [
        "API_DISABLED",
        "NOT_FOUND",
        "RATE_LIMITED_429",
        "ERROR123",
        "ABC",
    ];

    for reason in valid_reasons {
        let info = ErrorInfo::new(reason, "test.com");
        assert!(info.is_valid_reason(), "Expected '{}' to be valid", reason);
    }

    // Invalid reasons
    let invalid_reasons = [
        "",           // Empty
        "AB",         // Too short
        "api_error",  // Lowercase
        "API-ERROR",  // Contains hyphen
        "API ERROR",  // Contains space
        "123ERROR",   // Starts with number
        "ERROR_",     // Ends with underscore
    ];

    for reason in invalid_reasons {
        let info = ErrorInfo::new(reason, "test.com");
        assert!(!info.is_valid_reason(), "Expected '{}' to be invalid", reason);
    }
}

#[test]
fn test_reason_max_length() {
    // Exactly 63 chars - should be valid
    let max_len = "A".repeat(63);
    let info = ErrorInfo::new(&max_len, "test.com");
    assert!(info.is_valid_reason());

    // 64 chars - should be invalid
    let too_long = "A".repeat(64);
    let info = ErrorInfo::new(&too_long, "test.com");
    assert!(!info.is_valid_reason());
}

#[test]
fn test_http_to_grpc_mapping() {
    let mappings = [
        // 2xx -> Ok
        (200, Code::Okay),
        (201, Code::Okay),
        (204, Code::Okay),
        // 4xx
        (400, Code::InvalidArgument),
        (401, Code::Unauthenticated),
        (403, Code::PermissionDenied),
        (404, Code::NotFound),
        (409, Code::AlreadyExists),
        (429, Code::ResourceExhausted),
        (499, Code::Cancelled),
        // 5xx
        (500, Code::Internal),
        (501, Code::Unimplemented),
        (503, Code::Unavailable),
        (504, Code::DeadlineExceeded),
    ];

    for (http_code, expected_grpc) in mappings {
        let http_status = StatusCode::from_u16(http_code).unwrap();
        let grpc_code: Code = http_status.into();
        assert_eq!(grpc_code, expected_grpc,
            "HTTP {} should map to {:?}", http_code, expected_grpc);
    }
}

#[test]
fn test_http_fallback_mappings() {
    // Other 4xx -> FailedPrecondition
    let http_410 = StatusCode::GONE;
    let code: Code = http_410.into();
    assert_eq!(code, Code::FailedPrecondition);

    // Other 5xx -> Internal
    let http_502 = StatusCode::BAD_GATEWAY;
    let code: Code = http_502.into();
    assert_eq!(code, Code::Internal);

    // 1xx/3xx -> Unknown
    let http_100 = StatusCode::CONTINUE;
    let code: Code = http_100.into();
    assert_eq!(code, Code::Unknown);
}

use aip::errors::{Code, ErrorInfo, Status, StatusDetails};

#[test]
fn test_status_default() {
    let status = Status {
        code: 200,
        message: String::new(),
        status: Code::Okay,
        details: StatusDetails::default(),
    };
    assert_eq!(status.code, 200);
    assert_eq!(status.status, Code::Okay);
    assert!(status.message.is_empty());
    assert!(status.details.is_empty());
}

#[test]
fn test_status_with_code_and_message() {
    let status = Status {
        code: 404,
        message: "User not found".to_string(),
        status: Code::NotFound,
        details: StatusDetails::default(),
    };

    assert_eq!(status.code, 404);
    assert_eq!(status.status, Code::NotFound);
    assert_eq!(status.message, "User not found");
}

#[test]
fn test_status_with_error_info() {
    let error_info =
        ErrorInfo::new("USER_NOT_FOUND", "myapp.example.com").with_metadata("user_id", "123");

    let status = Status {
        code: 404,
        message: "User not found".to_string(),
        status: Code::NotFound,
        details: StatusDetails {
            error_info: Some(error_info),
        },
    };

    assert!(!status.details.is_empty());
    let info = status.details.error_info.as_ref().unwrap();
    assert_eq!(info.reason, "USER_NOT_FOUND");
    assert_eq!(info.domain, "myapp.example.com");
    assert_eq!(info.metadata.get("user_id"), Some(&"123".to_string()));
}

#[test]
fn test_status_clone() {
    let status = Status {
        code: 400,
        message: "Invalid argument".to_string(),
        status: Code::InvalidArgument,
        details: StatusDetails {
            error_info: Some(ErrorInfo::new("INVALID_EMAIL", "auth.example.com")),
        },
    };

    let cloned = status.clone();
    assert_eq!(status, cloned);
}

#[test]
fn test_status_equality() {
    let status1 = Status {
        code: 404,
        message: "Not found".to_string(),
        status: Code::NotFound,
        details: StatusDetails::default(),
    };

    let status2 = Status {
        code: 404,
        message: "Not found".to_string(),
        status: Code::NotFound,
        details: StatusDetails::default(),
    };

    let status3 = Status {
        code: 400,
        message: "Not found".to_string(),
        status: Code::InvalidArgument,
        details: StatusDetails::default(),
    };

    assert_eq!(status1, status2);
    assert_ne!(status1, status3);
}

#[test]
fn test_status_details_default() {
    let details = StatusDetails::default();
    assert!(details.error_info.is_none());
    assert!(details.is_empty());
}

#[test]
fn test_status_details_with_error_info() {
    let details = StatusDetails {
        error_info: Some(ErrorInfo::new("ERROR", "test.com")),
    };

    assert!(!details.is_empty());
    assert!(details.error_info.is_some());
}

#[test]
fn test_status_details_is_empty() {
    let empty = StatusDetails::default();
    assert!(empty.is_empty());

    let not_empty = StatusDetails {
        error_info: Some(ErrorInfo::default()),
    };
    assert!(!not_empty.is_empty());
}

#[test]
fn test_status_details_clone() {
    let details = StatusDetails {
        error_info: Some(ErrorInfo::new("ERROR", "test.com")),
    };

    let cloned = details.clone();
    assert_eq!(details, cloned);
}

#[test]
fn test_status_details_equality() {
    let details1 = StatusDetails {
        error_info: Some(ErrorInfo::new("ERROR", "test.com")),
    };
    let details2 = StatusDetails {
        error_info: Some(ErrorInfo::new("ERROR", "test.com")),
    };
    let details3 = StatusDetails {
        error_info: Some(ErrorInfo::new("OTHER", "test.com")),
    };

    assert_eq!(details1, details2);
    assert_ne!(details1, details3);
}

#[test]
fn test_status_common_codes() {
    // Test common gRPC status codes
    let codes = [
        (Code::Okay, "OK", 200),
        (Code::Cancelled, "CANCELLED", 499),
        (Code::Unknown, "UNKNOWN", 500),
        (Code::InvalidArgument, "INVALID_ARGUMENT", 400),
        (Code::DeadlineExceeded, "DEADLINE_EXCEEDED", 504),
        (Code::NotFound, "NOT_FOUND", 404),
        (Code::AlreadyExists, "ALREADY_EXISTS", 409),
        (Code::PermissionDenied, "PERMISSION_DENIED", 403),
        (Code::ResourceExhausted, "RESOURCE_EXHAUSTED", 429),
        (Code::FailedPrecondition, "FAILED_PRECONDITION", 400),
        (Code::Aborted, "ABORTED", 409),
        (Code::OutOfRange, "OUT_OF_RANGE", 400),
        (Code::Unimplemented, "UNIMPLEMENTED", 501),
        (Code::Internal, "INTERNAL", 500),
        (Code::Unavailable, "UNAVAILABLE", 503),
        (Code::DataLoss, "DATA_LOSS", 500),
        (Code::Unauthenticated, "UNAUTHENTICATED", 401),
    ];

    for (status_code, name, http_code) in codes {
        let status = Status {
            code: http_code,
            message: format!("Testing {}", name),
            status: status_code,
            details: StatusDetails::default(),
        };
        assert_eq!(status.code, http_code);
        assert_eq!(status.status, status_code);
    }
}

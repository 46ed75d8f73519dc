use vstd::prelude::*;

use crate::text::same_text;

verus! {

/// The canonical error codes for gRPC APIs.
///
/// The variants are declared in the order of their numeric values, so that
/// `code as i32` gives the canonical number (`Ok` is 0, `Unauthenticated` is 16).
#[derive(Clone, Copy, Debug, PartialEq, Eq, Structural, Hash)]
pub enum Code {
    /// Not an error; returned on success. HTTP Mapping: 200 OK
    Okay,
    /// The operation was cancelled, typically by the caller. HTTP Mapping: 499
    Cancelled,
    /// Unknown error. HTTP Mapping: 500 Internal Server Error
    Unknown,
    /// The client specified an invalid argument. HTTP Mapping: 400 Bad Request
    InvalidArgument,
    /// The deadline expired before the operation could complete. HTTP Mapping: 504
    DeadlineExceeded,
    /// Some requested entity was not found. HTTP Mapping: 404 Not Found
    NotFound,
    /// The entity already exists. HTTP Mapping: 409 Conflict
    AlreadyExists,
    /// The caller does not have permission. HTTP Mapping: 403 Forbidden
    PermissionDenied,
    /// Some resource has been exhausted. HTTP Mapping: 429 Too Many Requests
    ResourceExhausted,
    /// The system is not in a required state. HTTP Mapping: 400 Bad Request
    FailedPrecondition,
    /// The operation was aborted. HTTP Mapping: 409 Conflict
    Aborted,
    /// The operation was attempted past the valid range. HTTP Mapping: 400 Bad Request
    OutOfRange,
    /// The operation is not implemented. HTTP Mapping: 501 Not Implemented
    Unimplemented,
    /// Internal errors. HTTP Mapping: 500 Internal Server Error
    Internal,
    /// The service is currently unavailable. HTTP Mapping: 503 Service Unavailable
    Unavailable,
    /// Unrecoverable data loss or corruption. HTTP Mapping: 500 Internal Server Error
    DataLoss,
    /// The request does not have valid authentication credentials. HTTP Mapping: 401
    Unauthenticated,
}

/// The canonical numeric value of a code.
pub open spec fn code_number(c: Code) -> i32 {
    match c {
        Code::Okay => 0,
        Code::Cancelled => 1,
        Code::Unknown => 2,
        Code::InvalidArgument => 3,
        Code::DeadlineExceeded => 4,
        Code::NotFound => 5,
        Code::AlreadyExists => 6,
        Code::PermissionDenied => 7,
        Code::ResourceExhausted => 8,
        Code::FailedPrecondition => 9,
        Code::Aborted => 10,
        Code::OutOfRange => 11,
        Code::Unimplemented => 12,
        Code::Internal => 13,
        Code::Unavailable => 14,
        Code::DataLoss => 15,
        Code::Unauthenticated => 16,
    }
}

/// The SCREAMING_SNAKE_CASE name of a code, as written, shown and parsed.
pub open spec fn code_name(c: Code) -> Seq<char> {
    match c {
        Code::Okay => "OK"@,
        Code::Cancelled => "CANCELLED"@,
        Code::Unknown => "UNKNOWN"@,
        Code::InvalidArgument => "INVALID_ARGUMENT"@,
        Code::DeadlineExceeded => "DEADLINE_EXCEEDED"@,
        Code::NotFound => "NOT_FOUND"@,
        Code::AlreadyExists => "ALREADY_EXISTS"@,
        Code::PermissionDenied => "PERMISSION_DENIED"@,
        Code::ResourceExhausted => "RESOURCE_EXHAUSTED"@,
        Code::FailedPrecondition => "FAILED_PRECONDITION"@,
        Code::Aborted => "ABORTED"@,
        Code::OutOfRange => "OUT_OF_RANGE"@,
        Code::Unimplemented => "UNIMPLEMENTED"@,
        Code::Internal => "INTERNAL"@,
        Code::Unavailable => "UNAVAILABLE"@,
        Code::DataLoss => "DATA_LOSS"@,
        Code::Unauthenticated => "UNAUTHENTICATED"@,
    }
}

impl Code {
    /// The canonical numeric value of this code.
    pub fn value(self) -> (n: i32)
        ensures
            n == code_number(self),
    {
        match self {
            Code::Okay => 0,
            Code::Cancelled => 1,
            Code::Unknown => 2,
            Code::InvalidArgument => 3,
            Code::DeadlineExceeded => 4,
            Code::NotFound => 5,
            Code::AlreadyExists => 6,
            Code::PermissionDenied => 7,
            Code::ResourceExhausted => 8,
            Code::FailedPrecondition => 9,
            Code::Aborted => 10,
            Code::OutOfRange => 11,
            Code::Unimplemented => 12,
            Code::Internal => 13,
            Code::Unavailable => 14,
            Code::DataLoss => 15,
            Code::Unauthenticated => 16,
        }
    }
}

/// The HTTP status code that a code maps to.
pub open spec fn code_http_status(c: Code) -> u16 {
    match c {
        Code::Okay => 200,
        Code::Cancelled => 499,
        Code::Unknown => 500,
        Code::InvalidArgument => 400,
        Code::DeadlineExceeded => 504,
        Code::NotFound => 404,
        Code::AlreadyExists => 409,
        Code::PermissionDenied => 403,
        Code::ResourceExhausted => 429,
        Code::FailedPrecondition => 400,
        Code::Aborted => 409,
        Code::OutOfRange => 400,
        Code::Unimplemented => 501,
        Code::Internal => 500,
        Code::Unavailable => 503,
        Code::DataLoss => 500,
        Code::Unauthenticated => 401,
    }
}

/// The code that an HTTP status code maps to: every 2xx is `Okay`, the
/// 4xx and 5xx codes with a canonical counterpart map to it, the other 4xx
/// to `FailedPrecondition`, the other 5xx to `Internal`, anything else to
/// `Unknown`.
pub open spec fn code_of_http_status(n: u16) -> Code {
    if 200 <= n <= 299 {
        Code::Okay
    } else if n == 400 {
        Code::InvalidArgument
    } else if n == 401 {
        Code::Unauthenticated
    } else if n == 403 {
        Code::PermissionDenied
    } else if n == 404 {
        Code::NotFound
    } else if n == 409 {
        Code::AlreadyExists
    } else if n == 429 {
        Code::ResourceExhausted
    } else if n == 499 {
        Code::Cancelled
    } else if n == 501 {
        Code::Unimplemented
    } else if n == 503 {
        Code::Unavailable
    } else if n == 504 {
        Code::DeadlineExceeded
    } else if 400 <= n <= 499 {
        Code::FailedPrecondition
    } else if 500 <= n <= 599 {
        Code::Internal
    } else {
        Code::Unknown
    }
}

/// The error returned when a string names no code.
#[derive(Debug, Clone, Copy, PartialEq, Eq, Structural)]
pub struct UnknownCode;

impl Code {
    /// The name of this code, in SCREAMING_SNAKE_CASE.
    pub fn as_str(&self) -> (s: &'static str)
        ensures
            s@ == code_name(*self),
    {
        match self {
            Code::Okay => {
                proof { reveal_strlit("OK"); }
                "OK"
            }
            Code::Cancelled => {
                proof { reveal_strlit("CANCELLED"); }
                "CANCELLED"
            }
            Code::Unknown => {
                proof { reveal_strlit("UNKNOWN"); }
                "UNKNOWN"
            }
            Code::InvalidArgument => {
                proof { reveal_strlit("INVALID_ARGUMENT"); }
                "INVALID_ARGUMENT"
            }
            Code::DeadlineExceeded => {
                proof { reveal_strlit("DEADLINE_EXCEEDED"); }
                "DEADLINE_EXCEEDED"
            }
            Code::NotFound => {
                proof { reveal_strlit("NOT_FOUND"); }
                "NOT_FOUND"
            }
            Code::AlreadyExists => {
                proof { reveal_strlit("ALREADY_EXISTS"); }
                "ALREADY_EXISTS"
            }
            Code::PermissionDenied => {
                proof { reveal_strlit("PERMISSION_DENIED"); }
                "PERMISSION_DENIED"
            }
            Code::ResourceExhausted => {
                proof { reveal_strlit("RESOURCE_EXHAUSTED"); }
                "RESOURCE_EXHAUSTED"
            }
            Code::FailedPrecondition => {
                proof { reveal_strlit("FAILED_PRECONDITION"); }
                "FAILED_PRECONDITION"
            }
            Code::Aborted => {
                proof { reveal_strlit("ABORTED"); }
                "ABORTED"
            }
            Code::OutOfRange => {
                proof { reveal_strlit("OUT_OF_RANGE"); }
                "OUT_OF_RANGE"
            }
            Code::Unimplemented => {
                proof { reveal_strlit("UNIMPLEMENTED"); }
                "UNIMPLEMENTED"
            }
            Code::Internal => {
                proof { reveal_strlit("INTERNAL"); }
                "INTERNAL"
            }
            Code::Unavailable => {
                proof { reveal_strlit("UNAVAILABLE"); }
                "UNAVAILABLE"
            }
            Code::DataLoss => {
                proof { reveal_strlit("DATA_LOSS"); }
                "DATA_LOSS"
            }
            Code::Unauthenticated => {
                proof { reveal_strlit("UNAUTHENTICATED"); }
                "UNAUTHENTICATED"
            }
        }
    }

    /// The name of this code as an owned string (`"NOT_FOUND"` for `NotFound`).
    pub fn to_string(&self) -> (s: String)
        ensures
            s@ == code_name(*self),
    {
        self.as_str().to_owned()
    }

    /// The code whose name is `name`; names are matched exactly, case included.
    pub fn from_name(name: &str) -> (r: Option<Code>)
        ensures
            match r {
                Some(c) => code_name(c) == name@,
                None => forall|c: Code| code_name(c) != name@,
            },
    {
        let all = Code::all();
        let mut i: usize = 0;
        while i < all.len()
            invariant
                0 <= i <= all.len(),
                all@.len() == 17,
                forall|c: Code| #[trigger] all@.contains(c),
                forall|j: int| 0 <= j < i ==> code_name(#[trigger] all@[j]) != name@,
            decreases all.len() - i,
        {
            let c = all[i];
            if same_text(c.as_str(), name) {
                return Some(c);
            }
            i = i + 1;
        }
        proof {
            assert forall|c: Code| code_name(c) != name@ by {
                assert(all@.contains(c));
                let j = choose|j: int| 0 <= j < all@.len() && all@[j] == c;
                assert(code_name(all@[j]) != name@);
            }
        }
        None
    }

    /// Every code, in the order of their numeric values.
    pub fn all() -> (v: Vec<Code>)
        ensures
            v@.len() == 17,
            forall|c: Code| #[trigger] v@.contains(c),
            forall|i: int| 0 <= i < 17 ==> code_number(#[trigger] v@[i]) == i,
    {
        let v = vec![
            Code::Okay,
            Code::Cancelled,
            Code::Unknown,
            Code::InvalidArgument,
            Code::DeadlineExceeded,
            Code::NotFound,
            Code::AlreadyExists,
            Code::PermissionDenied,
            Code::ResourceExhausted,
            Code::FailedPrecondition,
            Code::Aborted,
            Code::OutOfRange,
            Code::Unimplemented,
            Code::Internal,
            Code::Unavailable,
            Code::DataLoss,
            Code::Unauthenticated,
        ];
        proof {
            assert forall|c: Code| #[trigger] v@.contains(c) by {
                assert(v@[code_number(c) as int] == c);
            }
        }
        v
    }

    /// The HTTP status code that this code maps to.
    pub fn http_status(self) -> (n: u16)
        ensures
            n == code_http_status(self),
    {
        match self {
            Code::Okay => 200,
            Code::Cancelled => 499,
            Code::Unknown => 500,
            Code::InvalidArgument => 400,
            Code::DeadlineExceeded => 504,
            Code::NotFound => 404,
            Code::AlreadyExists => 409,
            Code::PermissionDenied => 403,
            Code::ResourceExhausted => 429,
            Code::FailedPrecondition => 400,
            Code::Aborted => 409,
            Code::OutOfRange => 400,
            Code::Unimplemented => 501,
            Code::Internal => 500,
            Code::Unavailable => 503,
            Code::DataLoss => 500,
            Code::Unauthenticated => 401,
        }
    }

    /// The code that the HTTP status code `n` maps to.
    pub fn from_http_status(n: u16) -> (c: Code)
        ensures
            c == code_of_http_status(n),
    {
        if 200 <= n && n <= 299 {
            Code::Okay
        } else if n == 400 {
            Code::InvalidArgument
        } else if n == 401 {
            Code::Unauthenticated
        } else if n == 403 {
            Code::PermissionDenied
        } else if n == 404 {
            Code::NotFound
        } else if n == 409 {
            Code::AlreadyExists
        } else if n == 429 {
            Code::ResourceExhausted
        } else if n == 499 {
            Code::Cancelled
        } else if n == 501 {
            Code::Unimplemented
        } else if n == 503 {
            Code::Unavailable
        } else if n == 504 {
            Code::DeadlineExceeded
        } else if 400 <= n && n <= 499 {
            Code::FailedPrecondition
        } else if 500 <= n && n <= 599 {
            Code::Internal
        } else {
            Code::Unknown
        }
    }
}

impl core::str::FromStr for Code {
    type Err = UnknownCode;

    fn from_str(s: &str) -> (r: Result<Code, UnknownCode>)
        ensures
            match r {
                Ok(c) => code_name(c) == s@,
                Err(_) => forall|c: Code| code_name(c) != s@,
            },
    {
        match Code::from_name(s) {
            Some(c) => Ok(c),
            None => Err(UnknownCode),
        }
    }
}

impl AsRef<str> for Code {
    fn as_ref(&self) -> (s: &str)
        ensures
            s@ == code_name(*self),
    {
        self.as_str()
    }
}

impl From<Code> for i32 {
    fn from(code: Code) -> (n: i32) {
        code.value()
    }
}

impl vstd::std_specs::convert::FromSpecImpl<Code> for i32 {
    open spec fn obeys_from_spec() -> bool {
        true
    }

    open spec fn from_spec(code: Code) -> i32 {
        code_number(code)
    }
}

/// Names identify codes: two codes with the same name are the same code,
/// so parsing the name of a code gives that code back.
pub proof fn lemma_code_name_identifies(a: Code, b: Code)
    requires
        code_name(a) == code_name(b),
    ensures
        a == b,
{
    reveal_strlit("OK");
    reveal_strlit("CANCELLED");
    reveal_strlit("UNKNOWN");
    reveal_strlit("INVALID_ARGUMENT");
    reveal_strlit("DEADLINE_EXCEEDED");
    reveal_strlit("NOT_FOUND");
    reveal_strlit("ALREADY_EXISTS");
    reveal_strlit("PERMISSION_DENIED");
    reveal_strlit("RESOURCE_EXHAUSTED");
    reveal_strlit("FAILED_PRECONDITION");
    reveal_strlit("ABORTED");
    reveal_strlit("OUT_OF_RANGE");
    reveal_strlit("UNIMPLEMENTED");
    reveal_strlit("INTERNAL");
    reveal_strlit("UNAVAILABLE");
    reveal_strlit("DATA_LOSS");
    reveal_strlit("UNAUTHENTICATED");
    if a != b {
        let na = code_name(a);
        let nb = code_name(b);
        if na.len() == nb.len() {
            assert(exists|i: int| 0 <= i < na.len() && na[i] != nb[i]) by {
                if na.len() == 7 {
                    assert(na[0] != nb[0]);
                } else if na.len() == 9 {
                    assert(na[0] != nb[0] || na[1] != nb[1]);
                } else if na.len() == 8 {
                    assert(na[0] != nb[0]);
                } else if na.len() == 17 {
                    assert(na[0] != nb[0]);
                } else if na.len() == 11 {
                    assert(na[0] != nb[0]);
                } else {
                    assert(na[0] != nb[0]);
                }
            }
        }
    }
}

/// Numeric values identify codes and lie between 0 and 16.
pub proof fn lemma_code_number_identifies(a: Code, b: Code)
    ensures
        0 <= code_number(a) <= 16,
        code_number(a) == code_number(b) ==> a == b,
{
}

/// Codes with a distinct HTTP mapping come back unchanged from the HTTP
/// status code they map to; the others (`FailedPrecondition`, `Aborted`,
/// `OutOfRange`, `Unknown`, `DataLoss`) share their HTTP status code with
/// another code. Every code maps to a status code between 100 and 999.
pub proof fn lemma_http_status_round_trip(c: Code)
    ensures
        100 <= code_http_status(c) <= 999,
        !(c is FailedPrecondition || c is Aborted || c is OutOfRange || c is Unknown
            || c is DataLoss) ==> code_of_http_status(code_http_status(c)) == c,
{
}

} // verus!

use vstd::prelude::*;

use super::code::{code_http_status, code_of_http_status, lemma_http_status_round_trip, Code};
use http::status::InvalidStatusCode;
use http::StatusCode;

verus! {

/// `http::StatusCode`, held opaque: what it carries is read through
/// [`status_code_number`].
#[verifier::external_type_specification]
#[verifier::external_body]
pub struct ExStatusCode(StatusCode);

/// `http::status::InvalidStatusCode`, the error of `StatusCode::from_u16`.
#[verifier::external_type_specification]
#[verifier::external_body]
pub struct ExInvalidStatusCode(InvalidStatusCode);

/// The number that `StatusCode::as_u16` gives back for a status code.
pub uninterp spec fn status_code_number(status: StatusCode) -> u16;

/// Calls `http::StatusCode::from_u16`. Its source accepts exactly the numbers
/// from 100 to 999 and stores the number unchanged, so `as_u16` on the
/// result gives `n` back.
#[verifier::external_body]
fn status_code_from_u16(n: u16) -> (r: Result<StatusCode, InvalidStatusCode>)
    ensures
        r.is_ok() <==> 100 <= n <= 999,
        r matches Ok(s) ==> status_code_number(s) == n,
{
    StatusCode::from_u16(n)
}

/// Calls `http::StatusCode::as_u16`, which returns the stored number.
#[verifier::external_body]
fn status_code_as_u16(status: &StatusCode) -> (n: u16)
    ensures
        n == status_code_number(*status),
{
    status.as_u16()
}

impl Code {
    /// The HTTP status code that this code maps to, as an `http::StatusCode`.
    pub fn to_status_code(self) -> (s: StatusCode)
        ensures
            status_code_number(s) == code_http_status(self),
    {
        proof {
            lemma_http_status_round_trip(self);
        }
        match status_code_from_u16(self.http_status()) {
            Ok(s) => s,
            Err(_) => {
                proof {
                    assert(false);
                }
                status_code_from_u16(500).unwrap()
            },
        }
    }

    /// The code that an `http::StatusCode` maps to.
    pub fn from_status_code(status: &StatusCode) -> (c: Code)
        ensures
            c == code_of_http_status(status_code_number(*status)),
    {
        Code::from_http_status(status_code_as_u16(status))
    }
}

impl From<Code> for StatusCode {
    /// The HTTP status code that `code` maps to; see [`Code::to_status_code`].
    fn from(code: Code) -> (s: StatusCode)
        ensures
            status_code_number(s) == code_http_status(code),
    {
        code.to_status_code()
    }
}

impl vstd::std_specs::convert::FromSpecImpl<Code> for StatusCode {
    open spec fn obeys_from_spec() -> bool {
        false
    }

    open spec fn from_spec(code: Code) -> StatusCode {
        arbitrary()
    }
}

impl From<StatusCode> for Code {
    fn from(status: StatusCode) -> (c: Code) {
        Code::from_status_code(&status)
    }
}

impl vstd::std_specs::convert::FromSpecImpl<StatusCode> for Code {
    open spec fn obeys_from_spec() -> bool {
        true
    }

    open spec fn from_spec(status: StatusCode) -> Code {
        code_of_http_status(status_code_number(status))
    }
}

} // verus!

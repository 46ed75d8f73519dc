use vstd::prelude::*;

use super::code::{code_number, Code};
use super::error_details::ErrorInfo;
use super::metadata::Metadata;

verus! {

/// The logical error model of AIP-193.
#[derive(Debug, Clone, PartialEq, Eq)]
pub struct Status {
    /// The numeric code of the status.
    pub code: i32,
    /// A developer-facing error message in English.
    pub message: String,
    /// The status code (google.rpc.Code enum value).
    pub status: Code,
    /// The error details.
    pub details: StatusDetails,
}

/// The error details carried by a [`Status`].
#[derive(Debug, Clone, PartialEq, Eq)]
pub struct StatusDetails {
    /// The structured cause of the error, if any.
    pub error_info: Option<ErrorInfo>,
}

impl StatusDetails {
    /// Tells whether there are no details.
    pub fn is_empty(&self) -> (r: bool)
        ensures
            r == self.error_info.is_none(),
    {
        self.error_info.is_none()
    }
}

impl Default for StatusDetails {
    fn default() -> (d: StatusDetails)
        ensures
            d.error_info.is_none(),
    {
        StatusDetails { error_info: None }
    }
}

impl Status {
    /// The status for an error with the given code, message, reason, domain
    /// and metadata: its numeric code is the code's canonical value, and its
    /// details always carry an error info.
    pub fn from_parts(
        code: Code,
        message: String,
        reason: &str,
        domain: &str,
        metadata: Metadata,
    ) -> (s: Status)
        ensures
            s.code == code_number(code),
            s.status == code,
            s.message == message,
            s.details.error_info matches Some(info) && info.reason@ == reason@ && info.domain@
                == domain@ && info.metadata == metadata,
    {
        Status {
            code: code.value(),
            message,
            status: code,
            details: StatusDetails {
                error_info: Some(
                    ErrorInfo { reason: reason.to_owned(), domain: domain.to_owned(), metadata },
                ),
            },
        }
    }
}

} // verus!

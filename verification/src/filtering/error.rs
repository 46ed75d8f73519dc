//! Errors of filter parsing and conversion.

use vstd::prelude::*;


verus! {

/// What went wrong while parsing or converting a filter.
#[derive(Debug, Clone, PartialEq, Eq)]
pub enum FilterError {
    ParseError(String),
    ConversionError(String),
    InvalidField(String),
    UnsupportedOperation(String),
}

/// How an error is shown: a prefix naming its kind, then its message.
pub open spec fn filter_error_text(e: FilterError) -> Seq<char> {
    match e {
        FilterError::ParseError(m) => "Parse error: "@ + m@,
        FilterError::ConversionError(m) => "Conversion error: "@ + m@,
        FilterError::InvalidField(m) => "Invalid field: "@ + m@,
        FilterError::UnsupportedOperation(m) => "Unsupported operation: "@ + m@,
    }
}

impl FilterError {
    /// How this error is shown, such as `Parse error: ...`.
    pub fn to_string(&self) -> (s: String)
        ensures
            s@ == filter_error_text(*self),
    {
        let (prefix, m) = match self {
            FilterError::ParseError(m) => ("Parse error: ", m),
            FilterError::ConversionError(m) => ("Conversion error: ", m),
            FilterError::InvalidField(m) => ("Invalid field: ", m),
            FilterError::UnsupportedOperation(m) => ("Unsupported operation: ", m),
        };
        let mut s = prefix.to_owned();
        s.append(m.as_str());
        s
    }
}

} // verus!

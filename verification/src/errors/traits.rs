use vstd::prelude::*;

use super::code::{code_number, Code};
use super::metadata::Metadata;
use super::status::Status;

verus! {

/// Turns an application's error type into a [`Status`].
pub trait IntoStatus {
    /// The error code.
    fn code(&self) -> Code;

    /// A human-readable error message.
    fn message(&self) -> String;

    /// The error reason, in UPPER_SNAKE_CASE.
    fn reason(&self) -> &str;

    /// The error domain, such as "myapp.example.com".
    fn domain(&self) -> &str;

    /// Additional metadata; none unless the implementation says otherwise.
    fn metadata(&self) -> (m: Metadata)
        default_ensures
            m@ == Map::<Seq<char>, Seq<char>>::empty(),
    {
        Metadata::new()
    }
}

/// `s` is the status for `err`: its status code, message, reason, domain
/// and metadata are what the methods of `err` answer, and its numeric code
/// is the canonical value of its status code.
pub open spec fn status_of<T: IntoStatus>(err: &T, s: Status) -> bool {
    &&& call_ensures(T::code, (err,), s.status)
    &&& s.code == code_number(s.status)
    &&& call_ensures(T::message, (err,), s.message)
    &&& s.details.error_info matches Some(info) && (exists|reason: &str|
        #[trigger] call_ensures(T::reason, (err,), reason) && info.reason@ == reason@) && (exists|
        domain: &str,
    | #[trigger] call_ensures(T::domain, (err,), domain) && info.domain@ == domain@) && call_ensures(
        T::metadata,
        (err,),
        info.metadata,
    )
}

impl Status {
    /// The status for an error: its code, message, reason, domain and
    /// metadata are those the error reports, passed to
    /// [`Status::from_parts`], so the numeric code is the canonical value
    /// of the status code and the details always carry an error info.
    pub fn from_error<T: IntoStatus>(err: &T) -> (s: Status)
        ensures
            status_of(err, s),
    {
        let code = err.code();
        let message = err.message();
        let reason = err.reason();
        let domain = err.domain();
        let metadata = err.metadata();
        let ghost (m0, md0) = (message, metadata);
        let s = Status::from_parts(code, message, reason, domain, metadata);
        proof {
            assert(call_ensures(T::reason, (err,), reason));
            assert(call_ensures(T::domain, (err,), domain));
            assert(call_ensures(T::message, (err,), m0));
            assert(call_ensures(T::metadata, (err,), md0));
        }
        s
    }
}

impl<T: IntoStatus> From<T> for Status {
    /// The status for `err`; see [`Status::from_error`].
    fn from(err: T) -> (s: Status)
        ensures
            status_of(&err, s),
    {
        Status::from_error(&err)
    }
}

impl<T: IntoStatus> vstd::std_specs::convert::FromSpecImpl<T> for Status {
    open spec fn obeys_from_spec() -> bool {
        false
    }

    open spec fn from_spec(err: T) -> Status {
        arbitrary()
    }
}

} // verus!

use vstd::prelude::*;

use super::metadata::Metadata;
use crate::text::{chars_of, IntoText};

verus! {

/// An ASCII capital letter.
pub open spec fn is_upper(c: char) -> bool {
    'A' <= c <= 'Z'
}

/// An ASCII decimal digit.
pub open spec fn is_digit(c: char) -> bool {
    '0' <= c <= '9'
}

/// A reason in UPPER_SNAKE_CASE: at most 63 characters matching
/// `[A-Z][A-Z0-9_]+[A-Z0-9]`.
pub open spec fn valid_reason(s: Seq<char>) -> bool {
    &&& 3 <= s.len() <= 63
    &&& is_upper(s[0])
    &&& forall|i: int| 1 <= i < s.len() - 1 ==> is_upper(#[trigger] s[i]) || is_digit(s[i]) || s[i] == '_'
    &&& is_upper(s.last()) || is_digit(s.last())
}

/// Describes the cause of the error with structured details.
#[derive(Debug, Clone, PartialEq, Eq)]
pub struct ErrorInfo {
    /// The reason of the error (UPPER_SNAKE_CASE), such as "API_DISABLED".
    pub reason: String,
    /// The logical grouping to which the reason belongs, such as "googleapis.com".
    pub domain: String,
    /// Additional structured details about this error.
    pub metadata: Metadata,
}

impl ErrorInfo {
    /// An error info with the given reason and domain and no metadata.
    pub fn new<R: IntoText, D: IntoText>(reason: R, domain: D) -> (info: ErrorInfo)
        ensures
            info.reason@ == reason.text(),
            info.domain@ == domain.text(),
            info.metadata@ == Map::<Seq<char>, Seq<char>>::empty(),
    {
        ErrorInfo { reason: reason.into_text(), domain: domain.into_text(), metadata: Metadata::new() }
    }

    /// A builder with everything empty.
    pub fn builder() -> (b: ErrorInfoBuilder)
        ensures
            b@ == (Seq::<char>::empty(), Seq::<char>::empty(), Map::<Seq<char>, Seq<char>>::empty()),
    {
        ErrorInfoBuilder::default()
    }

    /// This error info with `key` set to `value` in its metadata.
    pub fn with_metadata<K: IntoText, V: IntoText>(self, key: K, value: V) -> (info: ErrorInfo)
        ensures
            info.reason == self.reason,
            info.domain == self.domain,
            info.metadata@ == self.metadata@.insert(key.text(), value.text()),
    {
        let mut info = self;
        info.metadata.insert(key.into_text(), value.into_text());
        info
    }

    /// Tells whether the reason follows the UPPER_SNAKE_CASE pattern
    /// `[A-Z][A-Z0-9_]+[A-Z0-9]` and is at most 63 characters long.
    pub fn is_valid_reason(&self) -> (r: bool)
        ensures
            r == valid_reason(self.reason@),
    {
        let chars = chars_of(self.reason.as_str());
        let n = chars.len();
        if n < 3 || n > 63 {
            return false;
        }
        if !('A' <= chars[0] && chars[0] <= 'Z') {
            return false;
        }
        let mut i: usize = 1;
        while i < n - 1
            invariant
                3 <= n <= 63,
                n == chars@.len(),
                chars@ == self.reason@,
                1 <= i <= n - 1,
                forall|j: int| 1 <= j < i ==> is_upper(#[trigger] chars@[j]) || is_digit(chars@[j]) || chars@[j] == '_',
            decreases n - 1 - i,
        {
            let c = chars[i];
            if !(('A' <= c && c <= 'Z') || ('0' <= c && c <= '9') || c == '_') {
                return false;
            }
            i = i + 1;
        }
        let last = chars[n - 1];
        ('A' <= last && last <= 'Z') || ('0' <= last && last <= '9')
    }
}

impl Default for ErrorInfo {
    fn default() -> (info: ErrorInfo)
        ensures
            info.reason@ == Seq::<char>::empty(),
            info.domain@ == Seq::<char>::empty(),
            info.metadata@ == Map::<Seq<char>, Seq<char>>::empty(),
    {
        ErrorInfo { reason: String::new(), domain: String::new(), metadata: Metadata::new() }
    }
}

/// Builds an [`ErrorInfo`] step by step.
#[derive(Debug)]
pub struct ErrorInfoBuilder {
    reason: String,
    domain: String,
    metadata: Metadata,
}

impl View for ErrorInfoBuilder {
    /// The reason, the domain and the metadata set so far.
    type V = (Seq<char>, Seq<char>, Map<Seq<char>, Seq<char>>);

    closed spec fn view(&self) -> Self::V {
        (self.reason@, self.domain@, self.metadata@)
    }
}

impl Default for ErrorInfoBuilder {
    fn default() -> (b: ErrorInfoBuilder)
        ensures
            b@ == (Seq::<char>::empty(), Seq::<char>::empty(), Map::<Seq<char>, Seq<char>>::empty()),
    {
        ErrorInfoBuilder { reason: String::new(), domain: String::new(), metadata: Metadata::new() }
    }
}

impl ErrorInfoBuilder {
    /// Sets the reason, replacing any earlier one.
    pub fn reason<R: IntoText>(self, reason: R) -> (b: ErrorInfoBuilder)
        ensures
            b@ == (reason.text(), self@.1, self@.2),
    {
        let mut b = self;
        b.reason = reason.into_text();
        b
    }

    /// Sets the domain, replacing any earlier one.
    pub fn domain<D: IntoText>(self, domain: D) -> (b: ErrorInfoBuilder)
        ensures
            b@ == (self@.0, domain.text(), self@.2),
    {
        let mut b = self;
        b.domain = domain.into_text();
        b
    }

    /// Sets `key` to `value` in the metadata.
    pub fn metadata<K: IntoText, V: IntoText>(self, key: K, value: V) -> (b: ErrorInfoBuilder)
        ensures
            b@ == (self@.0, self@.1, self@.2.insert(key.text(), value.text())),
    {
        let mut b = self;
        b.metadata.insert(key.into_text(), value.into_text());
        b
    }

    /// The error info built so far.
    pub fn build(self) -> (info: ErrorInfo)
        ensures
            info.reason@ == self@.0,
            info.domain@ == self@.1,
            info.metadata@ == self@.2,
    {
        ErrorInfo { reason: self.reason, domain: self.domain, metadata: self.metadata }
    }
}

} // verus!

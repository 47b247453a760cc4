//! The errors that the library's operations can return.

use vstd::prelude::*;
use vstd::string::StringExecFns;

use crate::decimal::decimal_of;
use crate::decimal::u64_to_decimal;

verus! {

/// Why an operation failed.  Every failure renders as a descriptive
/// message; none of them is retried by the library.
#[derive(Clone, Debug)]
pub enum MattingError {
    /// A file could not be opened, read or written; carries the
    /// operating system's error text.
    IoError(String),
    /// The source path has no file-extension component.
    InvalidPath,
    /// The background-removal service answered with an authorization
    /// failure; carries the HTTP status code (403).
    Forbidden(u16),
    /// Any other transport or HTTP failure; carries a description.
    NetworkError(String),
}

impl MattingError {
    /// The descriptive text of this error.
    pub open spec fn spec_message(self) -> Seq<char> {
        match self {
            MattingError::IoError(t) => "I/O error: "@ + t@,
            MattingError::InvalidPath => "invalid path: the file has no extension"@,
            MattingError::Forbidden(c) => "forbidden: HTTP status "@ + decimal_of(c as nat),
            MattingError::NetworkError(t) => "network error: "@ + t@,
        }
    }

    /// Renders the descriptive text of this error.
    pub fn message(&self) -> (r: String)
        ensures
            r@ == self.spec_message(),
    {
        match self {
            MattingError::IoError(t) => {
                let mut r = "I/O error: ".to_owned();
                r.append(t.as_str());
                r
            },
            MattingError::InvalidPath => "invalid path: the file has no extension".to_owned(),
            MattingError::Forbidden(c) => {
                let mut r = "forbidden: HTTP status ".to_owned();
                let t = u64_to_decimal(*c as u64);
                r.append(t.as_str());
                r
            },
            MattingError::NetworkError(t) => {
                let mut r = "network error: ".to_owned();
                r.append(t.as_str());
                r
            },
        }
    }
}

} // verus!

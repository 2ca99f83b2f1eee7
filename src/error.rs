//! Why a download attempt failed.

use vstd::prelude::*;
use vstd::string::*;
use crate::text::{decimal, decimal_of};

verus! {

/// The failure of one download attempt, or of a whole download.
#[derive(Clone, Debug)]
pub enum DownloadError {
    /// The request could not be sent (name resolution, connection, TLS).
    Connection(String),
    /// The server answered with a status other than success.
    HttpStatus(u16),
    /// The response body broke off while it was being read.
    Transport(String),
    /// Reading or writing a local file failed.
    Io(String),
    /// Joining the chunk files into the output failed.
    Merge(String),
    /// No attempt was made, as zero attempts were allowed.
    NoAttempt,
}

/// The text of an error.
pub open spec fn error_text(e: DownloadError) -> Seq<char> {
    match e {
        DownloadError::Connection(m) => "connection failed: "@ + m@,
        DownloadError::HttpStatus(code) => "HTTP error: "@ + decimal_of(code as nat),
        DownloadError::Transport(m) => "transfer failed: "@ + m@,
        DownloadError::Io(m) => "I/O error: "@ + m@,
        DownloadError::Merge(m) => "merge failed: "@ + m@,
        DownloadError::NoAttempt => "Unknown error"@,
    }
}

impl DownloadError {
    /// Describes the error in words.
    pub fn message(&self) -> (r: String)
        ensures
            r@ == error_text(*self),
    {
        let (mut head, tail) = match self {
            DownloadError::Connection(m) => ("connection failed: ".to_owned(), m.clone()),
            DownloadError::HttpStatus(code) => ("HTTP error: ".to_owned(), decimal(*code as u64)),
            DownloadError::Transport(m) => ("transfer failed: ".to_owned(), m.clone()),
            DownloadError::Io(m) => ("I/O error: ".to_owned(), m.clone()),
            DownloadError::Merge(m) => ("merge failed: ".to_owned(), m.clone()),
            DownloadError::NoAttempt => ("Unknown error".to_owned(), String::new()),
        };
        head.append(tail.as_str());
        proof {
            if self is NoAttempt {
                assert(head@ =~= error_text(*self));
            }
        }
        head
    }
}

} // verus!

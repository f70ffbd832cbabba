//! The ways a download can fail.

use vstd::prelude::*;

verus! {

/// What went wrong, by the stage at which it went wrong.
#[derive(Debug, Clone, Copy, PartialEq, Eq, Structural)]
pub enum DownloadError {
    /// The request could not be sent, or the connection failed before any
    /// data arrived.
    Request,
    /// The connection failed, or the server closed the stream, after the
    /// headers had been received.
    Stream,
    /// The destination could not be created, or a write to it failed.
    Io,
    /// No name could be derived from the URL.
    Naming,
}

impl DownloadError {
    /// The text that goes with each error.
    pub open spec fn message_of(self) -> Seq<char> {
        match self {
            DownloadError::Request => "request failed"@,
            DownloadError::Stream => "stream failed"@,
            DownloadError::Io => "write failed"@,
            DownloadError::Naming => "can't derrive"@,
        }
    }

    /// Says in words what went wrong.
    pub fn message(&self) -> (text: &'static str)
        ensures
            text@ == self.message_of(),
    {
        match self {
            DownloadError::Request => "request failed",
            DownloadError::Stream => "stream failed",
            DownloadError::Io => "write failed",
            DownloadError::Naming => "can't derrive",
        }
    }
}

} // verus!

//! The errors of a GDB session and the text each one is reported with.
use vstd::prelude::*;

use crate::text::push_str;

verus! {

/// What can go wrong while talking to GDB.
#[derive(Debug)]
pub enum GdbError {
    /// No session is registered under the given id.
    SessionNotFound(String),
    /// GDB never printed its prompt.
    GdbNotReady,
    /// The GDB process failed; the text says how.
    GdbProcessError(String),
    /// GDB did not answer in time.
    GdbTimeout,
    /// The standard input of GDB is gone.
    GdbStdinNotAvailable,
    /// An input/output error, by its description.
    IoError(String),
    /// Anything else, by its description.
    Other(String),
}

/// The text with which an error is reported.
pub open spec fn error_message(e: GdbError) -> Seq<char> {
    match e {
        GdbError::SessionNotFound(id) => "No active GDB session with ID: "@ + id@,
        GdbError::GdbNotReady => "GDB session is not ready"@,
        GdbError::GdbProcessError(m) => "GDB process error: "@ + m@,
        GdbError::GdbTimeout => "GDB command timed out"@,
        GdbError::GdbStdinNotAvailable => "GDB stdin is not available"@,
        GdbError::IoError(m) => "IO error: "@ + m@,
        GdbError::Other(m) => m@,
    }
}

impl GdbError {
    /// The text with which this error is reported.
    pub fn to_message(&self) -> (s: String)
        ensures
            s@ == error_message(*self),
    {
        let mut s = String::new();
        match self {
            GdbError::SessionNotFound(id) => {
                push_str(&mut s, "No active GDB session with ID: ");
                push_str(&mut s, id.as_str());
            },
            GdbError::GdbNotReady => push_str(&mut s, "GDB session is not ready"),
            GdbError::GdbProcessError(m) => {
                push_str(&mut s, "GDB process error: ");
                push_str(&mut s, m.as_str());
            },
            GdbError::GdbTimeout => push_str(&mut s, "GDB command timed out"),
            GdbError::GdbStdinNotAvailable => push_str(&mut s, "GDB stdin is not available"),
            GdbError::IoError(m) => {
                push_str(&mut s, "IO error: ");
                push_str(&mut s, m.as_str());
            },
            GdbError::Other(m) => push_str(&mut s, m.as_str()),
        }
        s
    }
}

} // verus!

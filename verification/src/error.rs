//! What can go wrong while a file is read and watched.

use vstd::prelude::*;

verus! {

/// A failure of the ingestion side, with the words of whoever reported it.
#[derive(Clone, Debug)]
pub enum Error {
    /// The file could not be opened or read.
    Io(String),
    /// The other end of a channel is gone.
    Receive(String),
    /// Filesystem notification could not be set up or kept up.
    Notify(String),
    /// Anything else.
    Other(String),
}

impl Error {
    /// The words of whoever reported the failure.
    pub open spec fn text(&self) -> Seq<char> {
        match self {
            Error::Io(m) => m@,
            Error::Receive(m) => m@,
            Error::Notify(m) => m@,
            Error::Other(m) => m@,
        }
    }

    /// The message to show for this failure.
    pub fn message(&self) -> (m: String)
        ensures
            m@ == self.text(),
    {
        match self {
            Error::Io(m) => m.clone(),
            Error::Receive(m) => m.clone(),
            Error::Notify(m) => m.clone(),
            Error::Other(m) => m.clone(),
        }
    }

    /// The kind of failure, in a few words.
    pub fn description(&self) -> (d: &'static str)
        ensures
            d@ == match self {
                Error::Io(_) => "IO Error"@,
                Error::Receive(_) => "Channel Receive error"@,
                Error::Notify(_) => "FS Notify error"@,
                Error::Other(_) => "Unknown error"@,
            },
    {
        match self {
            Error::Io(_) => "IO Error",
            Error::Receive(_) => "Channel Receive error",
            Error::Notify(_) => "FS Notify error",
            Error::Other(_) => "Unknown error",
        }
    }
}

impl From<String> for Error {
    fn from(value: String) -> (e: Error) {
        Error::Other(value)
    }
}

impl vstd::std_specs::convert::FromSpecImpl<String> for Error {
    open spec fn obeys_from_spec() -> bool {
        true
    }

    open spec fn from_spec(value: String) -> Error {
        Error::Other(value)
    }
}

/// The failure that a send on a closed channel is reported as.
pub fn send_err_to_error(e: String) -> (error: Error)
    ensures
        error == Error::Other(e),
{
    Error::Other(e)
}

} // verus!

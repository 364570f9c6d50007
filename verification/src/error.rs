//! The error kinds of the library.
//!
//! Setup failures (arguments, resolution, socket construction) are fatal to a
//! session; per-packet conditions (timeout, malformed reply, ICMP error
//! message) never surface here, they are absorbed into the statistics.  The
//! variants carry no payload: the unverified shell around the library keeps
//! the underlying OS error where it has one, and maps it to these kinds when
//! it calls in.

use vstd::prelude::*;

verus! {

#[derive(Clone, Copy, Debug, PartialEq, Eq, Structural)]
pub enum RingError {
    /// Malformed command line.
    ArgError,
    /// An I/O operation on the socket failed.
    IoError,
    /// The destination string could not be parsed or resolved.
    DestParseError,
    /// No usable endpoint, or the socket could not be configured.
    NetworkError,
    /// The queue between the sender and the receiver failed.
    ChannelSendError,
}

impl RingError {
    /// The diagnostic text of each kind, without terminal colouring.
    pub open spec fn text_spec(self) -> Seq<char> {
        match self {
            RingError::ArgError => "Invalid Number of Arguments"@,
            RingError::IoError => "I/O Error Occured"@,
            RingError::DestParseError => "Failed to parse destination address"@,
            RingError::NetworkError => "Network Error Occured"@,
            RingError::ChannelSendError => "Failed to transport data"@,
        }
    }

    /// The diagnostic text of the error.
    pub fn text(&self) -> (r: &'static str)
        ensures
            r@ == self.text_spec(),
    {
        match self {
            RingError::ArgError => "Invalid Number of Arguments",
            RingError::IoError => "I/O Error Occured",
            RingError::DestParseError => "Failed to parse destination address",
            RingError::NetworkError => "Network Error Occured",
            RingError::ChannelSendError => "Failed to transport data",
        }
    }
}

} // verus!

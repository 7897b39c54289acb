//! Failures of a metadata request.

use vstd::prelude::*;

verus! {

/// Why a metadata request produced no message.
#[derive(Clone, Copy, Debug, PartialEq, Eq, Structural)]
pub enum Error {
    /// No authenticated session was available, or the transport failed.
    ConnectionError,
    /// The response could not be decoded as the expected message.
    ProtocolError,
}

} // verus!

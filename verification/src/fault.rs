//! Kinds of input/output failure, and which of them the application survives.

use vstd::prelude::*;

verus! {

/// The kind of an input/output error.
///
/// The variants are those of [`std::io::ErrorKind`] that an operation on a socket can report; any
/// further kind counts as [`Other`](ErrorKind::Other).
#[derive(Clone, Copy, Debug, Eq, Hash, PartialEq, Structural)]
pub enum ErrorKind {
    NotFound,
    PermissionDenied,
    ConnectionRefused,
    ConnectionReset,
    ConnectionAborted,
    NotConnected,
    AddrInUse,
    AddrNotAvailable,
    BrokenPipe,
    AlreadyExists,
    WouldBlock,
    InvalidInput,
    InvalidData,
    TimedOut,
    WriteZero,
    Interrupted,
    Unsupported,
    UnexpectedEof,
    OutOfMemory,
    Other,
}

/// Whether an error of kind `e` comes from resource exhaustion or from an error of the program or
/// its configuration, and not from the remote peer.
pub open spec fn fatal_kind(e: ErrorKind) -> bool {
    ||| e == ErrorKind::NotConnected
    ||| e == ErrorKind::AddrInUse
    ||| e == ErrorKind::AddrNotAvailable
    ||| e == ErrorKind::InvalidInput
    ||| e == ErrorKind::InvalidData
    ||| e == ErrorKind::Unsupported
    ||| e == ErrorKind::OutOfMemory
}

/// Checks whether a given error kind is fatal or not.
///
/// A fatal error is one caused by resource exhaustion or program or configuration error. A
/// non-fatal error is one that can be caused by the remote peer and should result in the specific
/// peer connection being closed but the application as a whole continuing to operate.
pub fn is_fatal(e: ErrorKind) -> (fatal: bool)
    ensures
        fatal == fatal_kind(e),
{
    matches!(
        e,
        ErrorKind::NotConnected
            | ErrorKind::AddrInUse
            | ErrorKind::AddrNotAvailable
            | ErrorKind::InvalidInput
            | ErrorKind::InvalidData
            | ErrorKind::Unsupported
            | ErrorKind::OutOfMemory
    )
}

/// An application outlives every failure that a peer can bring about, and no failure that is its own:
/// it fails exactly on a socket that is not connected, on an address that cannot be used, on invalid
/// input or data, on what is not supported, and when memory runs out.
pub proof fn law_fatal_kinds(e: ErrorKind)
    ensures
        fatal_kind(e) <==> (e is NotConnected || e is AddrInUse || e is AddrNotAvailable
            || e is InvalidInput || e is InvalidData || e is Unsupported || e is OutOfMemory),
{
}

} // verus!

use vstd::prelude::*;

verus! {

/// Errors that end a connection.
#[derive(Clone, Copy, Debug, PartialEq, Eq, Structural)]
pub enum ConnectionError {
    /// Every stream ID of this side has been used.
    NoMoreStreamIds,
    /// The connection has already terminated.
    Closed,
    /// The transport failed or closed with an error.
    Io,
    /// A frame could not be decoded.
    Decode,
}

/// Errors of the control handle.
#[derive(Clone, Copy, Debug, PartialEq, Eq, Structural)]
pub enum CtrlError {
    /// The initial body is larger than the receive window given.
    InitialBodyTooLarge(u32),
    /// The connection is gone.
    ConnectionClosed,
}

} // verus!

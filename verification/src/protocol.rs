//! The connection-oriented RPC protocol: packets framed as an 8-byte big-endian id, an 8-byte
//! big-endian payload length, and the payload bytes.

use vstd::prelude::*;
use std::sync::Arc;
use crate::ErrorKind;

pub mod framing;
pub mod client;
pub mod rpc_futures;
pub mod server;

verus! {

#[verifier::external_type_specification]
#[verifier::external_body]
pub struct ExIoError(std::io::Error);

/// Client errors that can occur during rpc calls.
#[derive(Debug)]
pub enum Error {
    /// An IO-related error.
    Io(Arc<std::io::Error>),
    /// The server hung up.
    ConnectionBroken,
}

impl Clone for Error {
    fn clone(&self) -> (e: Error)
        ensures
            e == *self,
    {
        match self {
            Error::Io(err) => Error::Io(Arc::clone(err)),
            Error::ConnectionBroken => Error::ConnectionBroken,
        }
    }
}

/// Why reading a packet off the wire failed.
#[derive(Debug)]
pub enum DecodeFailure {
    /// The stream reported an I/O error of this kind.
    Io { kind: ErrorKind, error: std::io::Error },
    /// The stream ended in the middle of a packet.
    EndOfStream,
    /// The bytes did not form a packet.
    Malformed,
}

impl Error {
    /// The client error that a failed read of the blocking protocol turns into: a stream that
    /// ended means the server hung up; every I/O error is reported as such. Malformed packets are
    /// outside what the protocol handles.
    pub fn from_decode_failure(failure: DecodeFailure) -> (e: Error)
        requires
            !(failure is Malformed),
        ensures
            match failure {
                DecodeFailure::Io { error, .. } => e matches Error::Io(a) && *a == error,
                DecodeFailure::EndOfStream => e is ConnectionBroken,
                DecodeFailure::Malformed => false,
            },
    {
        match failure {
            DecodeFailure::Io { error, .. } => Error::Io(Arc::new(error)),
            DecodeFailure::EndOfStream => Error::ConnectionBroken,
            DecodeFailure::Malformed => Error::ConnectionBroken,
        }
    }

    /// The error that a failed read of the connection-handler protocol turns into: there a reset
    /// connection, like a stream that ended, means the peer hung up; other I/O errors are
    /// reported as such. Malformed packets are outside what the protocol handles.
    pub fn from_decode_failure_reset_as_hangup(failure: DecodeFailure) -> (e: Error)
        requires
            !(failure is Malformed),
        ensures
            match failure {
                DecodeFailure::Io { kind, error } => if kind == ErrorKind::ConnectionReset {
                    e is ConnectionBroken
                } else {
                    e matches Error::Io(a) && *a == error
                },
                DecodeFailure::EndOfStream => e is ConnectionBroken,
                DecodeFailure::Malformed => false,
            },
    {
        match failure {
            DecodeFailure::Io { kind, error } => {
                if kind == ErrorKind::ConnectionReset {
                    Error::ConnectionBroken
                } else {
                    Error::Io(Arc::new(error))
                }
            },
            DecodeFailure::EndOfStream => Error::ConnectionBroken,
            DecodeFailure::Malformed => Error::ConnectionBroken,
        }
    }

    /// An I/O error, as a client error.
    pub fn from_io(error: std::io::Error) -> (e: Error)
        ensures
            e matches Error::Io(a) && *a == error,
    {
        Error::Io(Arc::new(error))
    }
}

/// Whether a read that failed with `kind` only timed out (and may be retried).
pub fn timed_out(kind: ErrorKind) -> (b: bool)
    ensures
        b == (kind == ErrorKind::TimedOut || kind == ErrorKind::WouldBlock),
{
    match kind {
        ErrorKind::TimedOut | ErrorKind::WouldBlock => true,
        _ => false,
    }
}

} // verus!

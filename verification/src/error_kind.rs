//! The kinds of I/O errors that a server can report back to a client.

use vstd::prelude::*;

verus! {

/// The category of an I/O failure, mirroring the kinds that the wire encoding names.
///
/// `Unlisted` stands for every kind that the wire table has no entry for.
#[derive(Clone, Copy, Debug, PartialEq, Eq, Structural, Hash)]
pub enum ErrorKind {
    NotFound,
    PermissionDenied,
    ConnectionRefused,
    ConnectionReset,
    ConnectionAborted,
    NotConnected,
    AddrInUse,
    AddrNotAvailable,
    BrokenPipe,
    AlreadyExists,
    WouldBlock,
    InvalidInput,
    InvalidData,
    TimedOut,
    WriteZero,
    Interrupted,
    Other,
    UnexpectedEof,
    Unlisted,
}

/// The wire code of an error kind; kinds without their own entry travel as `Other` (16).
pub open spec fn kind_code(kind: ErrorKind) -> u32 {
    match kind {
        ErrorKind::NotFound => 0,
        ErrorKind::PermissionDenied => 1,
        ErrorKind::ConnectionRefused => 2,
        ErrorKind::ConnectionReset => 3,
        ErrorKind::ConnectionAborted => 4,
        ErrorKind::NotConnected => 5,
        ErrorKind::AddrInUse => 6,
        ErrorKind::AddrNotAvailable => 7,
        ErrorKind::BrokenPipe => 8,
        ErrorKind::AlreadyExists => 9,
        ErrorKind::WouldBlock => 10,
        ErrorKind::InvalidInput => 11,
        ErrorKind::InvalidData => 12,
        ErrorKind::TimedOut => 13,
        ErrorKind::WriteZero => 14,
        ErrorKind::Interrupted => 15,
        ErrorKind::Other => 16,
        ErrorKind::UnexpectedEof => 17,
        ErrorKind::Unlisted => 16,
    }
}

/// The error kind that a wire code denotes; unknown codes denote `Other`.
pub open spec fn code_kind(code: u32) -> ErrorKind {
    if code == 0 {
        ErrorKind::NotFound
    } else if code == 1 {
        ErrorKind::PermissionDenied
    } else if code == 2 {
        ErrorKind::ConnectionRefused
    } else if code == 3 {
        ErrorKind::ConnectionReset
    } else if code == 4 {
        ErrorKind::ConnectionAborted
    } else if code == 5 {
        ErrorKind::NotConnected
    } else if code == 6 {
        ErrorKind::AddrInUse
    } else if code == 7 {
        ErrorKind::AddrNotAvailable
    } else if code == 8 {
        ErrorKind::BrokenPipe
    } else if code == 9 {
        ErrorKind::AlreadyExists
    } else if code == 10 {
        ErrorKind::WouldBlock
    } else if code == 11 {
        ErrorKind::InvalidInput
    } else if code == 12 {
        ErrorKind::InvalidData
    } else if code == 13 {
        ErrorKind::TimedOut
    } else if code == 14 {
        ErrorKind::WriteZero
    } else if code == 15 {
        ErrorKind::Interrupted
    } else if code == 17 {
        ErrorKind::UnexpectedEof
    } else {
        ErrorKind::Other
    }
}

/// Encodes an error kind as its wire code.
pub fn encode_kind(kind: ErrorKind) -> (code: u32)
    ensures
        code == kind_code(kind),
{
    match kind {
        ErrorKind::NotFound => 0,
        ErrorKind::PermissionDenied => 1,
        ErrorKind::ConnectionRefused => 2,
        ErrorKind::ConnectionReset => 3,
        ErrorKind::ConnectionAborted => 4,
        ErrorKind::NotConnected => 5,
        ErrorKind::AddrInUse => 6,
        ErrorKind::AddrNotAvailable => 7,
        ErrorKind::BrokenPipe => 8,
        ErrorKind::AlreadyExists => 9,
        ErrorKind::WouldBlock => 10,
        ErrorKind::InvalidInput => 11,
        ErrorKind::InvalidData => 12,
        ErrorKind::TimedOut => 13,
        ErrorKind::WriteZero => 14,
        ErrorKind::Interrupted => 15,
        ErrorKind::Other => 16,
        ErrorKind::UnexpectedEof => 17,
        ErrorKind::Unlisted => 16,
    }
}

/// Decodes a wire code into an error kind.
pub fn decode_kind(code: u32) -> (kind: ErrorKind)
    ensures
        kind == code_kind(code),
{
    match code {
        0 => ErrorKind::NotFound,
        1 => ErrorKind::PermissionDenied,
        2 => ErrorKind::ConnectionRefused,
        3 => ErrorKind::ConnectionReset,
        4 => ErrorKind::ConnectionAborted,
        5 => ErrorKind::NotConnected,
        6 => ErrorKind::AddrInUse,
        7 => ErrorKind::AddrNotAvailable,
        8 => ErrorKind::BrokenPipe,
        9 => ErrorKind::AlreadyExists,
        10 => ErrorKind::WouldBlock,
        11 => ErrorKind::InvalidInput,
        12 => ErrorKind::InvalidData,
        13 => ErrorKind::TimedOut,
        14 => ErrorKind::WriteZero,
        15 => ErrorKind::Interrupted,
        16 => ErrorKind::Other,
        17 => ErrorKind::UnexpectedEof,
        _ => ErrorKind::Other,
    }
}

/// Every kind that has its own wire code decodes back to itself after encoding; `Unlisted`
/// comes back as `Other`.
pub proof fn lemma_kind_code_roundtrip(kind: ErrorKind)
    ensures
        kind != ErrorKind::Unlisted ==> code_kind(kind_code(kind)) == kind,
        kind == ErrorKind::Unlisted ==> code_kind(kind_code(kind)) == ErrorKind::Other,
{
}

/// Decoding then encoding a code gives the code back whenever the code is in the table
/// (0 through 17); every other code becomes 16.
pub proof fn lemma_code_kind_roundtrip(code: u32)
    ensures
        code <= 17 ==> kind_code(code_kind(code)) == code,
        code > 17 ==> kind_code(code_kind(code)) == 16,
{
}

} // verus!

//! The `u32` wire representation of error kinds used by serialized server errors.

use vstd::prelude::*;
use crate::error_kind::{ErrorKind, kind_code, code_kind, encode_kind, decode_kind};

verus! {

/// Serializes an error kind as its `u32` wire code.
pub fn serialize_io_error_kind_as_u32(kind: &ErrorKind) -> (code: u32)
    ensures
        code == kind_code(*kind),
{
    encode_kind(*kind)
}

/// Deserializes an error kind from its `u32` wire code.
pub fn deserialize_io_error_kind_from_u32(code: u32) -> (kind: ErrorKind)
    ensures
        kind == code_kind(code),
{
    decode_kind(code)
}

} // verus!

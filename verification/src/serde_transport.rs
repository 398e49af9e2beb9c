//! Wire-friendly forms of the request and response envelopes, and the names of the Unix sockets
//! that transports listen on.

use vstd::prelude::*;

pub mod fory_envelope;
pub mod unix;

verus! {

} // verus!

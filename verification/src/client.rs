//! Client-side bookkeeping: requests written to the wire that await responses, and stubs that
//! spread calls over several backends.

use vstd::prelude::*;

pub mod in_flight_requests;
pub mod stub;

verus! {

} // verus!

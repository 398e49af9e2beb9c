//! Limits on what a server accepts.

use vstd::prelude::*;

pub mod channels_per_key;

verus! {

} // verus!

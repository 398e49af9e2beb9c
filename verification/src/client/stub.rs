//! Stubs: things that call remote services.

use vstd::prelude::*;

pub mod load_balance;

verus! {

} // verus!

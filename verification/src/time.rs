//! Timer support for targets without a native timer driver.

use vstd::prelude::*;

pub mod wasm;

verus! {

} // verus!

//! Wire-format contract layer for a swap-quote client: request and response
//! records, and the codecs that carry 64-bit amounts, base58 identifiers and
//! decimal percentages as strings across a JSON-shaped boundary.

pub mod decimal;
pub mod digits;
pub mod errors;
pub mod fields;
pub mod json;
pub mod pubkey;
pub mod quote;
pub mod route_plan_with_metadata;

use vstd::prelude::*;

verus! {

} // verus!

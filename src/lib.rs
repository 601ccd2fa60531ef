use vstd::prelude::*;

pub mod accounts;
pub mod encoders;
pub mod protocol;

verus! {

// `protocol` holds the wire messages and the version gate, `encoders` the fixed
// requests, `accounts` the position stream and the family-code lookup.

} // verus!

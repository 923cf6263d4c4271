use vstd::prelude::*;

pub mod roundtrip;
pub mod rtcp;

verus! {

} // verus!

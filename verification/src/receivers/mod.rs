use vstd::prelude::*;

pub mod receivers;
pub mod signalling;

verus! {

} // verus!

use vstd::prelude::*;

pub mod buffer;
pub mod receivers;
pub mod rtp;

verus! {

/// The kind of media a stream carries.
#[derive(Debug, Clone, Copy, PartialEq, Eq)]
pub enum StreamType {
    Audio,
    Video,
}

} // verus!

use vstd::prelude::*;

verus! {

/// The byte that names an eviction policy in a request.
pub struct PolicyByte;

impl PolicyByte {
    pub const LFU: u8 = 0;

    pub const FIFO: u8 = 1;

    pub const LRU: u8 = 2;

    pub const MRU: u8 = 3;
}

} // verus!

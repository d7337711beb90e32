use vstd::prelude::*;

verus! {

/// 2^15 powers: the size of each of the two blocks that ship with the SRS.
pub const NUM_POWERS_15: usize = 32768;

/// 2^16 powers: the smallest block that can be downloaded.
pub const NUM_POWERS_16: usize = 65536;

/// 2^27 powers: the largest block of shifted powers that can be downloaded.
pub const NUM_POWERS_27: usize = 134217728;

/// 2^28: the maximum degree supported by the SRS.
pub const MAX_NUM_POWERS: usize = 268435456;

} // verus!

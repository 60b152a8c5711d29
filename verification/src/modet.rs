//! Mode T specifics: the three-of-six line code and its sizing constants.

use vstd::prelude::*;

pub mod threeoutofsix;

verus! {

/// Chip rate of Mode T, in chips per second.
pub const CHIPRATE: u32 = 100_000;

/// Size in bytes of the largest three-of-six encoded frame:
/// the largest frame format A frame grows by a factor of 6/4.
pub const THREE_OUT_OF_SIX_ENCODED_MAX: usize = (crate::stack::ffa::FRAME_MAX * 6) / 4;

} // verus!

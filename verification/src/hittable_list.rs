use vstd::prelude::*;

use crate::helper::random_i32_in_range;

verus! {

/// Picks which of the `len` objects of a list a sampled direction aims at: a
/// random index in `[0, len)`.
pub fn random_index(len: usize) -> (i: usize)
    requires
        0 < len <= i32::MAX,
    ensures
        i < len,
{
    let int_len: i32 = len as i32;
    random_i32_in_range(0, int_len - 1) as usize
}

} // verus!

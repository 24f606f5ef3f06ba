use vstd::prelude::*;

verus! {

/// Calls `fastrand::i32` on the inclusive range `min..=max`.
///
/// The source of `fastrand` 2.5 computes `low + gen_mod(high - low + 1)` with
/// `gen_mod(n) < n` (wrapping arithmetic that stays inside the range), so the
/// result lies in `[min, max]`; it panics only on an empty range, which the
/// `requires` rules out. Which value of the range comes back depends on the
/// thread-local generator state and is left unsaid.
#[verifier::external_body]
fn fastrand_i32_inclusive(min: i32, max: i32) -> (r: i32)
    requires
        min <= max,
    ensures
        min <= r <= max,
{
    fastrand::i32(min..=max)
}

/// Returns a random integer in [min, max].
pub fn random_i32_in_range(min: i32, max: i32) -> (r: i32)
    requires
        min <= max,
    ensures
        min <= r <= max,
{
    fastrand_i32_inclusive(min, max)
}

} // verus!

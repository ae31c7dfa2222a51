use vstd::prelude::*;

verus! {

#[verifier::external_type_specification]
#[verifier::external_body]
pub struct ExRandomNumberGenerator(rltk::RandomNumberGenerator);

/// Relies on RandomNumberGenerator::new: a generator seeded from the
/// operating system's entropy; nothing is known of what it will draw.
pub assume_specification[ rltk::RandomNumberGenerator::new ]() -> rltk::RandomNumberGenerator;

/// Relies on RandomNumberGenerator::range, which draws uniformly from the
/// half-open range `lo..hi` (and panics when the range is empty).
#[verifier::external_body]
pub(crate) fn rng_range(rng: &mut rltk::RandomNumberGenerator, lo: i32, hi: i32) -> (r: i32)
    requires
        lo < hi,
    ensures
        lo <= r < hi,
{
    rng.range(lo, hi)
}

} // verus!

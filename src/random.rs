//! The random draws the library makes, all through the `rand` crate.
use vstd::prelude::*;

use rand::Rng;

verus! {

/// Relies on `rand::random`: a value drawn from the thread-local generator.
/// Nothing is known of the value.
pub assume_specification<T>[ rand::random::<T> ]() -> (r: T)
    where
        rand::distributions::Standard: rand::distributions::Distribution<T>,
;

/// Relies on `rand::Rng::gen_range` over the inclusive range `lo..=hi` on the
/// thread-local generator: the value lies in that range. It panics only on an
/// empty range, which `requires` leaves out.
#[verifier::external_body]
pub(crate) fn draw_between(lo: usize, hi: usize) -> (r: usize)
    requires
        lo <= hi,
    ensures
        lo <= r <= hi,
{
    rand::thread_rng().gen_range(lo..=hi)
}

} // verus!

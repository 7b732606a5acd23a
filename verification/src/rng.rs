//! The randomness source for actor ids.
//!
//! Id generation only needs some value to try; uniqueness against the
//! live-id set is enforced by the scheduler itself, never assumed of the
//! generator.

use vstd::prelude::*;

verus! {

/// Relies on rand::random: draws a value from the thread-local generator.
/// Nothing is promised of the result — the scheduler checks every candidate
/// against the live-id set itself.
pub assume_specification<T>[ rand::random::<T> ]() -> (r: T)
    where
        rand::distributions::Standard: rand::distributions::Distribution<T>,
;

} // verus!

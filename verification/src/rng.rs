use vstd::prelude::*;

verus! {

/// Relies on rand::random, which draws a fresh value from the thread-local
/// generator. Nothing is, or can be, promised of the value drawn.
pub assume_specification<T>[ rand::random::<T> ]() -> (r: T)
    where
        rand::distributions::Standard: rand::distributions::Distribution<T>,
;

} // verus!

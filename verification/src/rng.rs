//! Random byte strings for nonces, entry keys and seeds.

use vstd::prelude::*;

verus! {

pub assume_specification<T>[ rand::random::<T> ]() -> (r: T)
    where
        rand::distributions::Standard: rand::distributions::Distribution<T>,
;

/// A vector of `n` bytes drawn from the thread-local generator. Nothing is
/// promised of the values.
pub fn random_bytes(n: usize) -> (r: Vec<u8>)
    ensures
        r@.len() == n,
{
    let mut out: Vec<u8> = Vec::new();
    let mut i: usize = 0;
    while i < n
        invariant
            i <= n,
            out@.len() == i,
        decreases n - i,
    {
        let b: u8 = rand::random();
        out.push(b);
        i += 1;
    }
    out
}

} // verus!

use vstd::prelude::*;

verus! {

/// Relies on rand::random: one fresh sample of rand's standard distribution;
/// nothing is promised of the value.
pub assume_specification<T>[ rand::random::<T> ]() -> (r: T)
    where
        rand::distributions::Standard: rand::distributions::Distribution<T>,
;

/// `n` fresh uniform Bernoulli(1/2) flags from the process-wide generator.
pub fn random_flags(n: usize) -> (v: Vec<bool>)
    ensures
        v@.len() == n,
{
    let mut v: Vec<bool> = Vec::new();
    let mut i: usize = 0;
    while i < n
        invariant
            v@.len() == i,
            i <= n,
        decreases n - i,
    {
        v.push(rand::random::<bool>());
        i = i + 1;
    }
    v
}

} // verus!

//! Random draws shared by the samplers.

use vstd::prelude::*;

verus! {

/// A fair coin from the thread-local generator.
/// Relies on `rand::random::<bool>`, which draws from `rand::thread_rng`;
/// nothing is known of the value.
#[verifier::external_body]
pub fn rand_bool() -> bool {
    rand::random::<bool>()
}

/// The sign that a coin toss gives an axis: `1` for heads, `-1` for tails.
pub fn sign_of(heads: bool) -> (s: i32)
    ensures
        s == (if heads {
            1i32
        } else {
            -1i32
        }),
{
    if heads {
        1
    } else {
        -1
    }
}

/// A random sign for one axis of a sampled point: `1` or `-1`, decided by
/// one fair coin toss through `sign_of`.
pub fn rand_sign() -> (s: i32)
    ensures
        s == 1 || s == -1,
{
    sign_of(rand_bool())
}

} // verus!

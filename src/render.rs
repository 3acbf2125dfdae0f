//! Decisions of the radiance recursion that do not depend on colours.

use vstd::prelude::*;

verus! {

/// The bounce budget of the ray scattered from a hit, or `None` when the
/// budget `depth` is spent: then the ray is not traced and its colour is
/// black, whatever the ray and the scene.
pub fn next_depth(depth: i32) -> (r: Option<i32>)
    ensures
        r == (if depth <= 0 {
            None
        } else {
            Some((depth - 1) as i32)
        }),
{
    if depth <= 0 {
        None
    } else {
        Some(depth - 1)
    }
}

} // verus!

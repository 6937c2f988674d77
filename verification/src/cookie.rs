//! Where fresh cookies come from.

use vstd::prelude::*;

verus! {

/// Draws a cookie with `rand::random::<u32>()`, which samples the thread-local
/// generator uniformly over all of `u32`. Nothing is claimed of the value: any
/// cookie may come back, and two draws may or may not agree.
#[verifier::external_body]
pub(crate) fn fresh_cookie() -> (cookie: u32) {
    rand::random::<u32>()
}

} // verus!

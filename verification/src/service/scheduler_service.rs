//! Limits of the gateway's request scheduling.

use vstd::prelude::*;

verus! {

/// The configured number of upstream attempts, clamped to `1..=20`.
pub fn retry_limit(configured: u32) -> (r: u32)
    ensures
        r == (if configured < 1 {
            1
        } else if configured > 20 {
            20
        } else {
            configured
        }),
{
    if configured < 1 {
        1
    } else if configured > 20 {
        20
    } else {
        configured
    }
}

} // verus!

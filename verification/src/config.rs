//! Configuration defaults that do not involve fractional values.
use vstd::prelude::*;

verus! {

/// Minimum horizontal wheel magnitude that turns into a Shift-scroll.
pub fn default_hscroll_threshold() -> (r: i32)
    ensures
        r == 2,
{
    2
}

} // verus!

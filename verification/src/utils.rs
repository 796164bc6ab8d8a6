//! Small helpers.

use crate::fixed::{change_pct, fx_div, fx_mul, fx_sub, SCALE};
use vstd::prelude::*;

verus! {

/// Relative change from `start` to `end`, in percent.
pub fn compute_change_pct(start: i64, end: i64) -> (r: i64)
    ensures
        r == change_pct(start as int, end as int),
{
    let frac: i64 = fx_div(end, start);
    fx_mul(fx_sub(frac, SCALE), 100 * SCALE)
}

} // verus!

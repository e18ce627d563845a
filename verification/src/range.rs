//! Inclusive integer ranges.

use vstd::prelude::*;

verus! {

/// The integers from `min` to `max`, both included, in increasing order.
/// Empty when `min > max`.
pub open spec fn range_seq(min: i32, max: i32) -> Seq<i32> {
    if min <= max {
        Seq::new((max - min + 1) as nat, |i: int| (min + i) as i32)
    } else {
        Seq::empty()
    }
}

/// Collects `min, min + 1, ..., max` into a vector. The vector is empty
/// when `min > max`; no pair of bounds is an error.
pub fn range(min: i32, max: i32) -> (out: Vec<i32>)
    ensures
        out@ == range_seq(min, max),
{
    let mut out: Vec<i32> = Vec::new();
    if min > max {
        return out;
    }
    let mut next: i32 = min;
    loop
        invariant_except_break
            out@.len() == next - min,
        invariant
            min <= next <= max,
            forall|i: int| 0 <= i < out@.len() ==> out@[i] == min + i,
        ensures
            out@.len() == max - min + 1,
        decreases max - next,
    {
        out.push(next);
        if next == max {
            break;
        }
        next = next + 1;
    }
    out
}

} // verus!

//! The arguments of a call, from the numbers that a caller supplies.

use vstd::prelude::*;
use crate::expr::INPUT_SLOTS;

verus! {

/// The argument in slot `i`: the `i`-th number, or zero where fewer
/// numbers were supplied.
pub open spec fn slot(values: Seq<i32>, i: int) -> i32 {
    if 0 <= i < values.len() {
        values[i]
    } else {
        0
    }
}

/// Fills the argument slots from `values`: the first numbers go to the
/// slots in order, slots without a number get zero, numbers beyond the
/// slots are left out.
pub fn fill_inputs(values: &[i32]) -> (r: [i32; 4])
    ensures
        r@.len() == INPUT_SLOTS,
        forall|i: int| 0 <= i < 4 ==> r@[i] == slot(values@, i),
{
    let a: i32 = if values.len() > 0 {
        values[0]
    } else {
        0
    };
    let b: i32 = if values.len() > 1 {
        values[1]
    } else {
        0
    };
    let c: i32 = if values.len() > 2 {
        values[2]
    } else {
        0
    };
    let d: i32 = if values.len() > 3 {
        values[3]
    } else {
        0
    };
    [a, b, c, d]
}

} // verus!

use vstd::prelude::*;

pub mod entity;
pub mod game;
pub mod input;
pub mod rendering;

verus! {

/// Adds two numbers.
pub fn add(left: u64, right: u64) -> (sum: u64)
    requires
        left + right <= u64::MAX,
    ensures
        sum == left + right,
{
    left + right
}

} // verus!

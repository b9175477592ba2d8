//! One tracked body sample.
use vstd::prelude::*;

verus! {

/// Horizontal offset `x` and body height, both in micrometres, and the
/// sample time `t` in microseconds.
#[derive(Debug, Clone, Copy, PartialEq, Eq, Structural)]
pub struct BodyState {
    pub x: i32,
    pub height: i32,
    pub t: i64,
}

impl BodyState {
    pub fn new(x: i32, height: i32, t: i64) -> (r: Self)
        ensures
            r == (BodyState { x, height, t }),
    {
        BodyState { x, height, t }
    }
}

} // verus!

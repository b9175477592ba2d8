//! Fixed-point conventions shared by the whole library.
use vstd::prelude::*;

verus! {

/// Floor of `a / n` for a positive divisor (the spec `/` on `int` rounds
/// towards negative infinity when the divisor is positive).
pub fn floor_div(a: i128, n: i128) -> (r: i128)
    requires
        0 < n <= 0x1_0000_0000_0000_0000_0000_0000,
        -0x1_0000_0000_0000_0000_0000_0000 <= a <= 0x1_0000_0000_0000_0000_0000_0000,
    ensures
        r == a as int / n as int,
{
    if a >= 0 {
        a / n
    } else {
        let m: i128 = -a;
        let q: i128 = (m + n - 1) / n;
        proof {
            let ai = a as int;
            let ni = n as int;
            let qi = q as int;
            assert(qi == (-ai + ni - 1) / ni);
            assert(qi * ni <= -ai + ni - 1 < qi * ni + ni) by (nonlinear_arith)
                requires qi == (-ai + ni - 1) / ni, ni > 0;
            assert((-qi) * ni <= ai < (-qi) * ni + ni) by (nonlinear_arith)
                requires qi * ni <= -ai + ni - 1 < qi * ni + ni;
            assert(ai / ni == -qi) by (nonlinear_arith)
                requires (-qi) * ni <= ai < (-qi) * ni + ni, ni > 0;
        }
        -q
    }
}

} // verus!

verus! {

/// Frames per second of the simulated and scripted sources.
pub const FPS: u64 = 30;

/// Start time in microseconds of frame `k` at [`FPS`] frames per second,
/// rounded down and capped at `i64::MAX`.
pub open spec fn frame_time(k: nat) -> int {
    let t: int = (k * 1_000_000 / 30) as int;
    if t > i64::MAX { i64::MAX as int } else { t }
}

/// Start time in microseconds of frame `k`.
pub fn frame_time_us(k: u64) -> (r: i64)
    ensures
        r == frame_time(k as nat),
{
    let t = (k as u128) * 1_000_000 / (FPS as u128);
    if t > i64::MAX as u128 {
        i64::MAX
    } else {
        t as i64
    }
}

/// Number of frames of a duration in milliseconds at [`FPS`], rounded down.
pub open spec fn frames_for(ms: nat) -> nat {
    ms * 30 / 1000
}

} // verus!

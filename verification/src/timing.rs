//! Splitting an elapsed time into minutes, seconds and milliseconds.
use vstd::prelude::*;

verus! {

/// Splits an elapsed time, given as whole seconds and as whole
/// milliseconds, into whole minutes, the seconds past the last minute, and
/// the milliseconds past the last second.
pub fn elapsed_parts(secs: u64, millis: u128) -> (r: (u64, u64, u128))
    requires
        secs * 1000 <= u64::MAX,
        secs * 1000 <= millis,
    ensures
        r.0 == secs / 60,
        r.1 == secs % 60,
        r.2 == millis - secs * 1000,
        r.0 * 60 + r.1 == secs,
        r.1 < 60,
{
    let m: u64 = secs / 60;
    let s: u64 = secs - (m * 60);
    assert(m * 60 * 1000 + s * 1000 == secs * 1000) by (nonlinear_arith)
        requires
            m * 60 + s == secs,
    ;
    let whole: u64 = m * 60 * 1000 + s * 1000;
    let ms: u128 = millis - (whole as u128);
    (m, s, ms)
}

}

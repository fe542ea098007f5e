//! Time, in ticks.
use vstd::prelude::*;

verus! {

/// Ticks in a second.
pub const TICKS_PER_SEC: u32 = 1200;

/// `dt` after `t`, at the latest the last tick that can be counted.
pub open spec fn later(t: u32, dt: u32) -> u32 {
    if t + dt > u32::MAX {
        u32::MAX
    } else {
        (t + dt) as u32
    }
}

/// What is left of a countdown at `t` after `dt`, never less than zero.
pub open spec fn left(t: u32, dt: u32) -> u32 {
    if t <= dt {
        0
    } else {
        (t - dt) as u32
    }
}

pub fn advance(t: u32, dt: u32) -> (r: u32)
    ensures
        r == later(t, dt),
{
    if t > u32::MAX - dt {
        u32::MAX
    } else {
        t + dt
    }
}

pub fn count_down(t: u32, dt: u32) -> (r: u32)
    ensures
        r == left(t, dt),
{
    if t <= dt {
        0
    } else {
        t - dt
    }
}

/// Time that can be counted adds up, and time that cannot stands still at the last tick.
pub proof fn time_adds_up(t: u32, dt: u32, more: u32)
    ensures
        t + dt <= u32::MAX ==> later(t, dt) == t + dt,
        t + dt > u32::MAX ==> later(t, dt) == u32::MAX,
        t + dt + more <= u32::MAX ==> later(later(t, dt), more) == t + dt + more,
{
}

/// A countdown loses the time that passes and stops at nothing; what was counted off and what is
/// left add up to what there was.
pub proof fn countdowns_run_out(t: u32, dt: u32, more: u32)
    ensures
        left(t, dt) == 0 <==> dt >= t,
        dt <= t ==> left(t, dt) + dt == t,
        dt + more <= u32::MAX ==> left(left(t, dt), more) == left(t, (dt + more) as u32),
        left(t, 0) == t,
{
}

} // verus!

//! Machine timer compare values.
use vstd::prelude::*;
use crate::platform::TIMEBASE_FREQ;

verus! {

pub fn timebase_frequency() -> (r: u64)
    ensures
        r == TIMEBASE_FREQ,
{
    TIMEBASE_FREQ
}

/// `mtimecmp` that fires `ticks` after `now` (wrapping).
pub fn arm_timer_after_ticks(now: u64, ticks: u64) -> (r: u64)
    ensures
        r == (now as int + ticks as int) % 0x1_0000_0000_0000_0000,
{
    now.wrapping_add(ticks)
}

/// `mtimecmp` that fires one period of `hz` after `now`.
pub fn arm_timer_hz(now: u64, hz: u64) -> (r: u64)
    requires
        hz != 0,
    ensures
        r == (now as int + (TIMEBASE_FREQ / hz) as int) % 0x1_0000_0000_0000_0000,
{
    let ticks = timebase_frequency() / hz;
    arm_timer_after_ticks(now, ticks)
}

/// `mtimecmp` that fires `seconds` after `now`.
pub fn arm_timer_seconds(now: u64, seconds: u64) -> (r: u64)
    requires
        TIMEBASE_FREQ * seconds <= u64::MAX,
    ensures
        r == (now as int + TIMEBASE_FREQ * seconds) % 0x1_0000_0000_0000_0000,
{
    arm_timer_after_ticks(now, timebase_frequency() * seconds)
}

/// `mtimecmp` that never fires.
pub fn disarm_timer() -> (r: u64)
    ensures
        r == u64::MAX,
{
    u64::MAX
}

} // verus!

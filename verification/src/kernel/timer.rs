//! The ARM generic timer arithmetic: delays in counter ticks and the timer
//! value that fires after a delay.
use vstd::prelude::*;

verus! {

/// A delay of `ticks` started at counter value `start` has passed at counter
/// value `now` (the counter may wrap in between).
pub fn delay_ticks(start: u64, now: u64, ticks: u64) -> (r: bool)
    ensures
        r == ((now as int - start as int) % 0x1_0000_0000_0000_0000 >= ticks),
{
    now.wrapping_sub(start) >= ticks
}

/// Counter ticks in `ms` milliseconds at `freq` Hz.
pub fn delay_ms(freq: u64, ms: u64) -> (r: u64)
    requires
        (freq / 1000) * ms <= u64::MAX,
    ensures
        r == (freq / 1000) * ms,
{
    let per_ms = freq / 1000;
    per_ms * ms
}

/// Counter ticks in `seconds` seconds at `freq` Hz.
pub fn delay_seconds(freq: u64, seconds: u64) -> (r: u64)
    requires
        freq * seconds <= u64::MAX,
    ensures
        r == freq * seconds,
{
    freq * seconds
}

/// The 32-bit timer value that fires after `ticks` (the low 32 bits).
pub fn arm_timer_ticks(ticks: u64) -> (r: u32)
    ensures
        r == ticks % 0x1_0000_0000,
{
    let low = ticks & 0xFFFF_FFFF;
    assert(ticks & 0xFFFF_FFFF == ticks % 0x1_0000_0000) by (bit_vector);
    low as u32
}

/// The timer value for `hz` interrupts per second at `freq` Hz.
pub fn arm_timer_hz(freq: u64, hz: u64) -> (r: u32)
    requires
        hz != 0,
    ensures
        r == (freq / hz) % 0x1_0000_0000,
{
    arm_timer_ticks(freq / hz)
}

/// The timer value that fires after `seconds` seconds at `freq` Hz.
pub fn arm_timer_seconds(freq: u64, seconds: u64) -> (r: u32)
    requires
        freq * seconds <= u64::MAX,
    ensures
        r == (freq * seconds) % 0x1_0000_0000,
{
    arm_timer_ticks(freq * seconds)
}

} // verus!

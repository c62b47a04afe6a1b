//! The timer tick counter.
use vstd::prelude::*;

verus! {

/// Ticks after which the tick-bounded self-test builds stop.
pub const MAX_TEST_TICKS: u64 = 5;

pub struct Ticks {
    pub count: u64,
}

impl Ticks {
    pub fn new() -> (r: Self)
        ensures
            r.count == 0,
    {
        Ticks { count: 0 }
    }
}

pub fn reset(ticks: &mut Ticks)
    ensures
        final(ticks).count == 0,
{
    ticks.count = 0;
}

/// Count one tick; returns the new count.
pub fn increment(ticks: &mut Ticks) -> (r: u64)
    requires
        old(ticks).count < u64::MAX,
    ensures
        final(ticks).count == old(ticks).count + 1,
        r == final(ticks).count,
{
    let previous = ticks.count;
    ticks.count = previous + 1;
    previous + 1
}

pub fn get(ticks: &Ticks) -> (r: u64)
    ensures
        r == ticks.count,
{
    ticks.count
}

/// In a tick-bounded test build, whether the test has run its ticks; always
/// false in other builds.
pub fn is_test_complete(ticks: &Ticks, tick_bounded_build: bool) -> (r: bool)
    ensures
        r == (tick_bounded_build && ticks.count >= MAX_TEST_TICKS),
{
    if tick_bounded_build {
        get(ticks) >= MAX_TEST_TICKS
    } else {
        false
    }
}

} // verus!

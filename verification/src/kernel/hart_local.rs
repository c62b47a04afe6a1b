//! Per-hart slots indexed by hart id, and the board of which task each hart
//! runs in U-mode.
use vstd::prelude::*;
use crate::platform::HART_SLOTS;

verus! {

/// One value per hart slot; each hart touches only its own slot.
pub struct HartLocal<T> {
    pub slots: Vec<T>,
}

impl<T: Copy> HartLocal<T> {
    pub fn new(value: T) -> (r: Self)
        ensures
            r.slots@ == Seq::new(HART_SLOTS as nat, |i: int| value),
    {
        let mut slots: Vec<T> = Vec::new();
        let mut i: usize = 0;
        while i < HART_SLOTS
            invariant
                i <= HART_SLOTS,
                slots@ == Seq::new(i as nat, |k: int| value),
            decreases HART_SLOTS - i,
        {
            slots.push(value);
            i = i + 1;
            assert(slots@ =~= Seq::new(i as nat, |k: int| value));
        }
        Self { slots }
    }
}

/// Slot index of a hart; harts at or above `HART_SLOTS` never reach the kernel.
pub fn hart_index(mhartid: u64) -> (r: usize)
    requires
        mhartid < HART_SLOTS,
    ensures
        r == mhartid,
{
    mhartid as usize
}

/// Which task each hart runs in U-mode; 0 means idle.
pub struct HartUTids {
    pub tids: Vec<u64>,
}

impl HartUTids {
    pub fn new() -> (r: Self)
        ensures
            r.tids@ == Seq::new(HART_SLOTS as nat, |i: int| 0u64),
    {
        let h = HartLocal::new(0u64);
        HartUTids { tids: h.slots }
    }
}

pub fn publish_u_tid(board: &mut HartUTids, hart: usize, tid: u64)
    requires
        old(board).tids@.len() == HART_SLOTS,
        hart < HART_SLOTS,
    ensures
        final(board).tids@ == old(board).tids@.update(hart as int, tid),
{
    board.tids.set(hart, tid);
}

pub fn clear_u_tid(board: &mut HartUTids, hart: usize)
    requires
        old(board).tids@.len() == HART_SLOTS,
        hart < HART_SLOTS,
    ensures
        final(board).tids@ == old(board).tids@.update(hart as int, 0),
{
    board.tids.set(hart, 0);
}

} // verus!

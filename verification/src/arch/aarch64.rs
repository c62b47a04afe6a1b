//! AArch64 register decoding.
use vstd::prelude::*;

verus! {

/// Exception level held in a `CurrentEL` register value (bits 2..4).
pub fn current_el(current_el_raw: u64) -> (r: u64)
    ensures
        r == (current_el_raw / 4) % 4,
{
    let r = (current_el_raw >> 2) & 0b11;
    assert(r == (current_el_raw / 4) % 4) by (bit_vector)
        requires
            r == (current_el_raw >> 2) & 0b11,
    ;
    r
}

/// Stack pointer to resume a yield from, given the yielding frame pointer.
pub fn resume_stack_pointer(frame_pointer: u64) -> (r: u64)
    requires
        frame_pointer + 16 <= u64::MAX,
    ensures
        r == frame_pointer + 16,
{
    frame_pointer + 16
}

} // verus!

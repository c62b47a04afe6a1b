//! RISC-V machine-mode status words the kernel synthesizes, and the PMP
//! register file it programs.
use vstd::prelude::*;

verus! {

pub const MSTATUS_MIE: u64 = 0x8;

pub const MSTATUS_MPIE: u64 = 0x80;

pub const MSTATUS_MPP: u64 = 0x1800;

pub const MSTATUS_MPP_M: u64 = 0x1800;

pub const MSTATUS_MPP_U: u64 = 0;

pub const MSTATUS_MPRV: u64 = 0x2_0000;

pub const MSTATUS_FS: u64 = 0x6000;

pub const MIE_MTIE: u64 = 0x80;

pub const PMP_ENTRIES: usize = 16;

pub open spec fn worker_mstatus(current: u64) -> u64 {
    (current & !(MSTATUS_MIE | MSTATUS_MPIE | MSTATUS_MPP | MSTATUS_MPRV)) | MSTATUS_MPIE
        | MSTATUS_MPP_U | (current & MSTATUS_FS)
}

pub open spec fn idle_mstatus(current: u64) -> u64 {
    (current & !(MSTATUS_MIE | MSTATUS_MPIE | MSTATUS_MPP | MSTATUS_MPRV)) | MSTATUS_MIE
        | MSTATUS_MPIE | MSTATUS_MPP_M | (current & MSTATUS_FS)
}

fn worker_mpp() -> (r: u64)
    ensures
        r == MSTATUS_MPP_U,
{
    MSTATUS_MPP_U
}

/// `mstatus` for an `mret` into a worker: MIE=0, MPIE=1, MPRV=0, MPP=U, the
/// other bits (FS among them) kept from `current`.
pub fn synthesize_mstatus_for_mret_worker(current: u64) -> (r: u64)
    ensures
        r == worker_mstatus(current),
{
    let fs = current & MSTATUS_FS;
    (current & !(MSTATUS_MIE | MSTATUS_MPIE | MSTATUS_MPP | MSTATUS_MPRV)) | MSTATUS_MPIE
        | worker_mpp() | fs
}

/// The trap came from U-mode (`MPP` is U).
pub fn trapped_from_user(mstatus: u64) -> (r: bool)
    ensures
        r == (mstatus & MSTATUS_MPP == MSTATUS_MPP_U),
{
    (mstatus & MSTATUS_MPP) == MSTATUS_MPP_U
}

/// `mstatus` for leaving a trap into the idle loop: MPP=M, MIE=1, MPIE=1,
/// MPRV=0, the other bits kept from `current`.
pub fn synthesize_mstatus_for_idle(current: u64) -> (r: u64)
    ensures
        r == idle_mstatus(current),
{
    let fs = current & MSTATUS_FS;
    (current & !(MSTATUS_MIE | MSTATUS_MPIE | MSTATUS_MPP | MSTATUS_MPRV)) | MSTATUS_MIE
        | MSTATUS_MPIE | MSTATUS_MPP_M | fs
}

/// A worker `mret` enters U-mode with interrupts masked and re-enabled on
/// return, without MPRV, and every other status bit is left as it was; a
/// trap taken from there counts as a trap from U-mode.
pub proof fn lemma_worker_mstatus(current: u64)
    ensures
        worker_mstatus(current) & MSTATUS_MIE == 0,
        worker_mstatus(current) & MSTATUS_MPIE == MSTATUS_MPIE,
        worker_mstatus(current) & MSTATUS_MPP == MSTATUS_MPP_U,
        worker_mstatus(current) & MSTATUS_MPRV == 0,
        worker_mstatus(current) & !(MSTATUS_MIE | MSTATUS_MPIE | MSTATUS_MPP | MSTATUS_MPRV)
            == current & !(MSTATUS_MIE | MSTATUS_MPIE | MSTATUS_MPP | MSTATUS_MPRV),
{
    let w = worker_mstatus(current);
    assert(w == (current & !(0x8u64 | 0x80u64 | 0x1800u64 | 0x2_0000u64)) | 0x80u64 | 0u64 | (current
        & 0x6000u64));
    assert(((current & !(0x8u64 | 0x80u64 | 0x1800u64 | 0x2_0000u64)) | 0x80u64 | 0u64 | (current
        & 0x6000u64)) & 0x8u64 == 0) by (bit_vector);
    assert(((current & !(0x8u64 | 0x80u64 | 0x1800u64 | 0x2_0000u64)) | 0x80u64 | 0u64 | (current
        & 0x6000u64)) & 0x80u64 == 0x80u64) by (bit_vector);
    assert(((current & !(0x8u64 | 0x80u64 | 0x1800u64 | 0x2_0000u64)) | 0x80u64 | 0u64 | (current
        & 0x6000u64)) & 0x1800u64 == 0) by (bit_vector);
    assert(((current & !(0x8u64 | 0x80u64 | 0x1800u64 | 0x2_0000u64)) | 0x80u64 | 0u64 | (current
        & 0x6000u64)) & 0x2_0000u64 == 0) by (bit_vector);
    assert(((current & !(0x8u64 | 0x80u64 | 0x1800u64 | 0x2_0000u64)) | 0x80u64 | 0u64 | (current
        & 0x6000u64)) & !(0x8u64 | 0x80u64 | 0x1800u64 | 0x2_0000u64) == current & !(0x8u64
        | 0x80u64 | 0x1800u64 | 0x2_0000u64)) by (bit_vector);
}

/// The idle exit enters M-mode with interrupts enabled, keeping the other
/// status bits.
pub proof fn lemma_idle_mstatus(current: u64)
    ensures
        idle_mstatus(current) & MSTATUS_MIE == MSTATUS_MIE,
        idle_mstatus(current) & MSTATUS_MPIE == MSTATUS_MPIE,
        idle_mstatus(current) & MSTATUS_MPP == MSTATUS_MPP_M,
        idle_mstatus(current) & MSTATUS_MPRV == 0,
        idle_mstatus(current) & !(MSTATUS_MIE | MSTATUS_MPIE | MSTATUS_MPP | MSTATUS_MPRV)
            == current & !(MSTATUS_MIE | MSTATUS_MPIE | MSTATUS_MPP | MSTATUS_MPRV),
{
    let w = idle_mstatus(current);
    assert(w == (current & !(0x8u64 | 0x80u64 | 0x1800u64 | 0x2_0000u64)) | 0x8u64 | 0x80u64
        | 0x1800u64 | (current & 0x6000u64));
    assert(((current & !(0x8u64 | 0x80u64 | 0x1800u64 | 0x2_0000u64)) | 0x8u64 | 0x80u64
        | 0x1800u64 | (current & 0x6000u64)) & 0x8u64 == 0x8u64) by (bit_vector);
    assert(((current & !(0x8u64 | 0x80u64 | 0x1800u64 | 0x2_0000u64)) | 0x8u64 | 0x80u64
        | 0x1800u64 | (current & 0x6000u64)) & 0x80u64 == 0x80u64) by (bit_vector);
    assert(((current & !(0x8u64 | 0x80u64 | 0x1800u64 | 0x2_0000u64)) | 0x8u64 | 0x80u64
        | 0x1800u64 | (current & 0x6000u64)) & 0x1800u64 == 0x1800u64) by (bit_vector);
    assert(((current & !(0x8u64 | 0x80u64 | 0x1800u64 | 0x2_0000u64)) | 0x8u64 | 0x80u64
        | 0x1800u64 | (current & 0x6000u64)) & 0x2_0000u64 == 0) by (bit_vector);
    assert(((current & !(0x8u64 | 0x80u64 | 0x1800u64 | 0x2_0000u64)) | 0x8u64 | 0x80u64
        | 0x1800u64 | (current & 0x6000u64)) & !(0x8u64 | 0x80u64 | 0x1800u64 | 0x2_0000u64)
        == current & !(0x8u64 | 0x80u64 | 0x1800u64 | 0x2_0000u64)) by (bit_vector);
}

/// The PMP CSRs the kernel programs: `pmpcfg0`, `pmpcfg2`, `pmpaddr0..15`.
pub struct PmpRegs {
    pub cfg0: u64,
    pub cfg2: u64,
    pub addr: Vec<u64>,
}

impl PmpRegs {
    /// All PMP registers zero.
    pub fn new() -> (r: Self)
        ensures
            r.cfg0 == 0,
            r.cfg2 == 0,
            r.addr@ == Seq::new(PMP_ENTRIES as nat, |i: int| 0u64),
    {
        let mut addr: Vec<u64> = Vec::new();
        let mut i: usize = 0;
        while i < PMP_ENTRIES
            invariant
                i <= PMP_ENTRIES,
                addr@ == Seq::new(i as nat, |k: int| 0u64),
            decreases PMP_ENTRIES - i,
        {
            addr.push(0);
            i = i + 1;
            assert(addr@ =~= Seq::new(i as nat, |k: int| 0u64));
        }
        PmpRegs { cfg0: 0, cfg2: 0, addr }
    }
}

/// `pmpaddr<index>`; 0 for an index past the last entry.
pub fn pmpaddr(regs: &PmpRegs, index: usize) -> (r: u64)
    requires
        regs.addr@.len() == PMP_ENTRIES,
    ensures
        r == if index < PMP_ENTRIES {
            regs.addr@[index as int]
        } else {
            0
        },
{
    if index < PMP_ENTRIES {
        regs.addr[index]
    } else {
        0
    }
}

/// Write `pmpaddr<index>`; an index past the last entry is ignored.
pub fn set_pmpaddr(regs: &mut PmpRegs, index: usize, value: u64)
    requires
        old(regs).addr@.len() == PMP_ENTRIES,
    ensures
        final(regs).cfg0 == old(regs).cfg0,
        final(regs).cfg2 == old(regs).cfg2,
        final(regs).addr@ == if index < PMP_ENTRIES {
            old(regs).addr@.update(index as int, value)
        } else {
            old(regs).addr@
        },
{
    if index < PMP_ENTRIES {
        regs.addr.set(index, value);
    }
}

} // verus!

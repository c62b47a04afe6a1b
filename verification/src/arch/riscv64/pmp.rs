//! Physical memory protection layout: TOR deny below `.usertext`, TOR RX
//! `.usertext`, TOR R `.rodata`, NAPOT RW on the current task stack.
use vstd::prelude::*;
use vstd::string::*;
use crate::arch::riscv64::cpu::{self, PmpRegs, PMP_ENTRIES};
use crate::kernel::memory::{self, Layout};
use crate::drivers::uart::{self, crlf, dec_text, hex_text, line_bytes};

verus! {

pub const PMP_R: u64 = 0x1;

pub const PMP_W: u64 = 0x2;

pub const PMP_X: u64 = 0x4;

pub const PMP_A_TOR: u64 = 0x8;

pub const PMP_A_NAPOT: u64 = 0x18;

/// `pmpcfg0` of the layout: entries 0-1 TOR no access, 2 TOR RX, 3 TOR R,
/// 4 NAPOT RW.
pub const PMP_CFG0: u64 = 0x1B_090D_0808;

/// TOR `pmpaddr` for a region ending at `end`: `end / 4`, rounded up.
pub open spec fn tor_addr(end: u64) -> u64 {
    (end / 4 + if end % 4 != 0 {
        1u64
    } else {
        0u64
    }) as u64
}

/// NAPOT `pmpaddr` for the 4 KiB page at `base`.
pub open spec fn napot_4k(base: u64) -> u64 {
    (base >> 2u64) | 0x1FFu64
}

fn tor_pmpaddr(end: u64) -> (r: u64)
    ensures
        r == tor_addr(end),
{
    end / 4 + if end % 4 != 0 {
        1
    } else {
        0
    }
}

/// Program the PMP for `layout`: every entry cleared, then the five entries
/// of the layout. Returns the report of the result for the console.
pub fn init(regs: &mut PmpRegs, layout: &Layout, trap_stack_bottom: u64, trap_stack_top: u64) -> (r: Vec<u8>)
    requires
        old(regs).addr@.len() == PMP_ENTRIES,
    ensures
        final(regs).cfg0 == PMP_CFG0,
        final(regs).cfg2 == 0,
        final(regs).addr@ == Seq::new(PMP_ENTRIES as nat, |i: int| 0u64).update(
            0,
            layout.text_start >> 2u64,
        ).update(1, layout.user_text_start >> 2u64).update(2, tor_addr(layout.user_text_end)).update(
            3,
            tor_addr(layout.rodata_end),
        ),
        r@ == pmp_dump_text(*final(regs), *layout, trap_stack_bottom, trap_stack_top),
{
    regs.cfg0 = 0;
    regs.cfg2 = 0;
    let mut index: usize = 0;
    while index < PMP_ENTRIES
        invariant
            index <= PMP_ENTRIES,
            regs.addr@.len() == PMP_ENTRIES,
            forall|i: int| 0 <= i < index ==> regs.addr@[i] == 0,
        decreases PMP_ENTRIES - index,
    {
        cpu::set_pmpaddr(regs, index, 0);
        index = index + 1;
    }
    assert(regs.addr@ =~= Seq::new(PMP_ENTRIES as nat, |i: int| 0u64));
    cpu::set_pmpaddr(regs, 0, memory::text_start(layout) >> 2);
    cpu::set_pmpaddr(regs, 1, memory::user_text_start(layout) >> 2);
    cpu::set_pmpaddr(regs, 2, tor_pmpaddr(memory::user_text_end(layout)));
    cpu::set_pmpaddr(regs, 3, tor_pmpaddr(memory::rodata_end(layout)));
    cpu::set_pmpaddr(regs, 4, 0);
    let pmp0 = PMP_A_TOR;
    let pmp1 = PMP_A_TOR;
    let pmp2 = PMP_R | PMP_X | PMP_A_TOR;
    let pmp3 = PMP_R | PMP_A_TOR;
    let pmp4 = PMP_R | PMP_W | PMP_A_NAPOT;
    let cfg = pmp0 | (pmp1 << 8u64) | (pmp2 << 16u64) | (pmp3 << 24u64) | (pmp4 << 32u64);
    assert(cfg == PMP_CFG0) by (bit_vector)
        requires
            cfg == 0x8u64 | (0x8u64 << 8u64) | ((0x1u64 | 0x4u64 | 0x8u64) << 16u64) | ((0x1u64
                | 0x8u64) << 24u64) | ((0x1u64 | 0x2u64 | 0x18u64) << 32u64),
    ;
    regs.cfg0 = cfg;
    regs.cfg2 = 0;
    dump(regs, layout, trap_stack_bottom, trap_stack_top)
}

/// Console lines `pmpaddr<i>: <hex>` for the first `n` entries of `addr`.
pub open spec fn pmpaddr_lines(addr: Seq<u64>, n: nat) -> Seq<u8>
    decreases n,
{
    if n == 0 {
        Seq::empty()
    } else {
        pmpaddr_lines(addr, (n - 1) as nat) + crlf("pmpaddr".spec_bytes()) + dec_text(
            (n - 1) as u64,
        ) + crlf(": ".spec_bytes()) + hex_text(addr[n - 1]) + line_bytes("".spec_bytes())
    }
}

/// The title of the PMP report and the `.usertext` bounds.
pub open spec fn pmp_dump_head(layout: Layout) -> Seq<u8> {
    line_bytes("".spec_bytes()) + line_bytes("PMP (TOR usertext/rodata, NAPOT stack):".spec_bytes())
        + crlf("user text: ".spec_bytes()) + hex_text(layout.user_text_start) + crlf(
        " - ".spec_bytes(),
    ) + hex_text(layout.user_text_end) + line_bytes("".spec_bytes())
}

/// Console report of the PMP programming: the `.usertext` and trap stack
/// bounds, both `pmpcfg` registers and every `pmpaddr`.
pub open spec fn pmp_dump_text(regs: PmpRegs, layout: Layout, trap_stack_bottom: u64, trap_stack_top: u64) -> Seq<u8> {
    pmp_dump_head(layout) + crlf("trap stack: ".spec_bytes()) + hex_text(trap_stack_bottom) + crlf(
        " - ".spec_bytes(),
    ) + hex_text(trap_stack_top) + line_bytes("".spec_bytes()) + crlf("pmpcfg0: ".spec_bytes())
        + hex_text(regs.cfg0) + line_bytes("".spec_bytes()) + crlf("pmpcfg2: ".spec_bytes())
        + hex_text(regs.cfg2) + line_bytes("".spec_bytes()) + pmpaddr_lines(
        regs.addr@,
        PMP_ENTRIES as nat,
    )
}

/// The PMP report written to the console after programming.
pub fn dump(regs: &PmpRegs, layout: &Layout, trap_stack_bottom: u64, trap_stack_top: u64) -> (r: Vec<u8>)
    requires
        regs.addr@.len() == PMP_ENTRIES,
    ensures
        r@ == pmp_dump_text(*regs, *layout, trap_stack_bottom, trap_stack_top),
{
    let mut out = uart::write_line("");
    let mut a = uart::write_line("PMP (TOR usertext/rodata, NAPOT stack):");
    out.append(&mut a);
    let mut b = uart::write_str("user text: ");
    out.append(&mut b);
    let mut c = uart::write_hex_u64(memory::user_text_start(layout));
    out.append(&mut c);
    let mut d = uart::write_str(" - ");
    out.append(&mut d);
    let mut e = uart::write_hex_u64(memory::user_text_end(layout));
    out.append(&mut e);
    let mut f = uart::write_line("");
    out.append(&mut f);
    proof {
        assert(out@ =~= pmp_dump_head(*layout));
    }
    let mut g = uart::write_str("trap stack: ");
    out.append(&mut g);
    let mut h = uart::write_hex_u64(trap_stack_bottom);
    out.append(&mut h);
    let mut i = uart::write_str(" - ");
    out.append(&mut i);
    let mut j = uart::write_hex_u64(trap_stack_top);
    out.append(&mut j);
    let mut k = uart::write_line("");
    out.append(&mut k);
    let mut l = uart::write_str("pmpcfg0: ");
    out.append(&mut l);
    let mut m = uart::write_hex_u64(regs.cfg0);
    out.append(&mut m);
    let mut n = uart::write_line("");
    out.append(&mut n);
    let mut o = uart::write_str("pmpcfg2: ");
    out.append(&mut o);
    let mut q = uart::write_hex_u64(regs.cfg2);
    out.append(&mut q);
    let mut t = uart::write_line("");
    out.append(&mut t);
    assert(out@ =~= pmp_dump_head(*layout) + crlf("trap stack: ".spec_bytes()) + hex_text(
        trap_stack_bottom,
    ) + crlf(" - ".spec_bytes()) + hex_text(trap_stack_top) + line_bytes("".spec_bytes()) + crlf(
        "pmpcfg0: ".spec_bytes(),
    ) + hex_text(regs.cfg0) + line_bytes("".spec_bytes()) + crlf("pmpcfg2: ".spec_bytes())
        + hex_text(regs.cfg2) + line_bytes("".spec_bytes()));
    let ghost head = out@;
    let mut index: usize = 0;
    while index < PMP_ENTRIES
        invariant
            index <= PMP_ENTRIES,
            regs.addr@.len() == PMP_ENTRIES,
            out@ == head + pmpaddr_lines(regs.addr@, index as nat),
        decreases PMP_ENTRIES - index,
    {
        let mut u = uart::write_str("pmpaddr");
        out.append(&mut u);
        let mut v = uart::write_dec_u64(index as u64);
        out.append(&mut v);
        let mut w = uart::write_str(": ");
        out.append(&mut w);
        let mut x = uart::write_hex_u64(cpu::pmpaddr(regs, index));
        out.append(&mut x);
        let mut y = uart::write_line("");
        out.append(&mut y);
        index = index + 1;
        assert(out@ =~= head + pmpaddr_lines(regs.addr@, index as nat));
    }
    out
}

/// Point the NAPOT stack entry (pmp4) at the 4 KiB stack page at `stack_start`.
pub fn set_current_stack(regs: &mut PmpRegs, stack_start: u64)
    requires
        old(regs).addr@.len() == PMP_ENTRIES,
    ensures
        final(regs).cfg0 == old(regs).cfg0,
        final(regs).cfg2 == old(regs).cfg2,
        final(regs).addr@ == old(regs).addr@.update(4, napot_4k(stack_start)),
{
    cpu::set_pmpaddr(regs, 4, (stack_start >> 2) | 0x1FF);
}

/// For a 4 KiB-aligned page the NAPOT encoding has exactly nine trailing
/// ones, so it covers 2^12 bytes, and clearing them gives back the page base.
pub proof fn lemma_napot_4k_covers_page(base: u64)
    requires
        base % 4096 == 0,
    ensures
        napot_4k(base) & 0x3FF == 0x1FF,
        (napot_4k(base) & !0x1FFu64) << 2u64 == base,
{
    assert(((base >> 2u64) | 0x1FFu64) & 0x3FFu64 == 0x1FFu64 && (((base >> 2u64) | 0x1FFu64)
        & !0x1FFu64) << 2u64 == base) by (bit_vector)
        requires
            base % 4096 == 0,
    ;
}

/// A TOR entry ending at `end` covers every byte below `end`: the region
/// boundary `4 * tor_addr(end)` is the first multiple of 4 at or past `end`.
pub proof fn lemma_tor_covers_end(end: u64)
    ensures
        end <= 4 * tor_addr(end) < end + 4,
{
}

} // verus!

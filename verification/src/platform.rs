//! QEMU `virt` riscv64 platform constants and address maps.
use vstd::prelude::*;

verus! {

/// Name of the board.
pub const NAME: &'static str = "QEMU virt riscv64";

pub const UART0_BASE: usize = 0x1000_0000;

/// NS16550 Line Status Register (byte offset 5).
pub const UART0_LSR: usize = 0x1000_0005;

/// Transmit Holding Register Empty.
pub const UART_LSR_THRE: u8 = 0x20;

pub const CLINT_BASE: usize = 0x0200_0000;

pub const CLINT_MTIME: usize = 0x0200_BFF8;

pub const TIMEBASE_FREQ: u64 = 10_000_000;

pub const RAM_START: usize = 0x8000_0000;

pub const RAM_SIZE: usize = 0x0800_0000;

/// QEMU virt topology bound; harts at or above it never index kernel tables.
pub const HART_SLOTS: usize = 8;

/// CLINT software-interrupt (`msip`) register of `hart`.
pub fn clint_msip(hart: usize) -> (addr: usize)
    requires
        CLINT_BASE + 4 * hart <= usize::MAX,
    ensures
        addr == CLINT_BASE + 4 * hart,
{
    CLINT_BASE + 4 * hart
}

/// CLINT timer-compare (`mtimecmp`) register of `hart`.
pub fn clint_mtimecmp(hart: usize) -> (addr: usize)
    requires
        CLINT_BASE + 0x4000 + 8 * hart <= usize::MAX,
    ensures
        addr == CLINT_BASE + 0x4000 + 8 * hart,
{
    CLINT_BASE + 0x4000 + 8 * hart
}

} // verus!

//! RISC-V machine-mode helpers.
pub mod cpu;
pub mod pmp;
pub mod timer;
pub mod traps;

use vstd::prelude::*;
use vstd::string::*;
use crate::drivers::uart::{self, crlf, hex_text, line_bytes};

verus! {

/// Bytes of a trap stack.
pub const TRAP_STACK_SIZE: u64 = 4096;

/// Bytes of the boot kernel stack.
pub const KERNEL_STACK_SIZE: u64 = 0x10000;

/// `addr` lies in the trap stack that ends at `top`.
pub fn is_trap_stack_addr(addr: u64, top: u64) -> (r: bool)
    requires
        top >= TRAP_STACK_SIZE,
    ensures
        r == (top - TRAP_STACK_SIZE <= addr < top),
{
    addr >= top - TRAP_STACK_SIZE && addr < top
}

/// `addr` lies in the kernel stack that ends at `top`.
pub fn is_kernel_stack_addr(addr: u64, top: u64) -> (r: bool)
    requires
        top >= KERNEL_STACK_SIZE,
    ensures
        r == (top - KERNEL_STACK_SIZE <= addr < top),
{
    addr >= top - KERNEL_STACK_SIZE && addr < top
}

/// The machine CSRs and stack pointer the boot report shows.
#[derive(Clone, Copy)]
pub struct CpuInfo {
    pub mhartid: u64,
    pub mstatus: u64,
    pub mtvec: u64,
    pub mepc: u64,
    pub mcause: u64,
    pub mie: u64,
    pub mip: u64,
    pub sp: u64,
}

/// Console text of one named register value.
pub open spec fn reg_line(name: Seq<u8>, value: u64) -> Seq<u8> {
    crlf(name) + hex_text(value) + line_bytes("".spec_bytes())
}

fn print_reg(name: &str, value: u64) -> (r: Vec<u8>)
    ensures
        r@ == reg_line(name.spec_bytes(), value),
{
    let mut out = uart::write_str(name);
    let mut a = uart::write_hex_u64(value);
    out.append(&mut a);
    let mut b = uart::write_line("");
    out.append(&mut b);
    out
}

/// Console text of the boot CPU report.
pub open spec fn cpu_info_text(info: CpuInfo) -> Seq<u8> {
    line_bytes("riscv64 CPU info:".spec_bytes()) + reg_line("mhartid: ".spec_bytes(), info.mhartid)
        + line_bytes("harts present: 1".spec_bytes()) + reg_line("mstatus: ".spec_bytes(), info.mstatus)
        + reg_line("mtvec: ".spec_bytes(), info.mtvec) + reg_line("mepc: ".spec_bytes(), info.mepc)
        + reg_line("mcause: ".spec_bytes(), info.mcause) + reg_line("mie: ".spec_bytes(), info.mie)
        + reg_line("mip: ".spec_bytes(), info.mip) + reg_line("SP: ".spec_bytes(), info.sp)
}

pub fn print_cpu_info(info: CpuInfo) -> (r: Vec<u8>)
    ensures
        r@ == cpu_info_text(info),
{
    let mut out = uart::write_line("riscv64 CPU info:");
    let mut a = print_reg("mhartid: ", info.mhartid);
    out.append(&mut a);
    let mut b = uart::write_line("harts present: 1");
    out.append(&mut b);
    let mut c = print_reg("mstatus: ", info.mstatus);
    out.append(&mut c);
    let mut d = print_reg("mtvec: ", info.mtvec);
    out.append(&mut d);
    let mut e = print_reg("mepc: ", info.mepc);
    out.append(&mut e);
    let mut f = print_reg("mcause: ", info.mcause);
    out.append(&mut f);
    let mut g = print_reg("mie: ", info.mie);
    out.append(&mut g);
    let mut h = print_reg("mip: ", info.mip);
    out.append(&mut h);
    let mut i = print_reg("SP: ", info.sp);
    out.append(&mut i);
    out
}

/// Console text of the trap set-up report.
pub open spec fn exceptions_text(mtvec: u64, trap_stack_top: u64) -> Seq<u8> {
    reg_line("mtvec: ".spec_bytes(), mtvec) + reg_line("trap stack top: ".spec_bytes(), trap_stack_top)
}

/// The report printed once the trap vector and trap stack are installed.
pub fn print_exceptions_setup(mtvec: u64, trap_stack_top: u64) -> (r: Vec<u8>)
    ensures
        r@ == exceptions_text(mtvec, trap_stack_top),
{
    let mut out = print_reg("mtvec: ", mtvec);
    let mut a = print_reg("trap stack top: ", trap_stack_top);
    out.append(&mut a);
    out
}

} // verus!

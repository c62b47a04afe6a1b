//! The boot banner and the capability list.
use vstd::prelude::*;
use vstd::string::*;
use crate::drivers::uart::{self, line_bytes};

verus! {

/// Console text of the boot banner.
pub open spec fn boot_banner_text() -> Seq<u8> {
    line_bytes("================================".spec_bytes()) + line_bytes("PicoOS 0.3.0".spec_bytes())
        + line_bytes("Frame Kernel".spec_bytes()) + line_bytes(
        "================================".spec_bytes(),
    )
}

pub fn print_boot_banner() -> (r: Vec<u8>)
    ensures
        r@ == boot_banner_text(),
{
    let mut out = uart::write_line("================================");
    let mut a = uart::write_line("PicoOS 0.3.0");
    out.append(&mut a);
    let mut b = uart::write_line("Frame Kernel");
    out.append(&mut b);
    let mut c = uart::write_line("================================");
    out.append(&mut c);
    out
}

/// Console text of the capability list.
pub open spec fn capabilities_text() -> Seq<u8> {
    line_bytes("".spec_bytes()) + line_bytes("kernel capabilities:".spec_bytes()) + line_bytes(
        "- architecture: riscv64".spec_bytes(),
    ) + line_bytes("- UART console".spec_bytes()) + line_bytes("- U-mode frames".spec_bytes())
        + line_bytes("- PMP: U-X only .usertext (kernel .text fetch faults the task)".spec_bytes())
        + line_bytes("- ecall yield/sleep/exit/log/spawn/join/send/recv/gettid".spec_bytes())
        + line_bytes("- timer preemption via mret".spec_bytes()) + line_bytes(
        "- page allocator with free and reap".spec_bytes(),
    ) + line_bytes("- contract-checked resume (mepc in .usertext)".spec_bytes()) + line_bytes(
        "- copy-IPC rendezvous (32 B)".spec_bytes(),
    )
}

pub fn print_capabilities() -> (r: Vec<u8>)
    ensures
        r@ == capabilities_text(),
{
    let mut out = uart::write_line("");
    let mut a = uart::write_line("kernel capabilities:");
    out.append(&mut a);
    let mut b = uart::write_line("- architecture: riscv64");
    out.append(&mut b);
    let mut c = uart::write_line("- UART console");
    out.append(&mut c);
    let mut d = uart::write_line("- U-mode frames");
    out.append(&mut d);
    let mut e = uart::write_line("- PMP: U-X only .usertext (kernel .text fetch faults the task)");
    out.append(&mut e);
    let mut f = uart::write_line("- ecall yield/sleep/exit/log/spawn/join/send/recv/gettid");
    out.append(&mut f);
    let mut g = uart::write_line("- timer preemption via mret");
    out.append(&mut g);
    let mut h = uart::write_line("- page allocator with free and reap");
    out.append(&mut h);
    let mut i = uart::write_line("- contract-checked resume (mepc in .usertext)");
    out.append(&mut i);
    let mut j = uart::write_line("- copy-IPC rendezvous (32 B)");
    out.append(&mut j);
    out
}

} // verus!

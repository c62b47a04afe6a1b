//! Boot contracts: the scenario byte patched into the image selects what the
//! kernel runs and which result markers it prints.
use vstd::prelude::*;
use vstd::string::*;
use crate::drivers::uart::{self, crlf, line_bytes};
use crate::kernel::irq_cell::IrqCell;

verus! {

#[derive(Clone, Copy, Debug, PartialEq, Eq, Structural)]
pub enum BootContract {
    Default,
    Resume,
    Handoff,
    Sleep,
    Fault,
    Preempt,
    Reap,
    KernelFault,
    Ipc,
    UserText,
}

/// Contract named by a scenario byte; unknown bytes select `Default`.
pub open spec fn contract_of(byte: u8) -> BootContract {
    if byte == 1 {
        BootContract::Resume
    } else if byte == 2 {
        BootContract::Handoff
    } else if byte == 3 {
        BootContract::Sleep
    } else if byte == 4 {
        BootContract::Fault
    } else if byte == 5 {
        BootContract::Preempt
    } else if byte == 6 {
        BootContract::Reap
    } else if byte == 7 {
        BootContract::KernelFault
    } else if byte == 8 {
        BootContract::Ipc
    } else if byte == 9 {
        BootContract::UserText
    } else {
        BootContract::Default
    }
}

/// Scenario byte of a contract.
pub open spec fn byte_of(c: BootContract) -> u8 {
    match c {
        BootContract::Default => 0,
        BootContract::Resume => 1,
        BootContract::Handoff => 2,
        BootContract::Sleep => 3,
        BootContract::Fault => 4,
        BootContract::Preempt => 5,
        BootContract::Reap => 6,
        BootContract::KernelFault => 7,
        BootContract::Ipc => 8,
        BootContract::UserText => 9,
    }
}

pub open spec fn name_of(c: BootContract) -> &'static str {
    match c {
        BootContract::Default => "default",
        BootContract::Resume => "resume",
        BootContract::Handoff => "handoff",
        BootContract::Sleep => "sleep",
        BootContract::Fault => "fault",
        BootContract::Preempt => "preempt",
        BootContract::Reap => "reap",
        BootContract::KernelFault => "kernel_fault",
        BootContract::Ipc => "ipc",
        BootContract::UserText => "user_text",
    }
}

impl BootContract {
    pub fn from_byte(byte: u8) -> (r: Self)
        ensures
            r == contract_of(byte),
    {
        match byte {
            1 => Self::Resume,
            2 => Self::Handoff,
            3 => Self::Sleep,
            4 => Self::Fault,
            5 => Self::Preempt,
            6 => Self::Reap,
            7 => Self::KernelFault,
            8 => Self::Ipc,
            9 => Self::UserText,
            _ => Self::Default,
        }
    }

    pub fn name(self) -> (r: &'static str)
        ensures
            r == name_of(self),
    {
        match self {
            Self::Default => "default",
            Self::Resume => "resume",
            Self::Handoff => "handoff",
            Self::Sleep => "sleep",
            Self::Fault => "fault",
            Self::Preempt => "preempt",
            Self::Reap => "reap",
            Self::KernelFault => "kernel_fault",
            Self::Ipc => "ipc",
            Self::UserText => "user_text",
        }
    }

    pub fn is_known_byte(byte: u8) -> (r: bool)
        ensures
            r == (byte <= 9),
    {
        byte <= 9
    }
}

/// Every contract is selected by its own byte, which is a known byte.
pub proof fn lemma_contract_byte_roundtrip(c: BootContract)
    ensures
        byte_of(c) <= 9,
        contract_of(byte_of(c)) == c,
{
}

pub fn plan(cell: &IrqCell<BootContract>) -> (r: BootContract)
    ensures
        r == cell.inner,
{
    cell.inner
}

pub fn set_plan(cell: &mut IrqCell<BootContract>, contract: BootContract)
    ensures
        final(cell).inner == contract,
{
    cell.inner = contract;
}

/// Adopt the contract named by the image's scenario byte and return the
/// console report; unknown bytes select `Default`.
pub fn apply_boot_contract(cell: &mut IrqCell<BootContract>, byte: u8) -> (r: Vec<u8>)
    ensures
        final(cell).inner == contract_of(byte),
        r@ == if byte <= 9 {
            crlf("boot contract: ".spec_bytes()).add(line_bytes(name_of(contract_of(byte)).spec_bytes()))
        } else {
            line_bytes("boot contract: unknown".spec_bytes())
        },
{
    if !BootContract::is_known_byte(byte) {
        set_plan(cell, BootContract::Default);
        return uart::write_line("boot contract: unknown");
    }
    let contract = BootContract::from_byte(byte);
    set_plan(cell, contract);
    let mut out = uart::write_str("boot contract: ");
    let mut line = uart::write_line(contract.name());
    out.append(&mut line);
    out
}

} // verus!

//! The state one hart's kernel keeps between traps.
use vstd::prelude::*;
use crate::arch::riscv64::cpu::{PmpRegs, PMP_ENTRIES};
use crate::kernel::contract::BootContract;
use crate::kernel::cpu::Cpu;
use crate::kernel::irq_cell::IrqCell;
use crate::kernel::memory::{Layout, PageAllocator};
use crate::kernel::task::scheduler::SchedMarkers;
use crate::kernel::task::table::{Task, TaskTable};
use crate::kernel::ticks::Ticks;

verus! {

pub struct Kernel {
    pub cpu: Cpu,
    pub table: TaskTable,
    pub mm: PageAllocator,
    pub layout: Layout,
    pub ticks: Ticks,
    pub plan: IrqCell<BootContract>,
    pub markers: SchedMarkers,
    pub pmp: PmpRegs,
    /// Address of the U-mode trampoline that fresh tasks enter through.
    pub user_trampoline: u64,
    /// The IPC rendezvous marker has been printed.
    pub rendezvous_printed: bool,
    /// Console bytes produced and not yet written to the UART.
    pub out: Vec<u8>,
}

impl Kernel {
    pub open spec fn wf(&self) -> bool {
        &&& self.table.wf()
        &&& self.mm.wf()
        &&& self.pmp.addr@.len() == PMP_ENTRIES
    }
}

/// `new_k` is `old_k` with task slot `l` replaced by `task`.
pub open spec fn task_set(old_k: &Kernel, new_k: &Kernel, l: int, task: Task) -> bool {
    &&& new_k.wf()
    &&& new_k.table.same_meta(&old_k.table)
    &&& new_k.table.tasks() == old_k.table.tasks().update(l, task)
    &&& *new_k == Kernel { table: new_k.table, ..*old_k }
}

/// Queue console bytes.
pub fn emit(k: &mut Kernel, mut bytes: Vec<u8>)
    ensures
        *final(k) == (Kernel { out: final(k).out, ..*old(k) }),
        final(k).out@ == old(k).out@ + bytes@,
{
    k.out.append(&mut bytes);
}

} // verus!

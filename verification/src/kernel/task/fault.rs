//! Trap faults: whether a fault belongs to the current task or to the kernel,
//! and marking the current task Faulted before scheduling on.
use vstd::prelude::*;
use vstd::string::*;
use crate::arch::riscv64::cpu::{self as hart, MSTATUS_MPP, MSTATUS_MPP_U};
use crate::arch::riscv64::{self as arch, KERNEL_STACK_SIZE, TRAP_STACK_SIZE};
use crate::drivers::uart::{self, crlf, hex_text, line_bytes};
use crate::kernel::cpu::{self, Cpu};
use crate::kernel::log::{self, log_line};
use crate::kernel::state::Kernel;
use crate::kernel::task::scheduler::{self, noted, switched, DispatchAction};
use crate::kernel::task::table::{
    self, faulted_task, fault_reason_of, fault_reason_text, id_local, TaskFaultReason,
    TaskId, TaskReturnKind, TaskState,
};

verus! {

#[derive(Clone, Copy, Debug, PartialEq, Eq, Structural)]
pub enum TrapFaultClassification {
    KernelFault,
    TaskFault,
}

/// A fault is the kernel's when no task is current, or when it was taken in
/// M-mode at an address in the trap or kernel stack; otherwise the current
/// task's.
pub open spec fn classify_spec(
    current: Option<TaskId>,
    mstatus: u64,
    mtval: u64,
    trap_stack_top: u64,
    kernel_stack_top: u64,
) -> TrapFaultClassification {
    if current is None {
        TrapFaultClassification::KernelFault
    } else if mstatus & MSTATUS_MPP == MSTATUS_MPP_U {
        TrapFaultClassification::TaskFault
    } else if (trap_stack_top - TRAP_STACK_SIZE <= mtval < trap_stack_top) || (kernel_stack_top
        - KERNEL_STACK_SIZE <= mtval < kernel_stack_top) {
        TrapFaultClassification::KernelFault
    } else {
        TrapFaultClassification::TaskFault
    }
}

pub fn classify_current_trap_fault(
    cpu: &Cpu,
    mstatus: u64,
    mtval: u64,
    trap_stack_top: u64,
    kernel_stack_top: u64,
) -> (r: TrapFaultClassification)
    requires
        trap_stack_top >= TRAP_STACK_SIZE,
        kernel_stack_top >= KERNEL_STACK_SIZE,
    ensures
        r == classify_spec(cpu.current, mstatus, mtval, trap_stack_top, kernel_stack_top),
{
    if cpu::current(cpu).is_none() {
        return TrapFaultClassification::KernelFault;
    }
    if hart::trapped_from_user(mstatus) {
        return TrapFaultClassification::TaskFault;
    }
    if arch::is_trap_stack_addr(mtval, trap_stack_top) || arch::is_kernel_stack_addr(
        mtval,
        kernel_stack_top,
    ) {
        return TrapFaultClassification::KernelFault;
    }
    TrapFaultClassification::TaskFault
}

/// The console report of a fault classification.
pub fn print_current_trap_fault_classification(c: TrapFaultClassification) -> (r: Vec<u8>)
    ensures
        r@ == line_bytes("trap fault classification:".spec_bytes()) + if c
            == TrapFaultClassification::KernelFault {
            line_bytes("  context: kernel".spec_bytes()) + line_bytes(
                "  classification: kernel fault".spec_bytes(),
            ) + line_bytes("  action: halt".spec_bytes())
        } else {
            line_bytes("  context: task".spec_bytes()) + line_bytes(
                "  classification: task fault".spec_bytes(),
            ) + line_bytes(
                "  action: mark current task faulted and return to scheduler".spec_bytes(),
            )
        },
{
    let mut out = uart::write_line("trap fault classification:");
    let (mut a, mut b, mut c2) = match c {
        TrapFaultClassification::KernelFault => (
            uart::write_line("  context: kernel"),
            uart::write_line("  classification: kernel fault"),
            uart::write_line("  action: halt"),
        ),
        TrapFaultClassification::TaskFault => (
            uart::write_line("  context: task"),
            uart::write_line("  classification: task fault"),
            uart::write_line("  action: mark current task faulted and return to scheduler"),
        ),
    };
    out.append(&mut a);
    out.append(&mut b);
    out.append(&mut c2);
    out
}

/// How recording a fault of the current task went.
pub enum FaultRecord {
    /// No task is current.
    NoCurrent,
    /// The current task had already faulted: the hart must stop.
    DoubleTrap(TaskId),
    /// The current task could not be marked Faulted.
    Failed,
    /// The current task is now Faulted.
    Recorded(TaskId, TaskFaultReason),
}

/// Console report of a recorded fault.
pub open spec fn fault_report(reason: TaskFaultReason, mcause: u64, mepc: u64, mtval: u64) -> Seq<u8> {
    crlf("  fault reason: ".spec_bytes()) + fault_reason_text(reason) + line_bytes("".spec_bytes())
        + crlf("  fault mcause: ".spec_bytes()) + hex_text(mcause) + line_bytes("".spec_bytes())
        + crlf("  fault mepc:   ".spec_bytes()) + hex_text(mepc) + line_bytes("".spec_bytes())
        + crlf("  fault mtval:  ".spec_bytes()) + hex_text(mtval) + line_bytes("".spec_bytes())
        + log_line("OK".spec_bytes(), "fault".spec_bytes(), "record task fault: OK".spec_bytes())
}

/// The effect of recording a fault of the current task.
pub open spec fn fault_recorded(old_k: &Kernel, new_k: &Kernel, mcause: u64, mepc: u64, mtval: u64, r: FaultRecord) -> bool {
    &&& new_k.wf()
    &&& match old_k.cpu.current {
        None => r is NoCurrent && *new_k == (Kernel { out: new_k.out, ..*old_k }) && new_k.out@
            == old_k.out@ + log_line(
            "FAIL".spec_bytes(),
            "fault".spec_bytes(),
            "record task fault with no current task".spec_bytes(),
        ),
        Some(id) => match old_k.table.slot_of(id) {
            Some(task) => if task.state == TaskState::Faulted {
                r == FaultRecord::DoubleTrap(id) && *new_k == (Kernel { out: new_k.out, ..*old_k })
                    && new_k.out@ == old_k.out@ + log_line(
                    "FAIL".spec_bytes(),
                    "fault".spec_bytes(),
                    "DOUBLE TRAP DETECTED (simulated)".spec_bytes(),
                ) + crlf("  task already Faulted: ".spec_bytes()) + table::name_prefix(task.name@)
                    + line_bytes("".spec_bytes()) + line_bytes(
                    "  system halted to prevent infinite trap loop".spec_bytes(),
                )
            } else {
                &&& r == FaultRecord::Recorded(id, fault_reason_of(mcause))
                &&& new_k.table.same_meta(&old_k.table)
                &&& new_k.table.tasks() == old_k.table.tasks().update(id_local(id), faulted_task(task))
                &&& *new_k == (Kernel { table: new_k.table, out: new_k.out, ..*old_k })
                &&& new_k.out@ == old_k.out@ + fault_report(fault_reason_of(mcause), mcause, mepc, mtval)
            },
            None => r is Failed && *new_k == (Kernel { out: new_k.out, ..*old_k }) && new_k.out@
                == old_k.out@ + log_line(
                "FAIL".spec_bytes(),
                "fault".spec_bytes(),
                "record task fault: FAILED".spec_bytes(),
            ),
        },
    }
}

fn append(out: &mut Vec<u8>, mut bytes: Vec<u8>)
    ensures
        final(out)@ == old(out)@ + bytes@,
{
    out.append(&mut bytes);
}

/// Mark the current task Faulted and report the fault.
pub fn record_current_task_fault(k: &mut Kernel, mcause: u64, mepc: u64, mtval: u64) -> (r: FaultRecord)
    requires
        old(k).wf(),
    ensures
        fault_recorded(old(k), final(k), mcause, mepc, mtval, r),
{
    let task_id = match cpu::current(&k.cpu) {
        Some(id) => id,
        None => {
            append(&mut k.out, log::fail("fault", "record task fault with no current task"));
            return FaultRecord::NoCurrent;
        },
    };
    match table::get_task_state(&k.table, task_id) {
        Some(TaskState::Faulted) => {
            append(&mut k.out, log::fail("fault", "DOUBLE TRAP DETECTED (simulated)"));
            append(&mut k.out, uart::write_str("  task already Faulted: "));
            append(&mut k.out, table::print_task_name_by_id(&k.table, task_id));
            append(&mut k.out, uart::write_line(""));
            append(&mut k.out, uart::write_line("  system halted to prevent infinite trap loop"));
            assert(k.out@ =~= old(k).out@ + log_line(
                "FAIL".spec_bytes(),
                "fault".spec_bytes(),
                "DOUBLE TRAP DETECTED (simulated)".spec_bytes(),
            ) + crlf("  task already Faulted: ".spec_bytes()) + table::name_prefix(
                old(k).table.slot_of(task_id)->Some_0.name@,
            ) + line_bytes("".spec_bytes()) + line_bytes(
                "  system halted to prevent infinite trap loop".spec_bytes(),
            ));
            return FaultRecord::DoubleTrap(task_id);
        },
        _ => {},
    }
    let fault_reason = match table::record_task_fault(&mut k.table, task_id, mcause) {
        Some(r) => r,
        None => {
            append(&mut k.out, log::fail("fault", "record task fault: FAILED"));
            return FaultRecord::Failed;
        },
    };
    append(&mut k.out, uart::write_str("  fault reason: "));
    append(&mut k.out, table::print_task_fault_reason(fault_reason));
    append(&mut k.out, uart::write_line(""));
    append(&mut k.out, uart::write_str("  fault mcause: "));
    append(&mut k.out, uart::write_hex_u64(mcause));
    append(&mut k.out, uart::write_line(""));
    append(&mut k.out, uart::write_str("  fault mepc:   "));
    append(&mut k.out, uart::write_hex_u64(mepc));
    append(&mut k.out, uart::write_line(""));
    append(&mut k.out, uart::write_str("  fault mtval:  "));
    append(&mut k.out, uart::write_hex_u64(mtval));
    append(&mut k.out, uart::write_line(""));
    append(&mut k.out, log::ok("fault", "record task fault: OK"));
    assert(k.out@ =~= old(k).out@ + fault_report(fault_reason_of(mcause), mcause, mepc, mtval));
    FaultRecord::Recorded(task_id, fault_reason)
}

/// Exception code of a `mcause` value (the interrupt bit cleared).
pub open spec fn cause_code(mcause: u64) -> u64 {
    mcause & 0x7FFF_FFFF_FFFF_FFFFu64
}

/// The fault was a PMP-denied load or store.
pub open spec fn is_pmp_deny(mcause: u64) -> bool {
    fault_reason_of(cause_code(mcause)) == TaskFaultReason::StoreAccessFault || fault_reason_of(
        cause_code(mcause),
    ) == TaskFaultReason::LoadAccessFault
}

/// The effect of a U-mode fault: the current task is marked Faulted, the
/// fault is reported, and the hart dispatches the task after it (or halts
/// when the fault could not be recorded).
pub open spec fn user_fault_switched(old_k: &Kernel, new_k: &Kernel, mcause: u64, mepc: u64, mtval: u64, r: DispatchAction) -> bool {
    exists|k1: Kernel, rec: FaultRecord, k2: Kernel, k3: Kernel, k4: Kernel|
        #![trigger fault_recorded(&k1, &k2, mcause, mepc, mtval, rec), noted(&k3, &k4, TaskReturnKind::Fault)]
        {
            &&& k1.out@ == old_k.out@ + log_line(
                "INFO".spec_bytes(),
                "trap".spec_bytes(),
                "marking current task as Faulted".spec_bytes(),
            )
            &&& k1 == (Kernel { out: k1.out, ..*old_k })
            &&& fault_recorded(&k1, &k2, mcause, mepc, mtval, rec)
            &&& if rec is Recorded {
                &&& k3 == (Kernel { out: k3.out, ..k2 })
                &&& k3.out@ == k2.out@ + if is_pmp_deny(mcause) {
                    line_bytes("pmp deny: task fault OK".spec_bytes())
                } else {
                    Seq::<u8>::empty()
                }
                &&& noted(&k3, &k4, TaskReturnKind::Fault)
                &&& switched(
                    &Kernel { cpu: Cpu { current: None, ..k4.cpu }, ..k4 },
                    new_k,
                    table::next_dispatchable_spec(&k4.table, k4.layout, k4.cpu.current),
                    r,
                )
            } else {
                r is Halt && *new_k == k2
            }
        }
}

/// A U-mode fault: mark the current task Faulted and dispatch the next task.
pub fn record_and_switch_user_fault(k: &mut Kernel, mcause: u64, mepc: u64, mtval: u64) -> (r: DispatchAction)
    requires
        old(k).wf(),
    ensures
        final(k).wf(),
        user_fault_switched(old(k), final(k), mcause, mepc, mtval, r),
{
    append(&mut k.out, log::info("trap", "marking current task as Faulted"));
    let ghost k1 = *k;
    let rec = record_current_task_fault(k, mcause, mepc, mtval);
    match rec {
        FaultRecord::Recorded(_, _) => {},
        _ => {
            proof {
                let kk = *k;
                assert(fault_recorded(&k1, &kk, mcause, mepc, mtval, rec));
                let _ = noted(&kk, &kk, TaskReturnKind::Fault);
            }
            return DispatchAction::Halt;
        },
    }
    let ghost k2 = *k;
    let reason = TaskFaultReason::from_mcause(mcause & 0x7FFF_FFFF_FFFF_FFFF);
    if reason == TaskFaultReason::StoreAccessFault || reason == TaskFaultReason::LoadAccessFault {
        append(&mut k.out, uart::write_line("pmp deny: task fault OK"));
    }
    let ghost k3 = *k;
    scheduler::note_default_image_return(k, TaskReturnKind::Fault);
    let ghost k4 = *k;
    let after = cpu::current(&k.cpu);
    cpu::clear_current(&mut k.cpu);
    let r = scheduler::switch_after(k, after);
    proof {
        assert(k3.out@ == k2.out@ + if is_pmp_deny(mcause) {
            line_bytes("pmp deny: task fault OK".spec_bytes())
        } else {
            Seq::<u8>::empty()
        });
        assert(fault_recorded(&k1, &k2, mcause, mepc, mtval, rec));
        assert(noted(&k3, &k4, TaskReturnKind::Fault));
    }
    r
}

} // verus!

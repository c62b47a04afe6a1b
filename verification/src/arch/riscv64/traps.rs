//! The machine trap handler: timer ticks, system calls and faults.
use vstd::prelude::*;
use vstd::string::*;
use crate::arch::riscv64::timer;
use crate::arch::riscv64::{KERNEL_STACK_SIZE, TRAP_STACK_SIZE};
use crate::drivers::uart::{self, crlf, dec_text, hex_text, line_bytes};
use crate::kernel::cpu::{self, Cpu};
use crate::kernel::log::{self, log_line};
use crate::kernel::memory::Layout;
use crate::kernel::state::{emit, task_set, Kernel};
use crate::kernel::sys::{self, ecall_effect, EcallAction, TrapCsrs};
use crate::kernel::task::fault::{
    self, classify_spec, user_fault_switched, TrapFaultClassification,
};
use crate::kernel::task::scheduler::{self, switched, DispatchAction};
use crate::kernel::task::table::{
    self, id_local, next_dispatchable_spec, preempted_task, wakes_at, woken_task, count_wakes,
    Task, TaskId, TaskTable,
};
use crate::kernel::task::{context_values_text, full_context_text, print_task_context_values};
use crate::kernel::ticks::{self, Ticks};
use crate::kernel::trap_frame::{Riscv64TrapFrame, TrapImage};
use crate::platform::TIMEBASE_FREQ;

verus! {

/// Timer interrupts per second.
pub const TIMER_HZ: u64 = 1;

/// `mcause` with the interrupt bit cleared.
pub const CAUSE_CODE_MASK: u64 = 0x7FFF_FFFF_FFFF_FFFF;

/// The trap was an interrupt.
pub open spec fn is_interrupt(cause: u64) -> bool {
    cause >> 63u64 != 0
}

/// The exception or interrupt code of a trap.
pub open spec fn trap_code(cause: u64) -> u64 {
    cause & CAUSE_CODE_MASK
}

/// Name of a trap cause.
pub open spec fn trap_name(interrupt: bool, code: u64) -> &'static str {
    if !interrupt {
        if code == 0 {
            "instruction address misaligned"
        } else if code == 1 {
            "instruction access fault"
        } else if code == 2 {
            "illegal instruction"
        } else if code == 3 {
            "breakpoint"
        } else if code == 5 {
            "load access fault"
        } else if code == 7 {
            "store access fault"
        } else if code == 8 {
            "environment call from U-mode"
        } else if code == 9 {
            "environment call from S-mode"
        } else if code == 11 {
            "environment call from M-mode"
        } else {
            "unknown"
        }
    } else if code == 3 {
        "machine software interrupt"
    } else if code == 7 {
        "machine timer interrupt"
    } else if code == 11 {
        "machine external interrupt"
    } else {
        "unknown"
    }
}

/// Console report of a trap cause: its type, code and name.
pub open spec fn trap_cause_text(cause: u64) -> Seq<u8> {
    let interrupt = is_interrupt(cause);
    crlf("trap type: ".spec_bytes()) + line_bytes(
        if interrupt {
            "interrupt".spec_bytes()
        } else {
            "exception".spec_bytes()
        },
    ) + crlf("trap code: ".spec_bytes()) + dec_text(trap_code(cause)) + line_bytes(
        "".spec_bytes(),
    ) + crlf("trap name: ".spec_bytes()) + line_bytes(trap_name(interrupt, trap_code(cause)).spec_bytes())
}

fn trap_name_of(interrupt: bool, code: u64) -> (r: &'static str)
    ensures
        r == trap_name(interrupt, code),
{
    if !interrupt {
        match code {
            0 => "instruction address misaligned",
            1 => "instruction access fault",
            2 => "illegal instruction",
            3 => "breakpoint",
            5 => "load access fault",
            7 => "store access fault",
            8 => "environment call from U-mode",
            9 => "environment call from S-mode",
            11 => "environment call from M-mode",
            _ => "unknown",
        }
    } else {
        match code {
            3 => "machine software interrupt",
            7 => "machine timer interrupt",
            11 => "machine external interrupt",
            _ => "unknown",
        }
    }
}

pub fn print_trap_cause(cause: u64) -> (r: Vec<u8>)
    ensures
        r@ == trap_cause_text(cause),
{
    let interrupt = (cause >> 63u64) != 0;
    let code = cause & CAUSE_CODE_MASK;
    let mut out = uart::write_str("trap type: ");
    let mut kind = if interrupt {
        uart::write_line("interrupt")
    } else {
        uart::write_line("exception")
    };
    out.append(&mut kind);
    let mut a = uart::write_str("trap code: ");
    out.append(&mut a);
    let mut b = uart::write_dec_u64(code);
    out.append(&mut b);
    let mut c = uart::write_line("");
    out.append(&mut c);
    let mut d = uart::write_str("trap name: ");
    out.append(&mut d);
    let mut e = uart::write_line(trap_name_of(interrupt, code));
    out.append(&mut e);
    out
}

/// The slots after a tick at `tick` wakes the sleepers it has reached.
pub open spec fn sleepers_woken(tasks: Seq<Task>, tick: u64, layout: Layout) -> Seq<Task> {
    Seq::new(
        tasks.len(),
        |j: int|
            if wakes_at(tasks[j], tick) {
                woken_task(tasks[j], layout)
            } else {
                tasks[j]
            },
    )
}

/// The console name of task `id`, empty when there is none.
pub open spec fn name_of(t: &TaskTable, id: TaskId) -> Seq<u8> {
    match t.slot_of(id) {
        Some(task) => table::name_prefix(task.name@),
        None => Seq::<u8>::empty(),
    }
}

/// The line a timer tick prints, and the lines that follow it.
pub open spec fn tick_report(
    t: &TaskTable,
    current: Option<TaskId>,
    next: Option<TaskId>,
    tick: u64,
    woke: int,
    saved_sp: u64,
    saved_pc: u64,
    preempt_scenario: bool,
) -> Seq<u8> {
    crlf("tick: ".spec_bytes()) + dec_text(tick) + crlf(" saved current: ".spec_bytes()) + match current {
        Some(id) => name_of(t, id) + context_values_text(saved_sp, saved_pc),
        None => crlf("none".spec_bytes()),
    } + crlf(" decision next: ".spec_bytes()) + match next {
        Some(id) => name_of(t, id),
        None => crlf("idle".spec_bytes()),
    } + crlf(" mode: mret".spec_bytes()) + crlf(" woke: ".spec_bytes()) + dec_text(woke as u64)
        + crlf(" context:".spec_bytes()) + match current {
        Some(id) => full_context_text(t, id),
        None => crlf(" none".spec_bytes()),
    } + line_bytes("".spec_bytes()) + log_line(
        "INFO".spec_bytes(),
        "timer".spec_bytes(),
        "scheduler decision computed".spec_bytes(),
    ) + if preempt_scenario && next is Some {
        log_line("OK".spec_bytes(), "timer".spec_bytes(), "preemption: mret to worker".spec_bytes())
            + line_bytes("timer preemption result: OK".spec_bytes())
    } else {
        Seq::<u8>::empty()
    }
}

/// The interrupted task, if any, saved Ready to resume where it was.
pub open spec fn preemption_saved(old_k: &Kernel, k1: &Kernel, frame: Riscv64TrapFrame, csrs: TrapCsrs) -> bool {
    match old_k.cpu.current {
        Some(id) => match old_k.table.slot_of(id) {
            Some(task) => task_set(
                old_k,
                k1,
                id_local(id),
                preempted_task(task, TrapImage { gpr: frame, mepc: csrs.mepc, mstatus: csrs.mstatus }),
            ),
            None => *k1 == *old_k,
        },
        None => *k1 == *old_k,
    }
}

/// The tick counter advanced and the sleepers it reached woke.
pub open spec fn ticked(k1: &Kernel, k2: &Kernel) -> bool {
    &&& k2.wf()
    &&& k2.table.same_meta(&k1.table)
    &&& k2.table.tasks() == sleepers_woken(k1.table.tasks(), (k1.ticks.count + 1) as u64, k1.layout)
    &&& *k2 == Kernel { table: k2.table, ticks: Ticks { count: (k1.ticks.count + 1) as u64 }, ..*k1 }
}

/// The effect of a timer interrupt at machine time `now`. The interrupted
/// task is saved Ready, the tick advances and wakes sleepers, the decision is
/// reported, and the next dispatchable task after the interrupted one runs;
/// `r.1` is the timer compare value of the next tick.
pub open spec fn tick_effect(
    old_k: &Kernel,
    new_k: &Kernel,
    frame: Riscv64TrapFrame,
    csrs: TrapCsrs,
    now: u64,
    preempt_scenario: bool,
    r: (DispatchAction, u64),
) -> bool {
    let current = old_k.cpu.current;
    &&& r.1 == (now as int + (TIMEBASE_FREQ / TIMER_HZ) as int) % 0x1_0000_0000_0000_0000
    &&& exists|k1: Kernel, k2: Kernel, k3: Kernel|
        #![trigger preemption_saved(old_k, &k1, frame, csrs), ticked(&k1, &k2), k3.out]
        {
            let tick = k2.ticks.count;
            let next = next_dispatchable_spec(&k2.table, k2.layout, current);
            &&& preemption_saved(old_k, &k1, frame, csrs)
            &&& ticked(&k1, &k2)
            &&& k3 == (Kernel { out: k3.out, ..k2 })
            &&& k3.out@ == k2.out@ + tick_report(
                &k2.table,
                current,
                next,
                tick,
                count_wakes(k1.table.tasks(), tick, k1.table.capacity()),
                frame.sp,
                csrs.mepc,
                preempt_scenario,
            )
            &&& switched(&k3, new_k, next, r.0)
        }
}

fn print_tick_report(
    t: &TaskTable,
    current: Option<TaskId>,
    next: Option<TaskId>,
    tick: u64,
    woke: usize,
    saved_sp: u64,
    saved_pc: u64,
    preempt_scenario: bool,
) -> (r: Vec<u8>)
    requires
        t.wf(),
    ensures
        r@ == tick_report(t, current, next, tick, woke as int, saved_sp, saved_pc, preempt_scenario),
{
    let mut out = uart::write_str("tick: ");
    let mut a = uart::write_dec_u64(tick);
    out.append(&mut a);
    let mut b = uart::write_str(" saved current: ");
    out.append(&mut b);
    match current {
        Some(id) => {
            let mut name = scheduler::print_task_name(t, id);
            out.append(&mut name);
            let mut values = print_task_context_values(saved_sp, saved_pc);
            out.append(&mut values);
        },
        None => {
            let mut none = uart::write_str("none");
            out.append(&mut none);
        },
    }
    let mut c = uart::write_str(" decision next: ");
    out.append(&mut c);
    match next {
        Some(id) => {
            let mut name = scheduler::print_task_name(t, id);
            out.append(&mut name);
        },
        None => {
            let mut idle = uart::write_str("idle");
            out.append(&mut idle);
        },
    }
    let mut d = uart::write_str(" mode: mret");
    out.append(&mut d);
    let mut e = uart::write_str(" woke: ");
    out.append(&mut e);
    let mut f = uart::write_dec_u64(woke as u64);
    out.append(&mut f);
    let mut g = uart::write_str(" context:");
    out.append(&mut g);
    match current {
        Some(id) => {
            let mut text = crate::kernel::task::print_task_full_context_by_id(t, id);
            out.append(&mut text);
        },
        None => {
            let mut none = uart::write_str(" none");
            out.append(&mut none);
        },
    }
    let mut h = uart::write_line("");
    out.append(&mut h);
    let mut i = log::info("timer", "scheduler decision computed");
    out.append(&mut i);
    if preempt_scenario && next.is_some() {
        let mut j = log::ok("timer", "preemption: mret to worker");
        out.append(&mut j);
        let mut l = uart::write_line("timer preemption result: OK");
        out.append(&mut l);
    }
    assert(out@ =~= tick_report(t, current, next, tick, woke as int, saved_sp, saved_pc, preempt_scenario));
    out
}

/// A machine timer interrupt at machine time `now`: preempt the current
/// task, count the tick, wake sleepers, report, and dispatch the next task.
/// Returns the scheduling decision and the timer compare value of the next tick.
pub fn handle_timer_interrupt(
    k: &mut Kernel,
    frame: &Riscv64TrapFrame,
    csrs: TrapCsrs,
    now: u64,
    preempt_scenario: bool,
) -> (r: (DispatchAction, u64))
    requires
        old(k).wf(),
        old(k).ticks.count < u64::MAX,
    ensures
        final(k).wf(),
        tick_effect(old(k), final(k), *frame, csrs, now, preempt_scenario, r),
{
    let ghost k0 = *k;
    let saved_sp = frame.sp;
    let saved_pc = csrs.mepc;
    let interrupted = cpu::current(&k.cpu);
    match interrupted {
        Some(id) => {
            let image = TrapImage::from_frame(frame, saved_pc, csrs.mstatus);
            let _ = table::save_preempted_trap_image(&mut k.table, id, &image);
        },
        None => {},
    }
    let ghost k1 = *k;
    proof {
        k0.table.lemma_wf_bounds();
        k1.table.lemma_wf_bounds();
    }
    let tick = ticks::increment(&mut k.ticks);
    let woke = table::wake_sleeping_tasks(&mut k.table, &k.layout, tick);
    let ghost k2 = *k;
    assert(k2.table.tasks() =~= sleepers_woken(k1.table.tasks(), tick, k1.layout));
    let next = scheduler::next_after(&k.table, &k.layout, interrupted);
    let report = print_tick_report(
        &k.table,
        interrupted,
        next,
        tick,
        woke,
        saved_sp,
        saved_pc,
        preempt_scenario,
    );
    emit(k, report);
    let deadline = timer::arm_timer_hz(now, TIMER_HZ);
    let ghost k3 = *k;
    proof {
        assert(preemption_saved(&k0, &k1, *frame, csrs));
        assert(ticked(&k1, &k2));
    }
    let d = scheduler::switch_to(k, next);
    (d, deadline)
}

/// How a trap ends.
#[derive(Debug)]
pub enum TrapAction {
    /// A system call was served: leave as it says.
    Ecall(EcallAction),
    /// A timer tick: program timer compare value, then leave as the scheduler decided.
    Tick { deadline: u64, then: DispatchAction },
    /// A task fault: leave as the scheduler decided.
    Fault(DispatchAction),
    /// A kernel fault: stop the hart.
    Halt,
}

/// The report printed for a trap that is neither a tick nor a system call.
pub open spec fn trap_header(frame_addr: u64, csrs: TrapCsrs) -> Seq<u8> {
    line_bytes("".spec_bytes()) + line_bytes("=== RISC-V TRAP ===".spec_bytes()) + crlf(
        "trap frame: ".spec_bytes(),
    ) + hex_text(frame_addr) + line_bytes("".spec_bytes()) + crlf("mcause: ".spec_bytes())
        + hex_text(csrs.mcause) + line_bytes("".spec_bytes()) + crlf("mepc: ".spec_bytes())
        + hex_text(csrs.mepc) + line_bytes("".spec_bytes()) + crlf("mtval: ".spec_bytes())
        + hex_text(csrs.mtval) + line_bytes("".spec_bytes()) + trap_cause_text(csrs.mcause)
}

/// What a kernel fault prints before the hart stops. In the kernel-fault
/// scenario the guard checks that the trap frame lies on the trap stack.
pub open spec fn kernel_fault_text(cpu: Cpu, frame_addr: u64, trap_stack_top: u64, scenario: bool) -> Seq<u8> {
    if scenario {
        let on_stack = trap_stack_top - TRAP_STACK_SIZE <= frame_addr < trap_stack_top;
        (if cpu.current is Some {
            line_bytes("trap execution context: task".spec_bytes())
        } else {
            line_bytes("trap execution context: kernel".spec_bytes())
        }) + line_bytes("trap fault classification:".spec_bytes()) + line_bytes(
            "  context: kernel".spec_bytes(),
        ) + line_bytes("  classification: kernel fault".spec_bytes()) + line_bytes(
            "  action: halt".spec_bytes(),
        ) + log_line("FAIL".spec_bytes(), "trap".spec_bytes(), "kernel fault -> halt".spec_bytes())
            + crlf("trap frame on trap stack: ".spec_bytes()) + crlf(
            if on_stack {
                "yes".spec_bytes()
            } else {
                "no".spec_bytes()
            },
        ) + line_bytes("".spec_bytes()) + line_bytes(
            if on_stack {
                "kernel fault guard result: OK".spec_bytes()
            } else {
                "kernel fault guard result: FAILED".spec_bytes()
            },
        )
    } else {
        log_line("FAIL".spec_bytes(), "trap".spec_bytes(), "system halted after trap".spec_bytes())
    }
}

/// The effect of a trap with the given CSRs on a hart. A timer interrupt is a
/// tick; an `ecall` from U-mode is a system call; anything else is reported
/// and classified: a task fault faults the current task and schedules on, a
/// kernel fault stops the hart.
pub open spec fn trap_effect(
    old_k: &Kernel,
    new_k: &Kernel,
    old_f: Riscv64TrapFrame,
    new_f: Riscv64TrapFrame,
    csrs: TrapCsrs,
    frame_addr: u64,
    now: u64,
    trap_stack_top: u64,
    preempt_scenario: bool,
    kernel_fault_scenario: bool,
    r: TrapAction,
) -> bool {
    let interrupt = is_interrupt(csrs.mcause);
    let code = trap_code(csrs.mcause);
    if interrupt && code == 7 {
        &&& new_f == old_f
        &&& r matches TrapAction::Tick { deadline, then } && tick_effect(
            old_k,
            new_k,
            old_f,
            csrs,
            now,
            preempt_scenario,
            (then, deadline),
        )
    } else if !interrupt && code == 8 {
        r matches TrapAction::Ecall(a) && ecall_effect(old_k, new_k, old_f, new_f, csrs, a)
    } else {
        &&& new_f == old_f
        &&& match classify_spec(
            old_k.cpu.current,
            csrs.mstatus,
            csrs.mtval,
            trap_stack_top,
            old_k.layout.stack_top,
        ) {
            TrapFaultClassification::TaskFault => r is Fault && exists|k1: Kernel|
                #[trigger] user_fault_switched(&k1, new_k, csrs.mcause, csrs.mepc, csrs.mtval, r->Fault_0)
                    && k1 == (Kernel { out: k1.out, ..*old_k }) && k1.out@ == old_k.out@ + trap_header(
                    frame_addr,
                    csrs,
                ),
            TrapFaultClassification::KernelFault => {
                &&& r is Halt
                &&& *new_k == Kernel { out: new_k.out, ..*old_k }
                &&& new_k.out@ == old_k.out@ + trap_header(frame_addr, csrs) + kernel_fault_text(
                    old_k.cpu,
                    frame_addr,
                    trap_stack_top,
                    kernel_fault_scenario,
                )
            },
        }
    }
}

fn print_trap_header(frame_addr: u64, csrs: TrapCsrs) -> (r: Vec<u8>)
    ensures
        r@ == trap_header(frame_addr, csrs),
{
    let mut out = uart::write_line("");
    let mut a = uart::write_line("=== RISC-V TRAP ===");
    out.append(&mut a);
    let mut b = uart::write_str("trap frame: ");
    out.append(&mut b);
    let mut c = uart::write_hex_u64(frame_addr);
    out.append(&mut c);
    let mut d = uart::write_line("");
    out.append(&mut d);
    let mut e = uart::write_str("mcause: ");
    out.append(&mut e);
    let mut f = uart::write_hex_u64(csrs.mcause);
    out.append(&mut f);
    let mut g = uart::write_line("");
    out.append(&mut g);
    let mut h = uart::write_str("mepc: ");
    out.append(&mut h);
    let mut i = uart::write_hex_u64(csrs.mepc);
    out.append(&mut i);
    let mut j = uart::write_line("");
    out.append(&mut j);
    let mut l = uart::write_str("mtval: ");
    out.append(&mut l);
    let mut m = uart::write_hex_u64(csrs.mtval);
    out.append(&mut m);
    let mut n = uart::write_line("");
    out.append(&mut n);
    let mut o = print_trap_cause(csrs.mcause);
    out.append(&mut o);
    out
}

/// Report a kernel fault before the hart stops.
fn report_kernel_fault(cpu: &Cpu, frame_addr: u64, trap_stack_top: u64, scenario: bool) -> (r: Vec<u8>)
    requires
        trap_stack_top >= TRAP_STACK_SIZE,
    ensures
        r@ == kernel_fault_text(*cpu, frame_addr, trap_stack_top, scenario),
{
    if !scenario {
        return log::fail("trap", "system halted after trap");
    }
    let mut out = cpu::print_trap_execution_context(cpu);
    let mut a = fault::print_current_trap_fault_classification(TrapFaultClassification::KernelFault);
    out.append(&mut a);
    let mut b = log::fail("trap", "kernel fault -> halt");
    out.append(&mut b);
    let on_stack = crate::arch::riscv64::is_trap_stack_addr(frame_addr, trap_stack_top);
    let mut c = uart::write_str("trap frame on trap stack: ");
    out.append(&mut c);
    let mut d = uart::write_str(table::print_yes_no(on_stack));
    out.append(&mut d);
    let mut e = uart::write_line("");
    out.append(&mut e);
    let mut f = if on_stack {
        uart::write_line("kernel fault guard result: OK")
    } else {
        uart::write_line("kernel fault guard result: FAILED")
    };
    out.append(&mut f);
    out
}

/// The trap entry: `frame` holds the registers the trap saved at address
/// `frame_addr`, `csrs` the trap CSRs and `now` the machine time.
pub fn riscv64_trap_handler(
    k: &mut Kernel,
    frame: &mut Riscv64TrapFrame,
    csrs: TrapCsrs,
    frame_addr: u64,
    now: u64,
    trap_stack_top: u64,
    preempt_scenario: bool,
    kernel_fault_scenario: bool,
) -> (r: TrapAction)
    requires
        old(k).wf(),
        old(k).ticks.count < u64::MAX,
        trap_stack_top >= TRAP_STACK_SIZE,
        old(k).layout.stack_top >= KERNEL_STACK_SIZE,
    ensures
        final(k).wf(),
        trap_effect(
            old(k),
            final(k),
            *old(frame),
            *final(frame),
            csrs,
            frame_addr,
            now,
            trap_stack_top,
            preempt_scenario,
            kernel_fault_scenario,
            r,
        ),
{
    let cause = csrs.mcause;
    let interrupt = (cause >> 63u64) != 0;
    let code = cause & CAUSE_CODE_MASK;
    if interrupt && code == 7 {
        let (then, deadline) = handle_timer_interrupt(k, frame, csrs, now, preempt_scenario);
        return TrapAction::Tick { deadline, then };
    }
    if !interrupt && code == 8 {
        return TrapAction::Ecall(sys::handle_ecall(k, frame, csrs));
    }
    emit(k, print_trap_header(frame_addr, csrs));
    let ghost k1 = *k;
    let kernel_stack_top = crate::kernel::memory::stack_top(&k.layout);
    match fault::classify_current_trap_fault(&k.cpu, csrs.mstatus, csrs.mtval, trap_stack_top, kernel_stack_top) {
        TrapFaultClassification::TaskFault => {
            let d = fault::record_and_switch_user_fault(k, cause, csrs.mepc, csrs.mtval);
            assert(user_fault_switched(&k1, &*k, cause, csrs.mepc, csrs.mtval, d));
            TrapAction::Fault(d)
        },
        TrapFaultClassification::KernelFault => {
            let text = report_kernel_fault(&k.cpu, frame_addr, trap_stack_top, kernel_fault_scenario);
            emit(k, text);
            TrapAction::Halt
        },
    }
}

} // verus!

use picoos::arch::riscv64::traps::{self, TrapAction};
use picoos::arch::riscv64::cpu::PmpRegs;
use picoos::kernel::contract::BootContract;
use picoos::kernel::cpu::Cpu;
use picoos::kernel::irq_cell::IrqCell;
use picoos::kernel::memory::{self, Layout, PageAllocator};
use picoos::kernel::state::Kernel;
use picoos::kernel::sys::{self, EcallAction, TrapCsrs};
use picoos::kernel::task::scheduler::{self, DispatchAction, SchedMarkers};
use picoos::kernel::task::table::{self, TaskId, TaskState, TaskTable};
use picoos::kernel::ticks::Ticks;
use picoos::kernel::trap_frame::Riscv64TrapFrame;

const UTEXT: u64 = 0x8000_8000;
const TRAP_TOP: u64 = 0x8003_0000;

fn trap_layout() -> Layout {
    Layout {
        kernel_start: 0x8000_0000,
        kernel_end: 0x8002_0000,
        text_start: 0x8000_0000,
        text_end: 0x8000_8000,
        user_text_start: UTEXT,
        user_text_end: 0x8000_9000,
        rodata_start: 0x8000_9000,
        rodata_end: 0x8000_a000,
        data_start: 0x8000_a000,
        data_end: 0x8000_b000,
        bss_start: 0x8000_b000,
        bss_end: 0x8001_0000,
        stack_top: 0x8002_0000,
        free_memory_start: 0x8003_0000,
    }
}

fn trap_kernel() -> Kernel {
    let layout = trap_layout();
    let mut mm = PageAllocator::new();
    memory::init(&mut mm, &layout);
    let mut table = TaskTable::uninit(0);
    assert!(table::init(&mut table, &mut mm, 256).is_some());
    Kernel {
        cpu: Cpu::new(),
        table,
        mm,
        layout,
        ticks: Ticks::new(),
        plan: IrqCell::new(BootContract::Default),
        markers: SchedMarkers::new(),
        pmp: PmpRegs::new(),
        user_trampoline: UTEXT + 0xf00,
        rendezvous_printed: false,
        out: Vec::new(),
    }
}

fn add_worker(k: &mut Kernel, name: &[u8], entry: u64) -> TaskId {
    table::spawn(&mut k.table, &mut k.mm, name, entry, 0).unwrap()
}

fn text_of(k: &Kernel) -> String {
    String::from_utf8_lossy(&k.out).to_string()
}

#[test]
fn timer_interrupt_preempts_and_rearms_one_second_later() {
    let mut k = trap_kernel();
    let a = add_worker(&mut k, b"worker-a", UTEXT + 0x10);
    let b = add_worker(&mut k, b"worker-b", UTEXT + 0x20);
    let _ = scheduler::run(&mut k);
    assert_eq!(k.cpu.current, Some(a));
    let mut frame = Riscv64TrapFrame::empty();
    frame.sp = k.cpu.current_stack_top - 16;
    let csrs = TrapCsrs { mepc: UTEXT + 0x30, mstatus: 0, mcause: (1u64 << 63) | 7, mtval: 0 };
    let r = traps::riscv64_trap_handler(&mut k, &mut frame, csrs, TRAP_TOP - 256, 1000, TRAP_TOP, false, false);
    match r {
        TrapAction::Tick { deadline, then } => {
            assert_eq!(deadline, 1000 + 10_000_000);
            assert!(matches!(then, DispatchAction::Mret(_)));
        }
        other => panic!("unexpected {:?}", other),
    }
    assert_eq!(k.ticks.count, 1);
    assert_eq!(k.cpu.current, Some(b));
    assert_eq!(table::get_task_state(&k.table, a), Some(TaskState::Ready));
    assert_eq!(table::get_task_trap_image(&k.table, a).unwrap().mepc, UTEXT + 0x30);
    let text = text_of(&k);
    assert!(text.starts_with("tick: 1 saved current: worker-a saved_sp: 0x"));
    assert!(text.contains(" decision next: worker-b mode: mret woke: 0 context: initial_sp: 0x"));
    assert!(text.contains("[INFO][timer] scheduler decision computed\r\n"));
}

#[test]
fn timer_interrupt_in_the_preempt_scenario_reports_the_preemption() {
    let mut k = trap_kernel();
    let _a = add_worker(&mut k, b"worker-a", UTEXT + 0x10);
    let mut frame = Riscv64TrapFrame::empty();
    let csrs = TrapCsrs { mepc: 0x8000_0100, mstatus: 0x1800, mcause: (1u64 << 63) | 7, mtval: 0 };
    let r = traps::riscv64_trap_handler(&mut k, &mut frame, csrs, TRAP_TOP - 256, 5, TRAP_TOP, true, false);
    assert!(matches!(r, TrapAction::Tick { then: DispatchAction::Mret(_), .. }));
    let text = text_of(&k);
    assert!(text.contains("saved current: none"));
    assert!(text.contains("[OK][timer] preemption: mret to worker\r\ntimer preemption result: OK\r\n"));
}

#[test]
fn ecall_trap_is_a_system_call() {
    let mut k = trap_kernel();
    let a = add_worker(&mut k, b"worker-a", UTEXT + 0x10);
    let _ = scheduler::run(&mut k);
    let mut frame = Riscv64TrapFrame::empty();
    frame.a7 = sys::SYS_GETTID;
    let csrs = TrapCsrs { mepc: UTEXT + 0x40, mstatus: 0, mcause: 8, mtval: 0 };
    let r = traps::riscv64_trap_handler(&mut k, &mut frame, csrs, TRAP_TOP - 256, 0, TRAP_TOP, false, false);
    assert!(matches!(r, TrapAction::Ecall(EcallAction::Return(_))));
    assert_eq!(frame.a0, a.0);
}

#[test]
fn user_breakpoint_faults_the_task_and_reports_the_trap() {
    let mut k = trap_kernel();
    let a = add_worker(&mut k, b"trap-worker", UTEXT + 0x10);
    let _ = scheduler::run(&mut k);
    let mut frame = Riscv64TrapFrame::empty();
    let csrs = TrapCsrs { mepc: UTEXT + 0x44, mstatus: 0, mcause: 3, mtval: 0 };
    let r = traps::riscv64_trap_handler(&mut k, &mut frame, csrs, TRAP_TOP - 256, 0, TRAP_TOP, false, false);
    assert!(matches!(r, TrapAction::Fault(DispatchAction::IdleExit)));
    assert_eq!(table::get_task_state(&k.table, a), Some(TaskState::Faulted));
    let text = text_of(&k);
    assert!(text.contains("=== RISC-V TRAP ===\r\n"));
    assert!(text.contains("trap type: exception\r\ntrap code: 3\r\ntrap name: breakpoint\r\n"));
    assert!(text.contains("  fault reason: breakpoint\r\n"));
    assert!(text.contains("[OK][fault] record task fault: OK\r\n"));
}

#[test]
fn user_store_denied_by_pmp_reports_the_deny() {
    let mut k = trap_kernel();
    let _a = add_worker(&mut k, b"worker-pmp-deny", UTEXT + 0x10);
    let _ = scheduler::run(&mut k);
    let mut frame = Riscv64TrapFrame::empty();
    let csrs = TrapCsrs { mepc: UTEXT + 0x44, mstatus: 0, mcause: 7, mtval: 0x8000_a000 };
    let _ = traps::riscv64_trap_handler(&mut k, &mut frame, csrs, TRAP_TOP - 256, 0, TRAP_TOP, false, false);
    assert!(text_of(&k).contains("pmp deny: task fault OK\r\n"));
}

#[test]
fn fault_with_no_current_task_halts() {
    let mut k = trap_kernel();
    let mut frame = Riscv64TrapFrame::empty();
    let csrs = TrapCsrs { mepc: 0x8000_0100, mstatus: 0x1800, mcause: 2, mtval: 0 };
    let r = traps::riscv64_trap_handler(&mut k, &mut frame, csrs, TRAP_TOP - 256, 0, TRAP_TOP, false, false);
    assert!(matches!(r, TrapAction::Halt));
    assert!(text_of(&k).ends_with("[FAIL][trap] system halted after trap\r\n"));
}

#[test]
fn kernel_fault_guard_checks_the_frame_is_on_the_trap_stack() {
    let mut k = trap_kernel();
    let mut frame = Riscv64TrapFrame::empty();
    let csrs = TrapCsrs { mepc: 0x8000_0100, mstatus: 0x1800, mcause: 3, mtval: 0 };
    let r = traps::riscv64_trap_handler(&mut k, &mut frame, csrs, TRAP_TOP - 256, 0, TRAP_TOP, false, true);
    assert!(matches!(r, TrapAction::Halt));
    let text = text_of(&k);
    assert!(text.contains("trap execution context: kernel\r\n"));
    assert!(text.contains("trap frame on trap stack: yes\r\nkernel fault guard result: OK\r\n"));
    let mut k2 = trap_kernel();
    let _ = traps::riscv64_trap_handler(&mut k2, &mut frame, csrs, 0x1000, 0, TRAP_TOP, false, true);
    assert!(text_of(&k2).contains("kernel fault guard result: FAILED"));
}

#[test]
fn trap_cause_names() {
    let text = String::from_utf8(traps::print_trap_cause((1u64 << 63) | 11)).unwrap();
    assert_eq!(text, "trap type: interrupt\r\ntrap code: 11\r\ntrap name: machine external interrupt\r\n");
    let text = String::from_utf8(traps::print_trap_cause(8)).unwrap();
    assert_eq!(text, "trap type: exception\r\ntrap code: 8\r\ntrap name: environment call from U-mode\r\n");
    let text = String::from_utf8(traps::print_trap_cause(4)).unwrap();
    assert!(text.ends_with("trap name: unknown\r\n"));
}

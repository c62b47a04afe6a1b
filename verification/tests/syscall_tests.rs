use picoos::arch::riscv64::cpu::{synthesize_mstatus_for_mret_worker, MSTATUS_MPP};
use picoos::kernel::contract::BootContract;
use picoos::kernel::cpu::Cpu;
use picoos::kernel::ipc;
use picoos::kernel::irq_cell::IrqCell;
use picoos::kernel::memory::{self, Layout, PageAllocator};
use picoos::kernel::state::Kernel;
use picoos::kernel::sys::{self, EcallAction, TrapCsrs};
use picoos::kernel::task::scheduler::{self, DispatchAction, SchedMarkers};
use picoos::kernel::task::table::{self, BlockReason, TaskId, TaskState, TaskTable};
use picoos::kernel::ticks::Ticks;
use picoos::kernel::trap_frame::Riscv64TrapFrame;
use picoos::arch::riscv64::cpu::PmpRegs;

const USER_TEXT: u64 = 0x8000_8000;
const TRAMPOLINE: u64 = 0x8000_8f00;

fn sys_layout() -> Layout {
    Layout {
        kernel_start: 0x8000_0000,
        kernel_end: 0x8002_0000,
        text_start: 0x8000_0000,
        text_end: 0x8000_8000,
        user_text_start: USER_TEXT,
        user_text_end: 0x8000_9000,
        rodata_start: 0x8000_9000,
        rodata_end: 0x8000_a000,
        data_start: 0x8000_a000,
        data_end: 0x8000_b000,
        bss_start: 0x8000_b000,
        bss_end: 0x8001_0000,
        stack_top: 0x8002_0000,
        free_memory_start: 0x8002_0000,
    }
}

fn sys_kernel() -> Kernel {
    let layout = sys_layout();
    let mut mm = PageAllocator::new();
    memory::init(&mut mm, &layout);
    let mut table = TaskTable::uninit(0);
    assert!(table::init(&mut table, &mut mm, 256).is_some());
    Kernel {
        cpu: Cpu::new(),
        table,
        mm,
        layout,
        ticks: Ticks::new(),
        plan: IrqCell::new(BootContract::Default),
        markers: SchedMarkers::new(),
        pmp: PmpRegs::new(),
        user_trampoline: TRAMPOLINE,
        rendezvous_printed: false,
        out: Vec::new(),
    }
}

fn spawn_worker(k: &mut Kernel, name: &[u8], entry: u64) -> TaskId {
    table::spawn(&mut k.table, &mut k.mm, name, entry, 0).unwrap()
}

fn csrs_at(pc: u64) -> TrapCsrs {
    TrapCsrs { mepc: pc, mstatus: 0, mcause: 8, mtval: 0 }
}

fn ecall_frame(nr: u64, a0: u64, a1: u64, a2: u64, sp: u64) -> Riscv64TrapFrame {
    let mut f = Riscv64TrapFrame::empty();
    f.a7 = nr;
    f.a0 = a0;
    f.a1 = a1;
    f.a2 = a2;
    f.sp = sp;
    f
}

fn out_text(k: &Kernel) -> String {
    String::from_utf8_lossy(&k.out).to_string()
}

#[test]
fn gettid_returns_the_current_id_after_the_ecall() {
    let mut k = sys_kernel();
    let a = spawn_worker(&mut k, b"worker-a", USER_TEXT + 0x10);
    let first = scheduler::run(&mut k);
    match first {
        DispatchAction::Mret(img) => {
            assert_eq!(img.mepc, TRAMPOLINE);
            assert_eq!(img.gpr.a0, USER_TEXT + 0x10);
        }
        other => panic!("unexpected {:?}", other),
    }
    assert_eq!(k.cpu.current, Some(a));
    let mut frame = ecall_frame(sys::SYS_GETTID, 0, 0, 0, k.cpu.current_stack_top - 64);
    let r = sys::handle_ecall(&mut k, &mut frame, csrs_at(USER_TEXT + 0x40));
    match r {
        EcallAction::Return(res) => {
            assert_eq!(res.mepc, USER_TEXT + 0x44);
            assert_eq!(res.mstatus & MSTATUS_MPP, 0);
            assert_eq!(res.mstatus, synthesize_mstatus_for_mret_worker(0));
        }
        other => panic!("unexpected {:?}", other),
    }
    assert_eq!(frame.a0, a.0);
}

#[test]
fn yield_saves_the_caller_and_runs_the_next_task() {
    let mut k = sys_kernel();
    let a = spawn_worker(&mut k, b"worker-a", USER_TEXT + 0x10);
    let b = spawn_worker(&mut k, b"worker-b", USER_TEXT + 0x20);
    let _ = scheduler::run(&mut k);
    assert_eq!(k.cpu.current, Some(a));
    let sp = k.cpu.current_stack_top - 128;
    let mut frame = ecall_frame(sys::SYS_YIELD, 0, 0, 0, sp);
    let r = sys::handle_ecall(&mut k, &mut frame, csrs_at(USER_TEXT + 0x100));
    match r {
        EcallAction::Switch(DispatchAction::Mret(img)) => {
            assert_eq!(img.gpr.a0, USER_TEXT + 0x20);
        }
        other => panic!("unexpected {:?}", other),
    }
    assert_eq!(k.cpu.current, Some(b));
    assert_eq!(table::get_task_state(&k.table, a), Some(TaskState::Ready));
    let img = table::get_task_trap_image(&k.table, a).unwrap();
    assert_eq!(img.mepc, USER_TEXT + 0x104);
    assert_eq!(img.gpr.sp, sp);
    assert_eq!(table::can_task_resume(&k.table, a), Some(true));
}

#[test]
fn sleep_blocks_until_the_wake_tick() {
    let mut k = sys_kernel();
    let a = spawn_worker(&mut k, b"worker-a", USER_TEXT + 0x10);
    let _ = scheduler::run(&mut k);
    let mut frame = ecall_frame(sys::SYS_SLEEP, 2, 0, 0, k.cpu.current_stack_top - 64);
    let r = sys::handle_ecall(&mut k, &mut frame, csrs_at(USER_TEXT + 0x100));
    assert!(matches!(r, EcallAction::Switch(DispatchAction::IdleExit)));
    assert_eq!(table::get_task_state(&k.table, a), Some(TaskState::Blocked));
    let woke = table::wake_sleeping_tasks(&mut k.table, &k.layout, 1);
    assert_eq!(woke, 0);
    let woke = table::wake_sleeping_tasks(&mut k.table, &k.layout, 2);
    assert_eq!(woke, 1);
    assert_eq!(table::get_task_state(&k.table, a), Some(TaskState::Ready));
}

#[test]
fn sleep_of_zero_ticks_sleeps_one() {
    let mut k = sys_kernel();
    let _a = spawn_worker(&mut k, b"worker-a", USER_TEXT + 0x10);
    let _ = scheduler::run(&mut k);
    let mut frame = ecall_frame(sys::SYS_SLEEP, 0, 0, 0, k.cpu.current_stack_top - 64);
    let _ = sys::handle_ecall(&mut k, &mut frame, csrs_at(USER_TEXT + 0x100));
    let t = table::get_task_by_local_index(&k.table, 0).unwrap();
    assert_eq!(t.block, Some(BlockReason::SleepUntil(1)));
}

#[test]
fn exit_finishes_the_caller_and_goes_idle() {
    let mut k = sys_kernel();
    let a = spawn_worker(&mut k, b"worker-a", USER_TEXT + 0x10);
    let _ = scheduler::run(&mut k);
    let mut frame = ecall_frame(sys::SYS_EXIT, 0, 0, 0, k.cpu.current_stack_top - 64);
    let r = sys::handle_ecall(&mut k, &mut frame, csrs_at(USER_TEXT + 0x100));
    assert!(matches!(r, EcallAction::Switch(DispatchAction::IdleExit)));
    assert_eq!(table::get_task_state(&k.table, a), Some(TaskState::Finished));
    assert_eq!(k.cpu.current, None);
    assert_eq!(table::join_status(&k.table, a), Some(0));
}

#[test]
fn spawn_returns_a_new_user_task() {
    let mut k = sys_kernel();
    let _a = spawn_worker(&mut k, b"worker-a", USER_TEXT + 0x10);
    let _ = scheduler::run(&mut k);
    let mut frame = ecall_frame(sys::SYS_SPAWN, USER_TEXT + 0x80, 7, 0, k.cpu.current_stack_top - 64);
    let r = sys::handle_ecall(&mut k, &mut frame, csrs_at(USER_TEXT + 0x100));
    assert!(matches!(r, EcallAction::Return(_)));
    let child = TaskId(frame.a0);
    assert!(child.is_valid());
    assert_eq!(table::get_task_state(&k.table, child), Some(TaskState::Ready));
    assert_eq!(table::get_task_initial_pc(&k.table, child), Some(USER_TEXT + 0x80));
    assert_eq!(table::get_task_spawn_arg(&k.table, child), Some(7));
    assert_eq!(scheduler::print_task_name(&k.table, child), b"u-0".to_vec());
}

#[test]
fn spawn_outside_usertext_faults_the_caller() {
    let mut k = sys_kernel();
    let a = spawn_worker(&mut k, b"worker-a", USER_TEXT + 0x10);
    let _ = scheduler::run(&mut k);
    let mut frame = ecall_frame(sys::SYS_SPAWN, 0x8000_0100, 0, 0, k.cpu.current_stack_top - 64);
    let r = sys::handle_ecall(&mut k, &mut frame, csrs_at(USER_TEXT + 0x100));
    assert!(matches!(r, EcallAction::Switch(_)));
    assert_eq!(table::get_task_state(&k.table, a), Some(TaskState::Faulted));
    assert!(out_text(&k).contains("[FAIL][sys] illegal ecall"));
}

#[test]
fn unknown_syscall_number_is_illegal() {
    let mut k = sys_kernel();
    let a = spawn_worker(&mut k, b"worker-a", USER_TEXT + 0x10);
    let _ = scheduler::run(&mut k);
    let mut frame = ecall_frame(99, 0, 0, 0, k.cpu.current_stack_top - 64);
    let r = sys::handle_ecall(&mut k, &mut frame, csrs_at(USER_TEXT + 0x100));
    assert!(matches!(r, EcallAction::Switch(DispatchAction::IdleExit)));
    assert_eq!(table::get_task_state(&k.table, a), Some(TaskState::Faulted));
    assert_eq!(table::join_status(&k.table, a), Some(1));
}

#[test]
fn log_hands_a_stack_buffer_to_the_console() {
    let mut k = sys_kernel();
    let _a = spawn_worker(&mut k, b"worker-a", USER_TEXT + 0x10);
    let _ = scheduler::run(&mut k);
    let ptr = k.cpu.current_stack_top - 32;
    let mut frame = ecall_frame(sys::SYS_LOG, ptr, 5, 0, ptr);
    let r = sys::handle_ecall(&mut k, &mut frame, csrs_at(USER_TEXT + 0x100));
    match r {
        EcallAction::Log { ptr: p, len, resume } => {
            assert_eq!(p, ptr);
            assert_eq!(len, 5);
            assert_eq!(resume.mepc, USER_TEXT + 0x104);
        }
        other => panic!("unexpected {:?}", other),
    }
}

#[test]
fn log_of_a_rodata_buffer_is_accepted_and_elsewhere_illegal() {
    let mut k = sys_kernel();
    let a = spawn_worker(&mut k, b"worker-a", USER_TEXT + 0x10);
    let _ = scheduler::run(&mut k);
    let mut frame = ecall_frame(sys::SYS_LOG, 0x8000_9010, 8, 0, 0);
    let r = sys::handle_ecall(&mut k, &mut frame, csrs_at(USER_TEXT + 0x100));
    assert!(matches!(r, EcallAction::Log { .. }));
    let mut frame = ecall_frame(sys::SYS_LOG, 0x8000_a000, 8, 0, 0);
    let r = sys::handle_ecall(&mut k, &mut frame, csrs_at(USER_TEXT + 0x100));
    assert!(matches!(r, EcallAction::Switch(_)));
    assert_eq!(table::get_task_state(&k.table, a), Some(TaskState::Faulted));
}

#[test]
fn join_of_a_finished_task_reaps_it_and_returns_its_status() {
    let mut k = sys_kernel();
    let a = spawn_worker(&mut k, b"worker-a", USER_TEXT + 0x10);
    let b = spawn_worker(&mut k, b"worker-b", USER_TEXT + 0x20);
    assert!(table::mark_task_finished(&mut k.table, b));
    let used = memory::stats(&k.mm).used;
    let _ = scheduler::run(&mut k);
    assert_eq!(k.cpu.current, Some(a));
    let mut frame = ecall_frame(sys::SYS_JOIN, b.0, 0, 0, k.cpu.current_stack_top - 64);
    let r = sys::handle_ecall(&mut k, &mut frame, csrs_at(USER_TEXT + 0x100));
    assert!(matches!(r, EcallAction::Return(_)));
    assert_eq!(frame.a0, 0);
    assert_eq!(table::get_task_state(&k.table, b), None);
    assert_eq!(memory::stats(&k.mm).used, used - 1);
}

#[test]
fn join_blocks_until_the_target_exits() {
    let mut k = sys_kernel();
    let a = spawn_worker(&mut k, b"worker-a", USER_TEXT + 0x10);
    let b = spawn_worker(&mut k, b"worker-b", USER_TEXT + 0x20);
    let _ = scheduler::run(&mut k);
    let mut frame = ecall_frame(sys::SYS_JOIN, b.0, 0, 0, k.cpu.current_stack_top - 64);
    let r = sys::handle_ecall(&mut k, &mut frame, csrs_at(USER_TEXT + 0x100));
    assert!(matches!(r, EcallAction::Switch(DispatchAction::Mret(_))));
    assert_eq!(table::get_task_state(&k.table, a), Some(TaskState::Blocked));
    assert_eq!(k.cpu.current, Some(b));
    let mut frame = ecall_frame(sys::SYS_EXIT, 0, 0, 0, k.cpu.current_stack_top - 64);
    let _ = sys::handle_ecall(&mut k, &mut frame, csrs_at(USER_TEXT + 0x200));
    assert_eq!(table::get_task_state(&k.table, b), None);
    assert_eq!(table::get_task_state(&k.table, a), Some(TaskState::Running));
    assert_eq!(k.cpu.current, Some(a));
    let img = table::get_task_trap_image(&k.table, a).unwrap();
    assert_eq!(img.gpr.a0, 0);
}

#[test]
fn join_of_itself_is_illegal_and_of_nothing_returns_max() {
    let mut k = sys_kernel();
    let a = spawn_worker(&mut k, b"worker-a", USER_TEXT + 0x10);
    let _ = scheduler::run(&mut k);
    let mut frame = ecall_frame(sys::SYS_JOIN, 12345, 0, 0, k.cpu.current_stack_top - 64);
    let _ = sys::handle_ecall(&mut k, &mut frame, csrs_at(USER_TEXT + 0x100));
    assert_eq!(frame.a0, u64::MAX);
    let mut frame = ecall_frame(sys::SYS_JOIN, a.0, 0, 0, k.cpu.current_stack_top - 64);
    let r = sys::handle_ecall(&mut k, &mut frame, csrs_at(USER_TEXT + 0x100));
    assert!(matches!(r, EcallAction::Switch(_)));
    assert_eq!(table::get_task_state(&k.table, a), Some(TaskState::Faulted));
}

#[test]
fn send_blocks_until_a_receive_takes_the_message() {
    let mut k = sys_kernel();
    let a = spawn_worker(&mut k, b"sender", USER_TEXT + 0x10);
    let b = spawn_worker(&mut k, b"receiver", USER_TEXT + 0x20);
    let _ = scheduler::run(&mut k);
    assert_eq!(k.cpu.current, Some(a));
    let buf = k.cpu.current_stack_top - 64;
    let mut frame = ecall_frame(sys::SYS_SEND, b.0, buf, 5, buf);
    let r = ipc::sys_send(&mut k, &mut frame, csrs_at(USER_TEXT + 0x100));
    let then = match r {
        EcallAction::StorePending { id, ptr, len, then } => {
            assert_eq!(id, a);
            assert_eq!(ptr, buf);
            assert_eq!(len, 5);
            then
        }
        other => panic!("unexpected {:?}", other),
    };
    let mut bytes = [0u8; 32];
    bytes[..5].copy_from_slice(b"hello");
    assert!(ipc::store_pending(&mut k, a, bytes, 5));
    assert!(matches!(then, DispatchAction::Mret(_)));
    assert_eq!(k.cpu.current, Some(b));
    let rbuf = k.cpu.current_stack_top - 64;
    let mut frame = ecall_frame(sys::SYS_RECV, rbuf, 32, 0, rbuf);
    let r = sys::handle_ecall(&mut k, &mut frame, csrs_at(USER_TEXT + 0x200));
    match r {
        EcallAction::WriteUser { bytes: got, dst, len, resume } => {
            assert_eq!(&got[..5], b"hello");
            assert_eq!(dst, rbuf);
            assert_eq!(len, 5);
            assert_eq!(resume.mepc, USER_TEXT + 0x204);
        }
        other => panic!("unexpected {:?}", other),
    }
    assert_eq!(frame.a0, 5);
    assert_eq!(frame.a1, a.0);
    assert_eq!(table::get_task_state(&k.table, a), Some(TaskState::Ready));
    assert_eq!(table::get_task_trap_image(&k.table, a).unwrap().gpr.a0, 5);
    assert!(out_text(&k).contains("ipc rendezvous: OK"));
}

#[test]
fn send_to_a_waiting_receiver_copies_at_once() {
    let mut k = sys_kernel();
    let a = spawn_worker(&mut k, b"receiver", USER_TEXT + 0x10);
    let b = spawn_worker(&mut k, b"sender", USER_TEXT + 0x20);
    let _ = scheduler::run(&mut k);
    let rbuf = k.cpu.current_stack_top - 64;
    let mut frame = ecall_frame(sys::SYS_RECV, rbuf, 32, 0, rbuf);
    let r = sys::handle_ecall(&mut k, &mut frame, csrs_at(USER_TEXT + 0x100));
    assert!(matches!(r, EcallAction::Switch(DispatchAction::Mret(_))));
    assert_eq!(table::recv_buf(&k.table, a), Some((rbuf, 32)));
    assert_eq!(k.cpu.current, Some(b));
    let sbuf = k.cpu.current_stack_top - 64;
    let mut frame = ecall_frame(sys::SYS_SEND, a.0, sbuf, 7, sbuf);
    let r = sys::handle_ecall(&mut k, &mut frame, csrs_at(USER_TEXT + 0x200));
    match r {
        EcallAction::CopyUser { src, dst, len, .. } => {
            assert_eq!(src, sbuf);
            assert_eq!(dst, rbuf);
            assert_eq!(len, 7);
        }
        other => panic!("unexpected {:?}", other),
    }
    assert_eq!(frame.a0, 7);
    let img = table::get_task_trap_image(&k.table, a).unwrap();
    assert_eq!(img.gpr.a0, 7);
    assert_eq!(img.gpr.a1, b.0);
}

#[test]
fn send_to_a_finished_task_returns_max() {
    let mut k = sys_kernel();
    let _a = spawn_worker(&mut k, b"sender", USER_TEXT + 0x10);
    let b = spawn_worker(&mut k, b"gone", USER_TEXT + 0x20);
    assert!(table::mark_task_finished(&mut k.table, b));
    let _ = scheduler::run(&mut k);
    let buf = k.cpu.current_stack_top - 64;
    let mut frame = ecall_frame(sys::SYS_SEND, b.0, buf, 4, buf);
    let r = sys::handle_ecall(&mut k, &mut frame, csrs_at(USER_TEXT + 0x100));
    assert!(matches!(r, EcallAction::Return(_)));
    assert_eq!(frame.a0, u64::MAX);
}

#[test]
fn send_of_too_many_bytes_is_illegal() {
    let mut k = sys_kernel();
    let a = spawn_worker(&mut k, b"sender", USER_TEXT + 0x10);
    let b = spawn_worker(&mut k, b"peer", USER_TEXT + 0x20);
    let _ = scheduler::run(&mut k);
    let buf = k.cpu.current_stack_top - 64;
    let mut frame = ecall_frame(sys::SYS_SEND, b.0, buf, 33, buf);
    let _ = sys::handle_ecall(&mut k, &mut frame, csrs_at(USER_TEXT + 0x100));
    assert_eq!(table::get_task_state(&k.table, a), Some(TaskState::Faulted));
}

#[test]
fn recv_with_no_possible_sender_returns_max_twice() {
    let mut k = sys_kernel();
    let _a = spawn_worker(&mut k, b"alone", USER_TEXT + 0x10);
    let _ = scheduler::run(&mut k);
    let buf = k.cpu.current_stack_top - 64;
    let mut frame = ecall_frame(sys::SYS_RECV, buf, 32, 0, buf);
    let r = sys::handle_ecall(&mut k, &mut frame, csrs_at(USER_TEXT + 0x100));
    assert!(matches!(r, EcallAction::Return(_)));
    assert_eq!(frame.a0, u64::MAX);
    assert_eq!(frame.a1, u64::MAX);
}

#[test]
fn exit_of_a_receivers_last_sender_fails_the_receive() {
    let mut k = sys_kernel();
    let a = spawn_worker(&mut k, b"receiver", USER_TEXT + 0x10);
    let _b = spawn_worker(&mut k, b"quitter", USER_TEXT + 0x20);
    let _ = scheduler::run(&mut k);
    let rbuf = k.cpu.current_stack_top - 64;
    let mut frame = ecall_frame(sys::SYS_RECV, rbuf, 32, 0, rbuf);
    let _ = sys::handle_ecall(&mut k, &mut frame, csrs_at(USER_TEXT + 0x100));
    assert_eq!(table::get_task_state(&k.table, a), Some(TaskState::Blocked));
    let mut frame = ecall_frame(sys::SYS_EXIT, 0, 0, 0, k.cpu.current_stack_top - 64);
    let _ = sys::handle_ecall(&mut k, &mut frame, csrs_at(USER_TEXT + 0x200));
    assert_eq!(table::get_task_state(&k.table, a), Some(TaskState::Running));
    assert_eq!(k.cpu.current, Some(a));
    let img = table::get_task_trap_image(&k.table, a).unwrap();
    assert_eq!(img.gpr.a0, u64::MAX);
    assert_eq!(img.gpr.a1, u64::MAX);
}

#[test]
fn a_message_too_big_for_the_receiver_faults_its_sender() {
    let mut k = sys_kernel();
    let s = spawn_worker(&mut k, b"sender", USER_TEXT + 0x10);
    let r = spawn_worker(&mut k, b"receiver", USER_TEXT + 0x20);
    let _ = scheduler::run(&mut k);
    let buf = k.cpu.current_stack_top - 64;
    let mut frame = ecall_frame(sys::SYS_SEND, r.0, buf, 16, buf);
    let _ = sys::handle_ecall(&mut k, &mut frame, csrs_at(USER_TEXT + 0x100));
    assert!(ipc::store_pending(&mut k, s, [1u8; 32], 16));
    assert_eq!(k.cpu.current, Some(r));
    let rbuf = k.cpu.current_stack_top - 64;
    let mut frame = ecall_frame(sys::SYS_RECV, rbuf, 8, 0, rbuf);
    let res = sys::handle_ecall(&mut k, &mut frame, csrs_at(USER_TEXT + 0x200));
    assert!(matches!(res, EcallAction::Return(_)));
    assert_eq!(frame.a0, u64::MAX);
    assert_eq!(table::get_task_state(&k.table, s), Some(TaskState::Faulted));
}

#[test]
fn a_lone_yielder_resumes_right_after_its_ecall() {
    let mut k = sys_kernel();
    let a = spawn_worker(&mut k, b"worker-a", USER_TEXT + 0x10);
    let _ = scheduler::run(&mut k);
    let sp = k.cpu.current_stack_top - 96;
    let mut frame = ecall_frame(sys::SYS_YIELD, 7, 8, 9, sp);
    frame.s3 = 0x33;
    let r = sys::handle_ecall(&mut k, &mut frame, csrs_at(USER_TEXT + 0x200));
    match r {
        EcallAction::Switch(DispatchAction::Mret(img)) => {
            assert_eq!(img.mepc, USER_TEXT + 0x204);
            assert_eq!(img.gpr.sp, sp);
            assert_eq!(img.gpr.a0, 7);
            assert_eq!(img.gpr.a1, 8);
            assert_eq!(img.gpr.s3, 0x33);
        }
        other => panic!("unexpected {:?}", other),
    }
    assert_eq!(k.cpu.current, Some(a));
}

#[test]
fn a_woken_sleeper_resumes_right_after_its_ecall() {
    let mut k = sys_kernel();
    let a = spawn_worker(&mut k, b"worker-a", USER_TEXT + 0x10);
    let _ = scheduler::run(&mut k);
    let sp = k.cpu.current_stack_top - 64;
    let mut frame = ecall_frame(sys::SYS_SLEEP, 3, 0, 0, sp);
    let _ = sys::handle_ecall(&mut k, &mut frame, csrs_at(USER_TEXT + 0x300));
    assert_eq!(table::wake_sleeping_tasks(&mut k.table, &k.layout, 2), 0);
    assert_eq!(table::get_task_state(&k.table, a), Some(TaskState::Blocked));
    assert_eq!(table::wake_sleeping_tasks(&mut k.table, &k.layout, 3), 1);
    assert_eq!(table::can_task_resume(&k.table, a), Some(true));
    match scheduler::switch_to(&mut k, Some(a)) {
        DispatchAction::Mret(img) => {
            assert_eq!(img.mepc, USER_TEXT + 0x304);
            assert_eq!(img.gpr.sp, sp);
            assert_eq!(img.gpr.a0, 3);
        }
        other => panic!("unexpected {:?}", other),
    }
}

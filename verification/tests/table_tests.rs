use picoos::kernel::memory::{self, Layout, PageAllocator};
use picoos::kernel::task::scheduler;
use picoos::kernel::task::table::{self, TaskFaultReason, TaskId, TaskState, TaskTable};

fn table_layout() -> Layout {
    Layout {
        kernel_start: 0x8000_0000,
        kernel_end: 0x8002_0000,
        text_start: 0x8000_0000,
        text_end: 0x8000_8000,
        user_text_start: 0x8000_8000,
        user_text_end: 0x8000_9000,
        rodata_start: 0x8000_9000,
        rodata_end: 0x8000_a000,
        data_start: 0x8000_a000,
        data_end: 0x8000_b000,
        bss_start: 0x8000_b000,
        bss_end: 0x8001_0000,
        stack_top: 0x8002_0000,
        free_memory_start: 0x8002_0000,
    }
}

fn table_setup() -> (TaskTable, PageAllocator) {
    let mut mm = PageAllocator::new();
    memory::init(&mut mm, &table_layout());
    let mut t = TaskTable::uninit(0);
    let r = table::init(&mut t, &mut mm, 256);
    assert!(r.is_some());
    (t, mm)
}

#[test]
fn task_id_packs_generation_hart_and_slot() {
    let id = TaskId::new(3, 2, 17);
    assert_eq!(id.0, (3u64 << 32) | (2u64 << 16) | 17);
    assert_eq!(id.hart(), 2);
    assert_eq!(id.local(), 17);
    assert!(id.is_valid());
    assert!(!TaskId(0).is_valid());
    assert!(!TaskId(u64::MAX).is_valid());
}

#[test]
fn table_capacity_follows_free_memory() {
    let mut mm = PageAllocator::new();
    memory::init(&mut mm, &table_layout());
    let free = memory::free_page_count(&mm, 0);
    let mut t = TaskTable::uninit(0);
    let (cap, pages) = table::init(&mut t, &mut mm, 256).unwrap();
    assert_eq!(cap as u64, (free / 8).clamp(4, 512));
    assert_eq!(table::table_capacity(&t), cap);
    assert_eq!(pages, (cap * 256 + 4095) / 4096);
}

#[test]
fn table_capacity_of_a_small_pool_is_one_slot_per_eight_pages() {
    let mut l = table_layout();
    l.free_memory_start = 0x87f0_0000;
    let mut mm = PageAllocator::new();
    memory::init(&mut mm, &l);
    let free = memory::free_page_count(&mm, 0);
    let mut t = TaskTable::uninit(0);
    let (cap, _) = table::init(&mut t, &mut mm, 256).unwrap();
    assert_eq!(cap as u64, (free / 8).clamp(4, 512));
    assert!(cap < 512);
}

#[test]
fn a_reaped_id_is_given_to_the_next_spawn() {
    let (mut t, mut mm) = table_setup();
    let a = table::spawn(&mut t, &mut mm, b"a", 0x8000_8010, 0).unwrap();
    assert!(table::mark_task_finished(&mut t, a));
    assert!(table::destroy(&mut t, &mut mm, a));
    assert_eq!(table::get_task_state(&t, a), None);
    let b = table::spawn(&mut t, &mut mm, b"b", 0x8000_8020, 0).unwrap();
    assert_eq!(b, a);
}

#[test]
fn spawn_fills_slots_in_order_with_distinct_stacks() {
    let (mut t, mut mm) = table_setup();
    let used = memory::stats(&mm).used;
    let a = table::spawn(&mut t, &mut mm, b"alpha", 0x8000_8010, 1).unwrap();
    let b = table::spawn(&mut t, &mut mm, b"a-very-long-task-name", 0x8000_8020, 2).unwrap();
    assert_eq!(a.local(), 0);
    assert_eq!(b.local(), 1);
    assert_eq!(a.hart(), 0);
    assert_eq!(memory::stats(&mm).used, used + 2);
    let sa = table::get_task_stack_start(&t, a).unwrap();
    let sb = table::get_task_stack_start(&t, b).unwrap();
    assert_ne!(sa, sb);
    assert_eq!(table::get_task_stack_top(&t, a), Some(sa + 4096));
    assert_eq!(table::get_task_initial_sp(&t, a), Some(sa + 4096));
    assert_eq!(table::get_task_state(&t, a), Some(TaskState::Ready));
    assert_eq!(table::print_task_name_by_id(&t, a), b"alpha".to_vec());
    assert_eq!(table::print_task_name_by_id(&t, b), b"a-very-long-tas".to_vec());
    assert!(table::is_fresh_ready_task(&t, a));
}

#[test]
fn reap_returns_the_stack_page_and_frees_the_id() {
    let (mut t, mut mm) = table_setup();
    let used = memory::stats(&mm).used;
    let a = table::spawn(&mut t, &mut mm, b"reap-a", 0x8000_8010, 0).unwrap();
    assert!(!table::destroy(&mut t, &mut mm, a));
    assert!(table::mark_task_finished(&mut t, a));
    assert!(table::destroy(&mut t, &mut mm, a));
    assert_eq!(memory::stats(&mm).used, used);
    assert_eq!(table::get_task_state(&t, a), None);
    let b = table::spawn(&mut t, &mut mm, b"reap-b", 0x8000_8010, 0).unwrap();
    assert_eq!(b.local(), a.local());
    assert_eq!(b, a);
    assert_eq!(table::get_task_state(&t, a), Some(TaskState::Ready));
}

#[test]
fn fault_reasons_by_cause() {
    assert_eq!(TaskFaultReason::from_mcause(1), TaskFaultReason::InstructionAccessFault);
    assert_eq!(TaskFaultReason::from_mcause(2), TaskFaultReason::IllegalInstruction);
    assert_eq!(TaskFaultReason::from_mcause(3), TaskFaultReason::Breakpoint);
    assert_eq!(TaskFaultReason::from_mcause(5), TaskFaultReason::LoadAccessFault);
    assert_eq!(TaskFaultReason::from_mcause(7), TaskFaultReason::StoreAccessFault);
    assert_eq!(TaskFaultReason::from_mcause(13), TaskFaultReason::Unknown(13));
    let text = String::from_utf8(table::print_task_fault_reason(TaskFaultReason::Unknown(13))).unwrap();
    assert_eq!(text, "unknown (code: 0x000000000000000D)");
}

#[test]
fn print_tasks_lists_occupied_slots() {
    let (mut t, mut mm) = table_setup();
    let a = table::spawn(&mut t, &mut mm, b"one", 0x8000_8010, 0).unwrap();
    let b = table::spawn(&mut t, &mut mm, b"two", 0x8000_8020, 0).unwrap();
    assert!(table::mark_task_finished(&mut t, b));
    let text = String::from_utf8(table::print_tasks(&t)).unwrap();
    let expected = format!(
        "task list:\r\nid: 0x{:016X} state: Ready name: one\r\nid: 0x{:016X} state: Ready name: two\r\n",
        a.0, b.0
    );
    assert_eq!(text, expected);
}

#[test]
fn round_robin_starts_after_the_current_task() {
    let layout = table_layout();
    let (mut t, mut mm) = table_setup();
    let a = table::spawn(&mut t, &mut mm, b"a", 0x8000_8010, 0).unwrap();
    let b = table::spawn(&mut t, &mut mm, b"b", 0x8000_8020, 0).unwrap();
    let c = table::spawn(&mut t, &mut mm, b"c", 0x8000_8030, 0).unwrap();
    assert_eq!(scheduler::next_after(&t, &layout, None), Some(a));
    assert_eq!(scheduler::next_after(&t, &layout, Some(a)), Some(b));
    assert_eq!(scheduler::next_after(&t, &layout, Some(c)), Some(a));
    assert!(table::mark_task_blocked_until(&mut t, b, 10));
    assert_eq!(scheduler::next_after(&t, &layout, Some(a)), Some(c));
    assert!(table::has_dispatchable_tasks(&t, &layout));
    assert!(table::mark_task_finished(&mut t, a));
    assert!(table::mark_task_finished(&mut t, c));
    assert_eq!(scheduler::next_after(&t, &layout, Some(a)), None);
    assert!(!table::has_dispatchable_tasks(&t, &layout));
}

#[test]
fn a_saved_image_outside_usertext_is_not_resumed() {
    let layout = table_layout();
    let (mut t, mut mm) = table_setup();
    let a = table::spawn(&mut t, &mut mm, b"a", 0x8000_8010, 0).unwrap();
    let sp = table::get_task_stack_top(&t, a).unwrap() - 16;
    let mut image = picoos::kernel::trap_frame::TrapImage::empty();
    image.gpr.sp = sp;
    image.mepc = 0x8000_0100;
    assert!(table::save_preempted_trap_image(&mut t, a, &image));
    assert_eq!(scheduler::next_after(&t, &layout, None), None);
    image.mepc = 0x8000_8100;
    assert!(table::save_preempted_trap_image(&mut t, a, &image));
    assert_eq!(scheduler::next_after(&t, &layout, None), Some(a));
}

#[test]
fn sleepers_wake_when_their_tick_comes() {
    let layout = table_layout();
    let (mut t, mut mm) = table_setup();
    let a = table::spawn(&mut t, &mut mm, b"sleep-probe", 0x8000_8010, 0).unwrap();
    assert!(table::mark_task_started(&mut t, a));
    assert!(table::mark_task_blocked_until(&mut t, a, 3));
    assert_eq!(table::wake_sleeping_tasks(&mut t, &layout, 2), 0);
    assert_eq!(table::get_task_state(&t, a), Some(TaskState::Blocked));
    assert_eq!(table::find_first_resumable_task(&t, &layout), None);
    assert_eq!(table::wake_sleeping_tasks(&mut t, &layout, 3), 1);
    assert_eq!(table::get_task_state(&t, a), Some(TaskState::Ready));
    assert_eq!(table::can_task_resume(&t, a), Some(false));
}

#[test]
fn ipc_pending_message_is_taken_once() {
    let (mut t, mut mm) = table_setup();
    let a = table::spawn(&mut t, &mut mm, b"a", 0x8000_8010, 0).unwrap();
    let mut bytes = [0u8; 32];
    bytes[0] = 42;
    assert!(table::set_ipc_pending(&mut t, a, bytes, 1));
    assert_eq!(table::ipc_pending_len(&t, a), Some(1));
    let (got, len) = table::take_ipc_pending(&mut t, a).unwrap();
    assert_eq!(got[0], 42);
    assert_eq!(len, 1);
    assert_eq!(table::ipc_pending_len(&t, a), Some(0));
}

#[test]
fn ipc_pending_length_round_trips_for_any_byte() {
    let (mut t, mut mm) = table_setup();
    let a = table::spawn(&mut t, &mut mm, b"a", 0x8000_8010, 0).unwrap();
    let bytes = [7u8; 32];
    assert!(table::set_ipc_pending(&mut t, a, bytes, 200));
    assert_eq!(table::ipc_pending_len(&t, a), Some(200));
    assert_eq!(table::take_ipc_pending(&mut t, a), Some((bytes, 200)));
    assert_eq!(table::take_ipc_pending(&mut t, a), Some(([0u8; 32], 0)));
    assert!(!table::set_ipc_pending(&mut t, TaskId(0x1_0000_0005), bytes, 1));
    assert_eq!(table::take_ipc_pending(&mut t, TaskId(0x1_0000_0005)), None);
}

#[test]
fn user_task_names_carry_the_hart_digit() {
    let mut mm = PageAllocator::new();
    memory::init(&mut mm, &table_layout());
    let mut t = TaskTable::uninit(3);
    assert!(table::init(&mut t, &mut mm, 256).is_some());
    let id = table::spawn_user(&mut t, &mut mm, 0x8000_8040, 9).unwrap();
    assert_eq!(id.hart(), 3);
    assert_eq!(table::print_task_name_by_id(&t, id), b"u-3".to_vec());
}

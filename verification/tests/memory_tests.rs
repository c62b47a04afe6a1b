use picoos::arch::riscv64::cpu::{self, PmpRegs};
use picoos::arch::riscv64::pmp;
use picoos::kernel::hart_local::{self, HartUTids};
use picoos::kernel::memory::{self, Layout, PageAllocator, PAGE_SIZE};
use picoos::kernel::task::scheduler::{self, SchedMarkers};
use picoos::platform;

fn layout() -> Layout {
    Layout {
        kernel_start: 0x8000_0000,
        kernel_end: 0x8002_0000,
        text_start: 0x8000_0000,
        text_end: 0x8000_8000,
        user_text_start: 0x8000_8000,
        user_text_end: 0x8000_9000,
        rodata_start: 0x8000_9000,
        rodata_end: 0x8000_a000,
        data_start: 0x8000_a000,
        data_end: 0x8000_b000,
        bss_start: 0x8000_b000,
        bss_end: 0x8001_0000,
        stack_top: 0x8002_0000,
        free_memory_start: 0x8002_0000,
    }
}

#[test]
fn page_alloc_three_free_realloc_same_address() {
    let mut mm = PageAllocator::new();
    memory::init(&mut mm, &layout());
    let first = memory::allocate_page(&mut mm, 0).unwrap();
    let second = memory::allocate_page(&mut mm, 0).unwrap();
    let third = memory::allocate_page(&mut mm, 0).unwrap();
    assert_eq!(second, first + PAGE_SIZE);
    assert_eq!(third, first + 2 * PAGE_SIZE);
    assert_eq!(memory::stats(&mm).used, 3);
    memory::free_pages(&mut mm, 0, memory::PhysPage::new(first).unwrap(), 3);
    assert_eq!(memory::stats(&mm).used, 0);
    let again = memory::alloc_pages(&mut mm, 0, 3).unwrap();
    assert_eq!(again.addr(), first);
}

#[test]
fn pmp_init_programs_layout_and_reports_it() {
    let mut regs = PmpRegs::new();
    let report = pmp::init(&mut regs, &layout(), 0x8002_0000, 0x8002_1000);
    assert_eq!(regs.cfg0, 0x1B_090D_0808);
    assert_eq!(regs.cfg2, 0);
    assert_eq!(cpu::pmpaddr(&regs, 0), 0x8000_0000 >> 2);
    assert_eq!(cpu::pmpaddr(&regs, 1), 0x8000_8000 >> 2);
    assert_eq!(cpu::pmpaddr(&regs, 2), 0x8000_9000 >> 2);
    assert_eq!(cpu::pmpaddr(&regs, 3), 0x8000_a000 >> 2);
    assert_eq!(cpu::pmpaddr(&regs, 4), 0);
    let text = String::from_utf8(report).unwrap();
    assert!(text.starts_with("\r\nPMP (TOR usertext/rodata, NAPOT stack):\r\n"));
    assert!(text.contains("user text: 0x0000000080008000 - 0x0000000080009000\r\n"));
    assert!(text.contains("trap stack: 0x0000000080020000 - 0x0000000080021000\r\n"));
    assert!(text.contains("pmpcfg0: 0x0000001B090D0808\r\n"));
    assert!(text.contains("pmpaddr2: 0x0000000020002400\r\n"));
    assert!(text.ends_with("pmpaddr15: 0x0000000000000000\r\n"));
}

#[test]
fn pmp_tor_rounds_unaligned_end_up() {
    let mut l = layout();
    l.rodata_end = 0x8000_a001;
    let mut regs = PmpRegs::new();
    pmp::init(&mut regs, &l, 0, 0);
    assert_eq!(cpu::pmpaddr(&regs, 3), (0x8000_a000 >> 2) + 1);
}

#[test]
fn hart_board_publishes_and_clears_the_running_task() {
    let mut board = HartUTids::new();
    assert_eq!(hart_local::hart_index(3), 3);
    hart_local::publish_u_tid(&mut board, 3, 0x1_0000_0002);
    assert_eq!(board.tids[3], 0x1_0000_0002);
    assert_eq!(board.tids[0], 0);
    hart_local::clear_u_tid(&mut board, 3);
    assert_eq!(board.tids[3], 0);
}

#[test]
fn kernel_text_bounds_are_half_open() {
    let l = layout();
    assert!(memory::is_inside_kernel_text(&l, 0x8000_0000));
    assert!(memory::is_inside_kernel_text(&l, 0x8000_7fff));
    assert!(!memory::is_inside_kernel_text(&l, 0x8000_8000));
    assert!(memory::is_inside_user_text(&l, 0x8000_8000));
    assert!(!memory::is_inside_user_text(&l, 0x8000_9000));
}

#[test]
fn clint_registers_of_a_hart() {
    assert_eq!(platform::clint_msip(2), 0x0200_0008);
    assert_eq!(platform::clint_mtimecmp(2), 0x0200_4010);
}

#[test]
fn join_leak_lines_print_once_at_the_baseline() {
    let mut mm = PageAllocator::new();
    memory::init(&mut mm, &layout());
    let mut markers = SchedMarkers::new();
    assert!(scheduler::note_join_reap(&mut markers, &mm).is_empty());
    scheduler::capture_default_join_baseline(&mut markers, &mm);
    assert_eq!(markers.join_leak_baseline, Some(memory::stats(&mm).used));
    let page = memory::allocate_page(&mut mm, 0).unwrap();
    assert!(scheduler::note_join_reap(&mut markers, &mm).is_empty());
    memory::free_pages(&mut mm, 0, memory::PhysPage::new(page).unwrap(), 1);
    let text = String::from_utf8(scheduler::note_join_reap(&mut markers, &mm)).unwrap();
    assert_eq!(text, "default spawn join: OK\r\nspawn join leak: OK\r\n");
    assert!(scheduler::note_join_reap(&mut markers, &mm).is_empty());
}

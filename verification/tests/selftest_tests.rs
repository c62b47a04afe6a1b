use picoos::kernel::contract::BootContract;
use picoos::kernel::cpu::Cpu;
use picoos::kernel::memory::{self, Layout, PageAllocator};
use picoos::kernel::selftest;
use picoos::kernel::task::bootstrap;
use picoos::kernel::task::image::{self, Workers};
use picoos::kernel::task::table::{self, TaskTable};

fn st_layout() -> Layout {
    Layout {
        kernel_start: 0x8000_0000,
        kernel_end: 0x8002_0000,
        text_start: 0x8000_0000,
        text_end: 0x8000_8000,
        user_text_start: 0x8000_8000,
        user_text_end: 0x8000_9000,
        rodata_start: 0x8000_9000,
        rodata_end: 0x8000_a000,
        data_start: 0x8000_a000,
        data_end: 0x8000_b000,
        bss_start: 0x8000_b000,
        bss_end: 0x8001_0000,
        stack_top: 0x8002_0000,
        free_memory_start: 0x8002_0000,
    }
}

fn st_workers() -> Workers {
    Workers {
        yield_main: 0x8000_8100,
        sleep_main: 0x8000_8200,
        pmp_deny: 0x8000_8300,
        two_yield: 0x8000_8400,
        handoff_a: 0x8000_8500,
        handoff_b: 0x8000_8600,
        clean_exit: 0x8000_8700,
        ebreak: 0x8000_8800,
        sleep_e2e: 0x8000_8900,
    }
}

#[test]
fn page_allocator_self_test_passes_on_a_fresh_allocator() {
    let mut mm = PageAllocator::new();
    let text = String::from_utf8(selftest::test_page_allocator(&mut mm, &st_layout(), 0)).unwrap();
    assert!(text.starts_with("\r\npage allocator:\r\npage size: 4096 bytes\r\nRAM start: 0x0000000080000000\r\n"));
    assert!(text.contains("allocated page: 0x0000000080020000\r\nallocated page: 0x0000000080021000\r\nallocated page: 0x0000000080022000\r\n"));
    assert!(text.contains("reallocated page: 0x0000000080020000\r\npage free+realloc: OK\r\n"));
    assert_eq!(memory::stats(&mm).used, 0);
}

#[test]
fn memory_self_tests_report() {
    let mut mm = PageAllocator::new();
    let mut t = TaskTable::uninit(0);
    let (bytes, ok) = selftest::run_memory_tests(&mut mm, &mut t, &st_layout(), 0, 256, 0x8000_8010);
    assert!(ok);
    let text = String::from_utf8(bytes).unwrap();
    assert!(text.starts_with("\r\nmemory layout:\r\nkernel: 0x0000000080000000 - 0x0000000080020000 size: 131072 bytes\r\n"));
    assert!(text.contains("page free+realloc: OK\r\n"));
    assert!(text.contains("page alloc/free 4: OK\r\n"));
    assert!(text.contains("\r\nmm reap:\r\ntask table hart 0: cap 512 pages 32\r\nreaped id reused: yes\r\nmm leak check: OK\r\n"));
    let stats_at = text.rfind("mm free: ").unwrap();
    assert!(text[stats_at..].contains("\r\nmm used: "));
}

#[test]
fn default_image_starts_three_workers() {
    let mut mm = PageAllocator::new();
    memory::init(&mut mm, &st_layout());
    let mut t = TaskTable::uninit(0);
    let text = String::from_utf8(image::spawn_default_image(&mut t, &mut mm, 256, BootContract::Default, st_workers(), &st_layout(), 0x8000_0300, 0x8000_8f00).0).unwrap();
    assert!(text.starts_with("task table hart 0: cap 512 pages 32\r\ndefault image: idle + worker_yield + worker_sleep\r\ntask list:\r\n"));
    assert!(text.contains("name: worker-yield\r\n"));
    assert!(text.contains("name: worker-sleep\r\n"));
    assert!(text.ends_with("name: worker-pmp-deny\r\n"));
    let first = table::get_task_by_local_index(&t, 0).unwrap();
    assert_eq!(first.initial_pc, 0x8000_8100);
}

#[test]
fn fault_image_starts_an_exit_worker_and_a_trap_worker() {
    let mut mm = PageAllocator::new();
    memory::init(&mut mm, &st_layout());
    let mut t = TaskTable::uninit(0);
    let text = String::from_utf8(image::spawn_default_image(&mut t, &mut mm, 256, BootContract::Fault, st_workers(), &st_layout(), 0x8000_0300, 0x8000_8f00).0).unwrap();
    assert!(text.starts_with("task table hart 0: cap 512 pages 32\r\nfault image: exit worker + U-mode ebreak\r\n"));
    assert!(text.ends_with("name: trap-worker\r\n"));
    assert!(table::get_task_by_local_index(&t, 2).is_none());
}

#[test]
fn selftest_boot_runs_both_suites() {
    let mut mm = PageAllocator::new();
    let mut t = TaskTable::uninit(0);
    let mut cpu = Cpu::new();
    let text = String::from_utf8(selftest::run_selftests(
        &mut mm, &mut t, &mut cpu, &st_layout(), 0, 256, 0x8000_8010, 0x8000_0400, 0x8000_0500, 0x8000_0600,
    ))
    .unwrap();
    assert!(text.starts_with("\r\nselftest mode:\r\n\r\n[selftest] memory\r\n"));
    let tt = text.find("\r\n\r\n[selftest] task table\r\ntask table hart 0: cap ").unwrap();
    assert!(text[tt..].contains(" pages 32\r\ntask id 0 context guard: yes\r\ntask list:\r\n"));
    assert!(text.contains("name: idle\r\n"));
    assert!(text.ends_with("name: worker-b\r\n\r\nselftest complete\r\n"));
    assert!(cpu.current.is_none());
}

#[test]
fn sleep_image_runs_the_sleep_selftest_first() {
    let mut mm = PageAllocator::new();
    memory::init(&mut mm, &st_layout());
    let mut t = TaskTable::uninit(0);
    let (bytes, ok) = image::spawn_default_image(
        &mut t,
        &mut mm,
        256,
        BootContract::Sleep,
        st_workers(),
        &st_layout(),
        0x8000_0300,
        0x8000_8f00,
    );
    let text = String::from_utf8(bytes).unwrap();
    assert!(ok);
    let expected_probe = [
        "task table hart 0: cap 512 pages 32\r\n",
        "task sleep table selftest:\r\n",
        "  mark started before sleep: yes\r\n",
        "  mark blocked until tick=3: yes\r\n",
        "  woke at tick=2: 0\r\n",
        "  still blocked at tick=2: yes\r\n",
        "  resumable at tick=2: none\r\n",
        "  woke at tick=3: 1\r\n",
        "  state Ready after wake: yes\r\n",
        "  can resume after wake: no\r\n",
        "  last return is None after wake: yes\r\n",
        "  resumable at tick=3: none\r\n",
        "task sleep wake no-image: OK\r\n",
        "task sleep table selftest (saved image):\r\n",
        "  injected resume image: yes\r\n",
        "  can resume after wake with image: yes\r\n",
        "  last return is Sleep after wake with image: yes\r\n",
        "task sleep wake image result: OK\r\n",
        "task sleep wake result: OK\r\n",
        "sleep image: U-mode sleep then exit\r\n",
        "task list:\r\n",
    ]
    .concat();
    assert!(text.starts_with(&expected_probe), "{}", text);
    assert!(text.ends_with("name: worker-sleep\r\n"));
}

#[test]
fn sleep_selftest_fails_without_a_free_slot() {
    let mut mm = PageAllocator::new();
    memory::init(&mut mm, &st_layout());
    let mut t = TaskTable::uninit(0);
    let (bytes, ok) = bootstrap::test_task_sleep_wakeup_table_selftest(&mut t, &mut mm, &st_layout(), 0x8000_0300, 0x8000_8f00);
    assert!(!ok);
    assert_eq!(String::from_utf8(bytes).unwrap(), "task sleep table selftest:\r\ntask sleep wake result: FAILED\r\n");
}

#[test]
fn sleep_selftest_image_check_fails_with_a_frame_outside_usertext() {
    let mut mm = PageAllocator::new();
    memory::init(&mut mm, &st_layout());
    let mut t = TaskTable::uninit(0);
    table::init(&mut t, &mut mm, 256);
    let (bytes, ok) = bootstrap::test_task_sleep_wakeup_table_selftest(&mut t, &mut mm, &st_layout(), 0x8000_0300, 0x8000_0300);
    let text = String::from_utf8(bytes).unwrap();
    assert!(!ok);
    assert!(text.contains("task sleep wake no-image: OK\r\n"));
    assert!(text.contains("  can resume after wake with image: no\r\n"));
    assert!(text.ends_with("task sleep wake image result: FAILED\r\n"));
}

#[test]
fn an_image_halts_when_the_pool_cannot_back_the_table() {
    let mut mm = PageAllocator::new();
    let mut t = TaskTable::uninit(0);
    let (bytes, ok) = image::spawn_default_image(&mut t, &mut mm, 256, BootContract::Default, st_workers(), &st_layout(), 0x8000_0300, 0x8000_8f00);
    assert!(!ok);
    assert_eq!(String::from_utf8(bytes).unwrap(), "mm: hart pool too small for table\r\n");
    assert_eq!(table::table_capacity(&t), 0);
}

#[test]
fn the_task_table_test_halts_when_the_pool_cannot_back_the_table() {
    let mut mm = PageAllocator::new();
    let mut t = TaskTable::uninit(0);
    let mut cpu = Cpu::new();
    let (bytes, ok) = image::test_tasks(&mut t, &mut mm, &mut cpu, 256, 0x8000_0400, 0x8000_0500, 0x8000_0600);
    assert!(!ok);
    assert_eq!(String::from_utf8(bytes).unwrap(), "mm: hart pool too small for table\r\n");
}

#[test]
fn a_table_on_another_hart_prints_no_capacity_line() {
    let mut mm = PageAllocator::new();
    memory::init(&mut mm, &st_layout());
    let mut t = TaskTable::uninit(1);
    let r = table::init(&mut t, &mut mm, 256);
    assert!(table::print_init(&t, r).is_empty() || r.is_none());
    assert_eq!(String::from_utf8(table::print_init(&t, None)).unwrap(), "mm: hart pool too small for table\r\n");
}

use picoos::kernel::heap::{self, Heap};
use picoos::kernel::memory::{self, Layout, PageAllocator, PAGE_SIZE};

fn heap_layout() -> Layout {
    Layout {
        kernel_start: 0x8000_0000,
        kernel_end: 0x8002_0000,
        text_start: 0x8000_0000,
        text_end: 0x8000_8000,
        user_text_start: 0x8000_8000,
        user_text_end: 0x8000_9000,
        rodata_start: 0x8000_9000,
        rodata_end: 0x8000_a000,
        data_start: 0x8000_a000,
        data_end: 0x8000_b000,
        bss_start: 0x8000_b000,
        bss_end: 0x8001_0000,
        stack_top: 0x8002_0000,
        free_memory_start: 0x8002_0000,
    }
}

fn heap_pool() -> PageAllocator {
    let mut mm = PageAllocator::new();
    memory::init(&mut mm, &heap_layout());
    mm
}

#[test]
fn heap_spans_four_pages_and_bumps_aligned_blocks() {
    let mut mm = heap_pool();
    let mut h = Heap::new();
    assert!(heap::init(&mut h, &mut mm, 0));
    assert_eq!(heap::heap_size(&h), 4 * PAGE_SIZE);
    assert_eq!(heap::heap_next(&h), heap::heap_start(&h));
    let start = heap::heap_start(&h);
    let a = heap::allocate(&mut h, 64, 8).unwrap();
    assert_eq!(a, start);
    let b = heap::allocate(&mut h, 128, 16).unwrap();
    assert_eq!(b, start + 64);
    let c = heap::allocate(&mut h, 4096, 4096).unwrap();
    assert_eq!(c % 4096, 0);
    assert!(c >= b + 128);
    assert_eq!(c, start + 4096);
    let d = heap::allocate(&mut h, 8192, 4096).unwrap();
    assert_eq!(d, start + 8192);
    assert_eq!(heap::heap_next(&h), heap::heap_end(&h));
    assert_eq!(heap::allocate(&mut h, 1, 1), None);
}

#[test]
fn heap_refuses_bad_requests() {
    let mut h = Heap::new();
    assert_eq!(heap::allocate(&mut h, 16, 8), None);
    let mut mm = heap_pool();
    assert!(heap::init(&mut h, &mut mm, 0));
    assert_eq!(heap::allocate(&mut h, 0, 8), None);
    assert_eq!(heap::allocate(&mut h, 8, 0), None);
    assert_eq!(heap::allocate(&mut h, 8, 12), None);
    assert_eq!(heap::allocate(&mut h, u64::MAX, 8), None);
}

#[test]
fn heap_on_an_empty_pool_fails() {
    let mut mm = PageAllocator::new();
    let mut h = Heap::new();
    assert!(!heap::init(&mut h, &mut mm, 0));
    assert!(h == Heap::new());
}

#[test]
fn heap_self_test_report() {
    let mut mm = heap_pool();
    let mut h = Heap::new();
    let text = String::from_utf8(heap::test_heap(&mut h, &mut mm, 0)).unwrap();
    let start = heap::heap_start(&h);
    assert!(text.starts_with("\r\nheap:\r\nheap start: 0x"));
    assert!(text.contains("heap size: 16384 bytes\r\n"));
    assert!(text.contains(&format!("alloc 64 bytes align 8: 0x{:016X}\r\n", start)));
    assert!(text.contains(&format!("alloc 8192 bytes align 4096: 0x{:016X}\r\n", start + 8192)));
    assert!(text.ends_with(&format!("next heap pointer: 0x{:016X}\r\n", start + 4 * 4096)));
}

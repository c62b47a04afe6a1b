//! A bump heap on a few pages taken from the hart's page pool.
use vstd::prelude::*;
use vstd::string::*;
use crate::drivers::uart::{self, crlf, dec_text, hex_text, line_bytes};
use crate::kernel::memory::{
    self, align_up_spec, alloc_outcome, is_pow2_u64, PageAllocator, PoolView, PAGE_SIZE,
};
use crate::platform::HART_SLOTS;

verus! {

/// Pages the heap spans.
pub const HEAP_PAGES: usize = 4;

/// The heap `[start, end)`, with the next free byte at `next`; all zero
/// while there is no heap.
#[derive(Clone, Copy, Debug, PartialEq, Eq, Structural)]
pub struct Heap {
    pub start: u64,
    pub end: u64,
    pub next: u64,
}

/// No heap.
pub open spec fn no_heap() -> Heap {
    Heap { start: 0, end: 0, next: 0 }
}

impl Heap {
    pub fn new() -> (r: Self)
        ensures
            r == no_heap(),
    {
        Heap { start: 0, end: 0, next: 0 }
    }
}

/// Taking one page at a time from pool `p`, `n` times, stopping at the first
/// failure: the pool afterwards and the addresses taken, in order.
pub open spec fn take_pages(p: PoolView, n: nat) -> (PoolView, Seq<u64>)
    decreases n,
{
    if n == 0 {
        (p, Seq::<u64>::empty())
    } else {
        let prev = take_pages(p, (n - 1) as nat);
        if prev.1.len() < n - 1 {
            prev
        } else {
            match alloc_outcome(prev.0, 1) {
                None => prev,
                Some((s, q)) => (q, prev.1.push((prev.0.base + s * PAGE_SIZE) as u64)),
            }
        }
    }
}

proof fn lemma_take_pages_stops(p: PoolView, n: nat, m: nat)
    requires
        take_pages(p, n).1.len() < n,
        n <= m,
    ensures
        take_pages(p, m) == take_pages(p, n),
    decreases m - n,
{
    if m > n {
        lemma_take_pages_stops(p, n, (m - 1) as nat);
        lemma_take_pages_len(p, (m - 1) as nat);
    }
}

proof fn lemma_take_pages_len(p: PoolView, n: nat)
    ensures
        take_pages(p, n).1.len() <= n,
    decreases n,
{
    if n > 0 {
        lemma_take_pages_len(p, (n - 1) as nat);
    }
}

/// The heap set up on the pages taken: from the first page to the end of the
/// last one, when every page was taken.
pub open spec fn heap_over(addrs: Seq<u64>) -> Option<Heap> {
    if addrs.len() == HEAP_PAGES && addrs[HEAP_PAGES - 1] + PAGE_SIZE <= u64::MAX {
        Some(
            Heap {
                start: addrs[0],
                end: (addrs[HEAP_PAGES - 1] + PAGE_SIZE) as u64,
                next: addrs[0],
            },
        )
    } else {
        None
    }
}

/// Set up the heap on [`HEAP_PAGES`] pages of `hart`'s pool. When a page
/// cannot be had, there is no heap (the pages already taken stay taken).
pub fn init(heap: &mut Heap, mm: &mut PageAllocator, hart: usize) -> (r: bool)
    requires
        old(mm).wf(),
        hart < HART_SLOTS,
    ensures
        final(mm).wf(),
        final(mm)@ == old(mm)@.update(
            hart as int,
            take_pages(old(mm)@[hart as int], HEAP_PAGES as nat).0,
        ),
        match heap_over(take_pages(old(mm)@[hart as int], HEAP_PAGES as nat).1) {
            Some(h) => r && *final(heap) == h,
            None => !r && *final(heap) == no_heap(),
        },
{
    *heap = Heap::new();
    let ghost p = mm@[hart as int];
    let ghost pools = mm@;
    proof {
        reveal_with_fuel(take_pages, 2);
    }
    let start = match memory::allocate_page(mm, hart) {
        Some(s) => s,
        None => {
            proof {
                assert(mm@ =~= pools.update(hart as int, take_pages(p, 1).0));
                lemma_take_pages_stops(p, 1, HEAP_PAGES as nat);
            }
            return false;
        },
    };
    let mut last = start;
    let mut i: usize = 1;
    while i < HEAP_PAGES
        invariant
            mm.wf(),
            hart < HART_SLOTS,
            pools == old(mm)@,
            pools.len() == HART_SLOTS,
            p == pools[hart as int],
            1 <= i <= HEAP_PAGES,
            mm@ == pools.update(hart as int, take_pages(p, i as nat).0),
            take_pages(p, i as nat).1.len() == i,
            take_pages(p, i as nat).1[0] == start,
            take_pages(p, i as nat).1[i - 1] == last,
            *heap == no_heap(),
        decreases HEAP_PAGES - i,
    {
        let ghost before = mm@;
        match memory::allocate_page(mm, hart) {
            Some(page) => {
                last = page;
            },
            None => {
                proof {
                    assert(take_pages(p, (i + 1) as nat) == take_pages(p, i as nat));
                    lemma_take_pages_stops(p, (i + 1) as nat, HEAP_PAGES as nat);
                }
                return false;
            },
        }
        proof {
            assert(mm@ =~= pools.update(hart as int, take_pages(p, (i + 1) as nat).0));
        }
        i = i + 1;
    }
    let end = match last.checked_add(PAGE_SIZE) {
        Some(e) => e,
        None => {
            return false;
        },
    };
    *heap = Heap { start, end, next: start };
    true
}

/// Where `allocate(size, align)` places a block in `h`: at `next` rounded up to
/// `align`, when `size` is non-zero, `align` a power of two, the heap set up,
/// and the block fits before `end`.
pub open spec fn heap_alloc(h: Heap, size: u64, align: u64) -> Option<u64> {
    if size == 0 || align == 0 || !is_pow2_u64(align) {
        None
    } else if h.start == 0 || h.end == 0 || h.next == 0 {
        None
    } else {
        match align_up_spec(h.next as int, align as int) {
            None => None,
            Some(s) => if s + size > u64::MAX || s + size > h.end {
                None
            } else {
                Some(s)
            },
        }
    }
}

/// The heap after `allocate(size, align)`.
pub open spec fn heap_after(h: Heap, size: u64, align: u64) -> Heap {
    match heap_alloc(h, size, align) {
        Some(s) => Heap { next: (s + size) as u64, ..h },
        None => h,
    }
}

/// Allocate `size` bytes aligned to `align`.
pub fn allocate(heap: &mut Heap, size: u64, align: u64) -> (r: Option<u64>)
    ensures
        r == heap_alloc(*old(heap), size, align),
        *final(heap) == heap_after(*old(heap), size, align),
{
    if size == 0 || align == 0 || !align.is_power_of_two() {
        return None;
    }
    if heap.start == 0 || heap.end == 0 || heap.next == 0 {
        return None;
    }
    let start = match memory::align_up(heap.next, align) {
        Some(s) => s,
        None => {
            return None;
        },
    };
    let end = match start.checked_add(size) {
        Some(e) => e,
        None => {
            return None;
        },
    };
    if end > heap.end {
        return None;
    }
    heap.next = end;
    Some(start)
}

pub fn heap_start(heap: &Heap) -> (r: u64)
    ensures
        r == heap.start,
{
    heap.start
}

pub fn heap_end(heap: &Heap) -> (r: u64)
    ensures
        r == heap.end,
{
    heap.end
}

pub fn heap_next(heap: &Heap) -> (r: u64)
    ensures
        r == heap.next,
{
    heap.next
}

/// Bytes the heap spans.
pub fn heap_size(heap: &Heap) -> (r: u64)
    ensures
        r == if heap.end >= heap.start {
            heap.end - heap.start
        } else {
            0
        },
{
    heap.end.saturating_sub(heap.start)
}

/// Console text of one allocation attempt and its result.
pub open spec fn alloc_line(size: u64, align: u64, result: Option<u64>) -> Seq<u8> {
    crlf("alloc ".spec_bytes()) + dec_text(size) + crlf(" bytes align ".spec_bytes()) + dec_text(
        align,
    ) + crlf(": ".spec_bytes()) + match result {
        Some(addr) => hex_text(addr) + line_bytes("".spec_bytes()),
        None => line_bytes("FAILED".spec_bytes()),
    }
}

fn alloc_and_print(heap: &mut Heap, size: u64, align: u64) -> (r: Vec<u8>)
    ensures
        r@ == alloc_line(size, align, heap_alloc(*old(heap), size, align)),
        *final(heap) == heap_after(*old(heap), size, align),
{
    let mut out = uart::write_str("alloc ");
    let mut a = uart::write_dec_u64(size);
    out.append(&mut a);
    let mut b = uart::write_str(" bytes align ");
    out.append(&mut b);
    let mut c = uart::write_dec_u64(align);
    out.append(&mut c);
    let mut d = uart::write_str(": ");
    out.append(&mut d);
    match allocate(heap, size, align) {
        Some(addr) => {
            let mut e = uart::write_hex_u64(addr);
            out.append(&mut e);
            let mut f = uart::write_line("");
            out.append(&mut f);
        },
        None => {
            let mut e = uart::write_line("FAILED");
            out.append(&mut e);
        },
    }
    out
}

/// Console text of the heap's bounds and size.
pub open spec fn heap_bounds_text(h: Heap) -> Seq<u8> {
    crlf("heap start: ".spec_bytes()) + hex_text(h.start) + line_bytes("".spec_bytes()) + crlf(
        "heap end: ".spec_bytes(),
    ) + hex_text(h.end) + line_bytes("".spec_bytes()) + crlf("heap size: ".spec_bytes())
        + dec_text(if h.end >= h.start { (h.end - h.start) as u64 } else { 0 }) + line_bytes(
        " bytes".spec_bytes(),
    )
}

/// Console text of the self-test allocations from `h` and the next free byte.
pub open spec fn test_allocs_text(h: Heap) -> Seq<u8> {
    let h1 = heap_after(h, 64, 8);
    let h2 = heap_after(h1, 128, 16);
    let h3 = heap_after(h2, 4096, 4096);
    let h4 = heap_after(h3, 8192, 4096);
    alloc_line(64, 8, heap_alloc(h, 64, 8)) + alloc_line(128, 16, heap_alloc(h1, 128, 16))
        + alloc_line(4096, 4096, heap_alloc(h2, 4096, 4096)) + alloc_line(
        8192,
        4096,
        heap_alloc(h3, 8192, 4096),
    ) + crlf("next heap pointer: ".spec_bytes()) + hex_text(h4.next) + line_bytes("".spec_bytes())
}

fn print_heap_bounds(heap: &Heap) -> (r: Vec<u8>)
    ensures
        r@ == heap_bounds_text(*heap),
{
    let mut out = uart::write_str("heap start: ");
    let mut c = uart::write_hex_u64(heap_start(heap));
    out.append(&mut c);
    let mut d = uart::write_line("");
    out.append(&mut d);
    let mut e = uart::write_str("heap end: ");
    out.append(&mut e);
    let mut f = uart::write_hex_u64(heap_end(heap));
    out.append(&mut f);
    let mut g = uart::write_line("");
    out.append(&mut g);
    let mut i = uart::write_str("heap size: ");
    out.append(&mut i);
    let mut j = uart::write_dec_u64(heap_size(heap));
    out.append(&mut j);
    let mut l = uart::write_line(" bytes");
    out.append(&mut l);
    out
}

fn run_test_allocs(heap: &mut Heap) -> (r: Vec<u8>)
    ensures
        r@ == test_allocs_text(*old(heap)),
        *final(heap) == heap_after(
            heap_after(heap_after(heap_after(*old(heap), 64, 8), 128, 16), 4096, 4096),
            8192,
            4096,
        ),
{
    let mut out = alloc_and_print(heap, 64, 8);
    let mut n = alloc_and_print(heap, 128, 16);
    out.append(&mut n);
    let mut o = alloc_and_print(heap, 4096, 4096);
    out.append(&mut o);
    let mut q = alloc_and_print(heap, 8192, 4096);
    out.append(&mut q);
    let mut s = uart::write_str("next heap pointer: ");
    out.append(&mut s);
    let mut t = uart::write_hex_u64(heap_next(heap));
    out.append(&mut t);
    let mut u = uart::write_line("");
    out.append(&mut u);
    out
}

/// The heap self-test report on heap `h` after its set-up: bounds, four
/// allocations, and the next free byte.
pub open spec fn heap_test_report(h: Heap) -> Seq<u8> {
    heap_bounds_text(h) + test_allocs_text(h)
}

/// The heap self-test: set the heap up on `hart`'s pool, report it, and
/// allocate four blocks from it.
pub fn test_heap(heap: &mut Heap, mm: &mut PageAllocator, hart: usize) -> (r: Vec<u8>)
    requires
        old(mm).wf(),
        hart < HART_SLOTS,
    ensures
        final(mm).wf(),
        final(mm)@ == old(mm)@.update(
            hart as int,
            take_pages(old(mm)@[hart as int], HEAP_PAGES as nat).0,
        ),
        ({
            let head = line_bytes("".spec_bytes()) + line_bytes("heap:".spec_bytes());
            match heap_over(take_pages(old(mm)@[hart as int], HEAP_PAGES as nat).1) {
                Some(h) => {
                    &&& r@ == head + heap_test_report(h)
                    &&& *final(heap) == heap_after(
                        heap_after(heap_after(heap_after(h, 64, 8), 128, 16), 4096, 4096),
                        8192,
                        4096,
                    )
                },
                None => r@ == head + line_bytes("heap init: FAILED".spec_bytes()) && *final(heap)
                    == no_heap(),
            }
        }),
{
    let mut out = uart::write_line("");
    let mut a = uart::write_line("heap:");
    out.append(&mut a);
    if !init(heap, mm, hart) {
        let mut f = uart::write_line("heap init: FAILED");
        out.append(&mut f);
        return out;
    }
    let ghost h = *heap;
    let ghost head = out@;
    let mut bounds = print_heap_bounds(heap);
    out.append(&mut bounds);
    let mut allocs = run_test_allocs(heap);
    out.append(&mut allocs);
    assert(out@ =~= head + heap_test_report(h));
    out
}

/// A block the heap hands out is aligned to its request, starts at or after
/// the next free byte, ends within the heap, and the next free byte moves to
/// its end.
pub proof fn lemma_heap_alloc_bounds(h: Heap, size: u64, align: u64)
    requires
        heap_alloc(h, size, align) is Some,
    ensures
        ({
            let s = heap_alloc(h, size, align)->Some_0;
            &&& s % align == 0
            &&& h.next <= s
            &&& s + size <= h.end
            &&& heap_after(h, size, align).next == s + size
        }),
{
    let a = align as int;
    let x = h.next + a - 1;
    vstd::arithmetic::div_mod::lemma_fundamental_div_mod(x, a);
    vstd::arithmetic::div_mod::lemma_mod_multiples_basic(x / a, a);
    vstd::arithmetic::mul::lemma_mul_is_commutative(a, x / a);
}

/// Two blocks handed out one after the other do not overlap: the second
/// starts at or after the end of the first.
pub proof fn lemma_heap_allocs_disjoint(h: Heap, size1: u64, align1: u64, size2: u64, align2: u64)
    requires
        heap_alloc(h, size1, align1) is Some,
        heap_alloc(heap_after(h, size1, align1), size2, align2) is Some,
    ensures
        heap_alloc(h, size1, align1)->Some_0 + size1 <= heap_alloc(
            heap_after(h, size1, align1),
            size2,
            align2,
        )->Some_0,
{
    lemma_heap_alloc_bounds(h, size1, align1);
    lemma_heap_alloc_bounds(heap_after(h, size1, align1), size2, align2);
}

} // verus!

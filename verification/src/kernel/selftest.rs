//! Boot-time self-tests of the page allocator and of task reaping.
use vstd::prelude::*;
use vstd::string::*;
use crate::drivers::uart::{self, crlf, dec_text, hex_text, line_bytes};
use crate::kernel::memory::{
    self, alloc_outcome, free_outcome, init_pool, init_start, lowest_free_addr, mm_stats_text,
    sum_used, Layout, PageAllocator, PoolView, PAGE_SIZE,
};
use crate::kernel::cpu::Cpu;
use crate::kernel::task::image::tasks_test_run;
use crate::kernel::task::table::{
    self, finished_task, id_local, init_text, reaped, spawned, TaskId, TaskTable,
};
use crate::platform::{HART_SLOTS, RAM_START};

verus! {

/// Pages in use over all harts.
pub open spec fn pages_used(pools: Seq<PoolView>) -> int {
    sum_used(pools, HART_SLOTS as int)
}

/// Allocating `n` pages from hart `h`'s pool: the address handed out, if
/// any, and the pools afterwards.
pub open spec fn alloc_step(pools: Seq<PoolView>, h: int, n: int) -> (Option<u64>, Seq<PoolView>) {
    match alloc_outcome(pools[h], n) {
        None => (None, pools),
        Some((s, np)) => (Some((pools[h].base + s * PAGE_SIZE) as u64), pools.update(h, np)),
    }
}

/// Freeing `n` pages at `addr` to hart `h`'s pool: the pools afterwards.
pub open spec fn free_step(pools: Seq<PoolView>, h: int, addr: u64, n: int) -> Seq<PoolView> {
    match free_outcome(pools[h], addr as int, n) {
        None => pools,
        Some(np) => pools.update(h, np),
    }
}

/// The pools after `memory::init` with `layout`.
pub open spec fn pools_after_init(pools: Seq<PoolView>, layout: Layout) -> Seq<PoolView> {
    match init_start(layout.free_memory_start) {
        None => pools,
        Some(start) => Seq::new(HART_SLOTS as nat, |h: int| init_pool(start as int, h)),
    }
}

/// First address past pool `p`, or 0 when it manages nothing.
pub open spec fn pool_end(p: PoolView) -> u64 {
    if p.base == 0 {
        0
    } else {
        (p.base + p.valid_bits * PAGE_SIZE) as u64
    }
}

/// Console line of a single-page allocation.
pub open spec fn allocated_line(r: Option<u64>) -> Seq<u8> {
    match r {
        Some(a) => crlf("allocated page: ".spec_bytes()) + hex_text(a) + line_bytes("".spec_bytes()),
        None => line_bytes("allocated page: FAILED".spec_bytes()),
    }
}

/// The first half of the page allocator test on hart `h`: the pool bounds,
/// three single-page allocations and the counts; its report, the first
/// page, and the pools after.
pub open spec fn page_test_allocs(pools: Seq<PoolView>, h: int) -> (Seq<u8>, Option<u64>, Seq<PoolView>) {
    let (r1, q1) = alloc_step(pools, h, 1);
    let (r2, q2) = alloc_step(q1, h, 1);
    let (r3, q3) = alloc_step(q2, h, 1);
    (
        crlf("page size: ".spec_bytes()) + dec_text(PAGE_SIZE) + line_bytes(" bytes".spec_bytes())
            + crlf("RAM start: ".spec_bytes()) + hex_text(RAM_START as u64) + line_bytes(
            "".spec_bytes(),
        ) + crlf("RAM end: ".spec_bytes()) + hex_text(pool_end(pools[h])) + line_bytes(
            "".spec_bytes(),
        ) + crlf("initial free page: ".spec_bytes()) + hex_text(lowest_free_addr(pools[h]) as u64)
            + line_bytes("".spec_bytes()) + allocated_line(r1) + allocated_line(r2) + allocated_line(
            r3,
        ) + crlf("next free page: ".spec_bytes()) + hex_text(lowest_free_addr(q3[h]) as u64)
            + line_bytes("".spec_bytes()) + mm_stats_text(q3),
        r1,
        q3,
    )
}

/// The second half: with three pages in use, return the run from the first
/// page and allocate three again, which must land on the first page.
pub open spec fn page_test_check(q3: Seq<PoolView>, h: int, r1: Option<u64>) -> (Seq<u8>, Seq<PoolView>) {
    if pages_used(q3) != 3 {
        (line_bytes("page free+realloc: FAILED used after alloc".spec_bytes()), q3)
    } else {
        match r1 {
            Some(a1) if a1 % PAGE_SIZE == 0 => {
                let q4 = free_step(q3, h, a1, 3);
                if pages_used(q4) != 0 {
                    (line_bytes("page free+realloc: FAILED used after free".spec_bytes()), q4)
                } else {
                    let (ra, q5) = alloc_step(q4, h, 3);
                    match ra {
                        None => (line_bytes("page free+realloc: FAILED realloc".spec_bytes()), q5),
                        Some(b) => {
                            let ok = a1 == b && pages_used(q5) == 3;
                            let q6 = free_step(q5, h, b, 3);
                            (
                                crlf("reallocated page: ".spec_bytes()) + hex_text(b) + line_bytes(
                                    "".spec_bytes(),
                                ) + line_bytes(
                                    if ok && pages_used(q6) == 0 {
                                        "page free+realloc: OK".spec_bytes()
                                    } else {
                                        "page free+realloc: FAILED".spec_bytes()
                                    },
                                ) + mm_stats_text(q6),
                                q6,
                            )
                        },
                    }
                }
            },
            _ => (line_bytes("page free+realloc: FAILED missing first page".spec_bytes()), q3),
        }
    }
}

/// The page allocator test on hart `h` from freshly set-up pools: its report
/// and the pools after.
#[verifier::opaque]
pub open spec fn page_test(pools: Seq<PoolView>, h: int) -> (Seq<u8>, Seq<PoolView>) {
    let (pre, r1, q3) = page_test_allocs(pools, h);
    let (post, q) = page_test_check(q3, h, r1);
    (pre + post, q)
}

fn allocate_and_print(mm: &mut PageAllocator, hart: usize) -> (r: (Option<u64>, Vec<u8>))
    requires
        old(mm).wf(),
        hart < HART_SLOTS,
    ensures
        final(mm).wf(),
        (r.0, final(mm)@) == alloc_step(old(mm)@, hart as int, 1),
        r.1@ == allocated_line(r.0),
{
    match memory::allocate_page(mm, hart) {
        Some(page) => {
            let mut out = uart::write_str("allocated page: ");
            let mut a = uart::write_hex_u64(page);
            out.append(&mut a);
            let mut b = uart::write_line("");
            out.append(&mut b);
            (Some(page), out)
        },
        None => (None, uart::write_line("allocated page: FAILED")),
    }
}

fn print_page_test_head(mm: &PageAllocator, hart: usize) -> (r: Vec<u8>)
    requires
        mm.wf(),
        hart < HART_SLOTS,
    ensures
        r@ == crlf("page size: ".spec_bytes()) + dec_text(PAGE_SIZE) + line_bytes(" bytes".spec_bytes())
            + crlf("RAM start: ".spec_bytes()) + hex_text(RAM_START as u64) + line_bytes(
            "".spec_bytes(),
        ) + crlf("RAM end: ".spec_bytes()) + hex_text(pool_end(mm@[hart as int])) + line_bytes(
            "".spec_bytes(),
        ) + crlf("initial free page: ".spec_bytes()) + hex_text(
            lowest_free_addr(mm@[hart as int]) as u64,
        ) + line_bytes("".spec_bytes()),
{
    let mut out = uart::write_str("page size: ");
    let mut a = uart::write_dec_u64(PAGE_SIZE);
    out.append(&mut a);
    let mut b = uart::write_line(" bytes");
    out.append(&mut b);
    let mut c = uart::write_str("RAM start: ");
    out.append(&mut c);
    let mut d = uart::write_hex_u64(RAM_START as u64);
    out.append(&mut d);
    let mut e = uart::write_line("");
    out.append(&mut e);
    let mut f = uart::write_str("RAM end: ");
    out.append(&mut f);
    let mut g = uart::write_hex_u64(memory::memory_end(mm, hart));
    out.append(&mut g);
    let mut i = uart::write_line("");
    out.append(&mut i);
    let mut j = uart::write_str("initial free page: ");
    out.append(&mut j);
    let mut l = uart::write_hex_u64(memory::free_memory_current(mm, hart));
    out.append(&mut l);
    let mut m = uart::write_line("");
    out.append(&mut m);
    out
}

fn run_page_test_allocs(mm: &mut PageAllocator, hart: usize) -> (r: (Option<u64>, Vec<u8>))
    requires
        old(mm).wf(),
        hart < HART_SLOTS,
    ensures
        final(mm).wf(),
        ({
            let (text, first, pools) = page_test_allocs(old(mm)@, hart as int);
            r.1@ == text && r.0 == first && final(mm)@ == pools
        }),
{
    let mut pre = print_page_test_head(mm, hart);
    let (first, mut l1) = allocate_and_print(mm, hart);
    pre.append(&mut l1);
    let (_, mut l2) = allocate_and_print(mm, hart);
    pre.append(&mut l2);
    let (_, mut l3) = allocate_and_print(mm, hart);
    pre.append(&mut l3);
    let mut n1 = uart::write_str("next free page: ");
    pre.append(&mut n1);
    let mut n2 = uart::write_hex_u64(memory::free_memory_current(mm, hart));
    pre.append(&mut n2);
    let mut n3 = uart::write_line("");
    pre.append(&mut n3);
    let mut st = memory::print_mm_stats(mm);
    pre.append(&mut st);
    (first, pre)
}

fn run_page_test_check(mm: &mut PageAllocator, hart: usize, first: Option<u64>) -> (r: Vec<u8>)
    requires
        old(mm).wf(),
        hart < HART_SLOTS,
    ensures
        final(mm).wf(),
        ({
            let (text, pools) = page_test_check(old(mm)@, hart as int, first);
            r@ == text && final(mm)@ == pools
        }),
{
    if memory::stats(mm).used != 3 {
        return uart::write_line("page free+realloc: FAILED used after alloc");
    }
    let page = match first {
        Some(a) => match memory::PhysPage::new(a) {
            Some(p) => p,
            None => {
                return uart::write_line("page free+realloc: FAILED missing first page");
            },
        },
        None => {
            return uart::write_line("page free+realloc: FAILED missing first page");
        },
    };
    memory::free_pages(mm, hart, page, 3);
    if memory::stats(mm).used != 0 {
        return uart::write_line("page free+realloc: FAILED used after free");
    }
    let again = match memory::alloc_pages(mm, hart, 3) {
        Some(p) => p,
        None => {
            return uart::write_line("page free+realloc: FAILED realloc");
        },
    };
    let mut out = uart::write_str("reallocated page: ");
    let mut rb = uart::write_hex_u64(again.addr());
    out.append(&mut rb);
    let mut rc = uart::write_line("");
    out.append(&mut rc);
    let ok = page.addr() == again.addr() && memory::stats(mm).used == 3;
    memory::free_pages(mm, hart, again, 3);
    let mut verdict = if ok && memory::stats(mm).used == 0 {
        uart::write_line("page free+realloc: OK")
    } else {
        uart::write_line("page free+realloc: FAILED")
    };
    out.append(&mut verdict);
    let mut st2 = memory::print_mm_stats(mm);
    out.append(&mut st2);
    out
}

/// The page allocator self-test on `hart` (see [`page_test`]), after setting
/// the allocator up from `layout`.
pub fn test_page_allocator(mm: &mut PageAllocator, layout: &Layout, hart: usize) -> (r: Vec<u8>)
    requires
        old(mm).wf(),
        hart < HART_SLOTS,
    ensures
        final(mm).wf(),
        ({
            let (text, pools) = page_test(pools_after_init(old(mm)@, *layout), hart as int);
            &&& r@ == line_bytes("".spec_bytes()) + line_bytes("page allocator:".spec_bytes()) + text
            &&& final(mm)@ == pools
        }),
{
    proof {
        reveal(page_test);
    }
    let mut out = uart::write_line("");
    let mut head = uart::write_line("page allocator:");
    out.append(&mut head);
    memory::init(mm, layout);
    assert(mm@ =~= pools_after_init(old(mm)@, *layout));
    let (first, mut pre) = run_page_test_allocs(mm, hart);
    out.append(&mut pre);
    let mut post = run_page_test_check(mm, hart, first);
    out.append(&mut post);
    out
}

} // verus!

verus! {

/// Console line of the four-page test's allocation.
#[verifier::opaque]
pub open spec fn four_test(pools: Seq<PoolView>, h: int) -> (Seq<u8>, Seq<PoolView>) {
    let head = line_bytes("".spec_bytes()) + line_bytes("page alloc/free 4:".spec_bytes());
    let before = pages_used(pools);
    let (r, q1) = alloc_step(pools, h, 4);
    match r {
        None => (head + line_bytes("page alloc 4: FAILED".spec_bytes()), q1),
        Some(base) => {
            let got = head + crlf("page alloc 4: ".spec_bytes()) + hex_text(base) + line_bytes(
                "".spec_bytes(),
            );
            let q2 = free_step(q1, h, base, 4);
            if pages_used(q1) != before + 4 {
                (got + line_bytes("page alloc 4: FAILED used".spec_bytes()), q2)
            } else {
                (
                    got + line_bytes(
                        if pages_used(q2) == before {
                            "page alloc/free 4: OK".spec_bytes()
                        } else {
                            "page alloc/free 4: FAILED used after free".spec_bytes()
                        },
                    ),
                    q2,
                )
            }
        },
    }
}

/// Allocate four pages on `hart` and give them back; the pages in use must
/// return to where they were.
fn test_page_alloc_free_four(mm: &mut PageAllocator, hart: usize) -> (r: Vec<u8>)
    requires
        old(mm).wf(),
        hart < HART_SLOTS,
    ensures
        final(mm).wf(),
        (r@, final(mm)@) == four_test(old(mm)@, hart as int),
{
    proof {
        reveal(four_test);
    }
    let mut out = uart::write_line("");
    let mut head = uart::write_line("page alloc/free 4:");
    out.append(&mut head);
    let used_before = memory::stats(mm).used;
    let base = match memory::alloc_pages(mm, hart, 4) {
        Some(b) => b,
        None => {
            let mut f = uart::write_line("page alloc 4: FAILED");
            out.append(&mut f);
            return out;
        },
    };
    let mut a = uart::write_str("page alloc 4: ");
    out.append(&mut a);
    let mut b = uart::write_hex_u64(base.addr());
    out.append(&mut b);
    let mut c = uart::write_line("");
    out.append(&mut c);
    if memory::stats(mm).used != used_before + 4 {
        let mut f = uart::write_line("page alloc 4: FAILED used");
        out.append(&mut f);
        memory::free_pages(mm, hart, base, 4);
        return out;
    }
    memory::free_pages(mm, hart, base, 4);
    let mut verdict = if memory::stats(mm).used == used_before {
        uart::write_line("page alloc/free 4: OK")
    } else {
        uart::write_line("page alloc/free 4: FAILED used after free")
    };
    out.append(&mut verdict);
    out
}

} // verus!

verus! {

/// `reap-a` / `reap-b`: the names of the reap test's probe tasks.
pub open spec fn probe_name(last: u8) -> Seq<u8> {
    seq![0x72u8, 0x65u8, 0x61u8, 0x70u8, 0x2du8, last]
}

/// The effect of `mark_task_finished(id)` on a table, returning `r`.
pub open spec fn finished_step(old_t: &TaskTable, new_t: &TaskTable, id: TaskId, r: bool) -> bool {
    &&& new_t.wf()
    &&& new_t.same_meta(old_t)
    &&& r == old_t.slot_of(id) is Some
    &&& new_t.tasks() == if r {
        old_t.tasks().update(id_local(id), finished_task(old_t.tasks()[id_local(id)]))
    } else {
        old_t.tasks()
    }
}

/// The effect of `destroy(id)`, returning `r`.
pub open spec fn reap_step(
    old_t: &TaskTable,
    new_t: &TaskTable,
    old_mm: Seq<PoolView>,
    new_mm: Seq<PoolView>,
    id: TaskId,
    r: bool,
) -> bool {
    &&& new_t.wf()
    &&& memory::pools_wf(new_mm)
    &&& r == old_t.is_reapable(id)
    &&& !r ==> new_mm == old_mm && new_t.tasks() == old_t.tasks() && new_t.same_meta(old_t)
    &&& r ==> reaped(old_t, new_t, old_mm, new_mm, id)
}

/// The second round of the reap test, from table `t4` and pools `mm4` after
/// the first probe was reaped: spawn `reap-b`, report whether it got the
/// reaped id back, then finish and reap it too. `pre` is the report so far.
pub open spec fn reap_second_round(
    t4: &TaskTable,
    t_end: &TaskTable,
    mm4: Seq<PoolView>,
    mm_end: Seq<PoolView>,
    entry: u64,
    id: TaskId,
    before: int,
    pre: Seq<u8>,
    out: Seq<u8>,
) -> bool {
    exists|t5: TaskTable, mm5: Seq<PoolView>, r2: Option<TaskId>|
        #![trigger spawned(t4, &t5, mm4, mm5, probe_name(0x62), entry, 0, r2)]
        {
            &&& spawned(t4, &t5, mm4, mm5, probe_name(0x62), entry, 0, r2)
            &&& t5.wf()
            &&& memory::pools_wf(mm5)
            &&& match r2 {
                None => out == pre + line_bytes("mm leak check: FAILED recreate".spec_bytes())
                    && *t_end == t5 && mm_end == mm5,
                Some(id2) => {
                    let reused = id2 == id;
                    let mid = pre + crlf("reaped id reused: ".spec_bytes()) + crlf(
                        if reused {
                            "yes".spec_bytes()
                        } else {
                            "no".spec_bytes()
                        },
                    ) + line_bytes("".spec_bytes());
                    exists|t6: TaskTable, f2: bool|
                        #![trigger finished_step(&t5, &t6, id2, f2)]
                        {
                            &&& finished_step(&t5, &t6, id2, f2)
                            &&& if !f2 {
                                out == mid + line_bytes(
                                    "mm leak check: FAILED second reap".spec_bytes(),
                                ) && *t_end == t6 && mm_end == mm5
                            } else {
                                exists|t7: TaskTable, mm7: Seq<PoolView>, d2: bool|
                                    #![trigger reap_step(&t6, &t7, mm5, mm7, id2, d2)]
                                    {
                                        &&& reap_step(&t6, &t7, mm5, mm7, id2, d2)
                                        &&& *t_end == t7 && mm_end == mm7
                                        &&& out == mid + line_bytes(
                                            if !d2 {
                                                "mm leak check: FAILED second reap".spec_bytes()
                                            } else if reused && pages_used(mm7) == before {
                                                "mm leak check: OK".spec_bytes()
                                            } else {
                                                "mm leak check: FAILED".spec_bytes()
                                            },
                                        )
                                    }
                            }
                        }
                },
            }
        }
}

/// The reap leak test from table `t1` and pools `mm1` just after the table
/// was set up: spawn `reap-a`, finish and reap it, check that the pages in use
/// are back where they were, then run [`reap_second_round`].
pub open spec fn reap_first_round(
    t1: &TaskTable,
    t_end: &TaskTable,
    mm1: Seq<PoolView>,
    mm_end: Seq<PoolView>,
    entry: u64,
    pre: Seq<u8>,
    out: Seq<u8>,
) -> bool {
    let before = pages_used(mm1);
    exists|t2: TaskTable, mm2: Seq<PoolView>, r1: Option<TaskId>|
        #![trigger spawned(t1, &t2, mm1, mm2, probe_name(0x61), entry, 0, r1)]
        {
            &&& spawned(t1, &t2, mm1, mm2, probe_name(0x61), entry, 0, r1)
            &&& t2.wf()
            &&& memory::pools_wf(mm2)
            &&& match r1 {
                None => out == pre + line_bytes("mm leak check: FAILED create".spec_bytes()) && *t_end
                    == t2 && mm_end == mm2,
                Some(id) => exists|t3: TaskTable, f1: bool|
                    #![trigger finished_step(&t2, &t3, id, f1)]
                    {
                        &&& finished_step(&t2, &t3, id, f1)
                        &&& if !f1 {
                            out == pre + line_bytes("mm leak check: FAILED finish".spec_bytes())
                                && *t_end == t3 && mm_end == mm2
                        } else {
                            exists|t4: TaskTable, mm4: Seq<PoolView>, d1: bool|
                                #![trigger reap_step(&t3, &t4, mm2, mm4, id, d1)]
                                {
                                    &&& reap_step(&t3, &t4, mm2, mm4, id, d1)
                                    &&& if !d1 {
                                        out == pre + line_bytes(
                                            "mm leak check: FAILED destroy".spec_bytes(),
                                        ) && *t_end == t4 && mm_end == mm4
                                    } else if pages_used(mm4) != before {
                                        out == pre + line_bytes(
                                            "mm leak check: FAILED used after reap".spec_bytes(),
                                        ) && *t_end == t4 && mm_end == mm4
                                    } else {
                                        reap_second_round(
                                            &t4,
                                            t_end,
                                            mm4,
                                            mm_end,
                                            entry,
                                            id,
                                            before,
                                            pre,
                                            out,
                                        )
                                    }
                                }
                        }
                    },
            }
        }
}

/// The reap leak test: set the table up, then [`reap_first_round`]. `ok` is
/// false when the pool cannot back the table (the hart halts).
#[verifier::opaque]
pub open spec fn reap_test(
    old_t: &TaskTable,
    new_t: &TaskTable,
    old_mm: Seq<PoolView>,
    new_mm: Seq<PoolView>,
    task_size: int,
    entry: u64,
    out: Seq<u8>,
    ok: bool,
) -> bool {
    exists|t1: TaskTable, mm1: Seq<PoolView>, ir: Option<(usize, usize)>|
        #![trigger table::initialized(old_t, &t1, old_mm, mm1, task_size, ir)]
        {
            let pre = line_bytes("".spec_bytes()) + line_bytes("mm reap:".spec_bytes()) + init_text(
                t1.hart_id(),
                ir,
            );
            &&& table::initialized(old_t, &t1, old_mm, mm1, task_size, ir)
            &&& t1.wf()
            &&& memory::pools_wf(mm1)
            &&& ok == ir is Some
            &&& if ir is None {
                *new_t == t1 && new_mm == mm1 && out == pre
            } else {
                reap_first_round(&t1, new_t, mm1, new_mm, entry, pre, out)
            }
        }
}

fn spawn_probe(t: &mut TaskTable, mm: &mut PageAllocator, last: u8, entry: u64) -> (r: Option<TaskId>)
    requires
        old(t).wf(),
        old(mm).wf(),
    ensures
        final(t).wf(),
        final(mm).wf(),
        spawned(old(t), final(t), old(mm)@, final(mm)@, probe_name(last), entry, 0, r),
{
    let name: [u8; 6] = [0x72, 0x65, 0x61, 0x70, 0x2d, last];
    assert(name@ =~= probe_name(last));
    table::spawn(t, mm, &name, entry, 0)
}

fn reap_second(
    t: &mut TaskTable,
    mm: &mut PageAllocator,
    entry: u64,
    id: TaskId,
    before: u64,
    pre: Vec<u8>,
) -> (r: Vec<u8>)
    requires
        old(t).wf(),
        old(mm).wf(),
    ensures
        final(t).wf(),
        final(mm).wf(),
        reap_second_round(old(t), final(t), old(mm)@, final(mm)@, entry, id, before as int, pre@, r@),
{
    let ghost t4 = *t;
    let ghost mm4 = mm@;
    let mut out = pre;
    let r2 = spawn_probe(t, mm, 0x62, entry);
    let ghost t5 = *t;
    let ghost mm5 = mm@;
    let id2 = match r2 {
        Some(i) => i,
        None => {
            let mut f = uart::write_line("mm leak check: FAILED recreate");
            out.append(&mut f);
            assert(spawned(&t4, &t5, mm4, mm5, probe_name(0x62), entry, 0, r2));
            return out;
        },
    };
    let reused = id2 == id;
    let mut a = uart::write_str("reaped id reused: ");
    out.append(&mut a);
    let mut b = uart::write_str(table::print_yes_no(reused));
    out.append(&mut b);
    let mut c = uart::write_line("");
    out.append(&mut c);
    let ghost mid = out@;
    let f2 = table::mark_task_finished(t, id2);
    let ghost t6 = *t;
    assert(finished_step(&t5, &t6, id2, f2));
    if !f2 {
        let mut f = uart::write_line("mm leak check: FAILED second reap");
        out.append(&mut f);
        assert(spawned(&t4, &t5, mm4, mm5, probe_name(0x62), entry, 0, r2));
        return out;
    }
    let d2 = table::destroy(t, mm, id2);
    let ghost t7 = *t;
    let ghost mm7 = mm@;
    assert(reap_step(&t6, &t7, mm5, mm7, id2, d2));
    let mut verdict = if !d2 {
        uart::write_line("mm leak check: FAILED second reap")
    } else if reused && memory::stats(mm).used == before {
        uart::write_line("mm leak check: OK")
    } else {
        uart::write_line("mm leak check: FAILED")
    };
    out.append(&mut verdict);
    assert(spawned(&t4, &t5, mm4, mm5, probe_name(0x62), entry, 0, r2));
    out
}

/// Set the hart's table up, then spawn, finish and reap a probe task twice,
/// checking that reaping returns its page and whether the second probe gets
/// the reaped id back. `entry` is where a probe would start.
fn test_reap_leak_check(t: &mut TaskTable, mm: &mut PageAllocator, task_size: usize, entry: u64) -> (r:
    (Vec<u8>, bool))
    requires
        old(t).wf(),
        old(mm).wf(),
        task_size <= 0x10_0000,
    ensures
        final(t).wf(),
        final(mm).wf(),
        reap_test(old(t), final(t), old(mm)@, final(mm)@, task_size as int, entry, r.0@, r.1),
{
    proof {
        reveal(reap_test);
    }
    let mut out = uart::write_line("");
    let mut head = uart::write_line("mm reap:");
    out.append(&mut head);
    let ir = table::init(t, mm, task_size);
    let ghost t1 = *t;
    let ghost mm1 = mm@;
    assert(table::initialized(old(t), &t1, old(mm)@, mm1, task_size as int, ir));
    let mut init_report = table::print_init(t, ir);
    out.append(&mut init_report);
    if ir.is_none() {
        return (out, false);
    }
    let used_before = memory::stats(mm).used;
    let r1 = spawn_probe(t, mm, 0x61, entry);
    let ghost t2 = *t;
    let ghost mm2 = mm@;
    assert(spawned(&t1, &t2, mm1, mm2, probe_name(0x61), entry, 0, r1));
    let id = match r1 {
        Some(i) => i,
        None => {
            let mut f = uart::write_line("mm leak check: FAILED create");
            out.append(&mut f);
            return (out, true);
        },
    };
    let f1 = table::mark_task_finished(t, id);
    let ghost t3 = *t;
    assert(finished_step(&t2, &t3, id, f1));
    if !f1 {
        let mut f = uart::write_line("mm leak check: FAILED finish");
        out.append(&mut f);
        return (out, true);
    }
    let d1 = table::destroy(t, mm, id);
    let ghost t4 = *t;
    let ghost mm4 = mm@;
    assert(reap_step(&t3, &t4, mm2, mm4, id, d1));
    if !d1 {
        let mut f = uart::write_line("mm leak check: FAILED destroy");
        out.append(&mut f);
        return (out, true);
    }
    if memory::stats(mm).used != used_before {
        let mut f = uart::write_line("mm leak check: FAILED used after reap");
        out.append(&mut f);
        return (out, true);
    }
    (reap_second(t, mm, entry, id, used_before, out), true)
}

/// What the memory self-tests do and print. `ok` is false when the reap
/// test could not set the table up (the hart halts before the page counts).
pub open spec fn memory_tests_run(
    old_mm: Seq<PoolView>,
    new_mm: Seq<PoolView>,
    old_t: &TaskTable,
    new_t: &TaskTable,
    layout: Layout,
    h: int,
    task_size: int,
    entry: u64,
    out: Seq<u8>,
    ok: bool,
) -> bool {
    let (page_text, q1) = page_test(pools_after_init(old_mm, layout), h);
    let (four_text, q2) = four_test(q1, h);
    exists|reap_text: Seq<u8>|
        #[trigger] reap_test(old_t, new_t, q2, new_mm, task_size, entry, reap_text, ok) && out
            == memory::memory_layout_text(layout) + line_bytes("".spec_bytes()) + line_bytes(
            "page allocator:".spec_bytes(),
        ) + page_text + four_text + reap_text + if ok {
            mm_stats_text(new_mm)
        } else {
            Seq::empty()
        }
}

/// The memory self-tests: the layout report, the page allocator test, the
/// four-page test and the reap leak test on `hart`, then the page counts.
/// `entry` is where the reap probes would start. The second result is false
/// when the hart halts in the reap test.
pub fn run_memory_tests(
    mm: &mut PageAllocator,
    t: &mut TaskTable,
    layout: &Layout,
    hart: usize,
    task_size: usize,
    entry: u64,
) -> (r: (Vec<u8>, bool))
    requires
        old(mm).wf(),
        old(t).wf(),
        hart < HART_SLOTS,
        task_size <= 0x10_0000,
    ensures
        final(mm).wf(),
        final(t).wf(),
        memory_tests_run(old(mm)@, final(mm)@, old(t), final(t), *layout, hart as int, task_size as int, entry, r.0@, r.1),
{
    let mut out = memory::print_memory_layout(layout);
    let ghost lt = out@;
    let mut a = test_page_allocator(mm, layout, hart);
    let ghost at = a@;
    out.append(&mut a);
    let ghost q1 = mm@;
    let mut b = test_page_alloc_free_four(mm, hart);
    let ghost bt = b@;
    out.append(&mut b);
    let ghost q2 = mm@;
    let (mut c, ok) = test_reap_leak_check(t, mm, task_size, entry);
    let ghost reap_text = c@;
    out.append(&mut c);
    let ghost before_stats = out@;
    proof {
        let (page_text, pq) = page_test(pools_after_init(old(mm)@, *layout), hart as int);
        let (four_text, fq) = four_test(q1, hart as int);
        assert(pq == q1);
        assert(fq == q2);
        assert(at == line_bytes("".spec_bytes()) + line_bytes("page allocator:".spec_bytes()) + page_text);
        assert(bt == four_text);
        assert(before_stats =~= lt + line_bytes("".spec_bytes()) + line_bytes("page allocator:".spec_bytes())
            + page_text + four_text + reap_text);
        assert(reap_test(old(t), &*t, q2, mm@, task_size as int, entry, reap_text, ok));
    }
    if !ok {
        assert(out@ =~= before_stats + Seq::<u8>::empty());
        return (out, false);
    }
    let mut d = memory::print_mm_stats(mm);
    out.append(&mut d);
    (out, true)
}

} // verus!

verus! {

/// What the self-test boot prints after its title, from the memory tests'
/// text and result and the task-table test's text and result: each part
/// stops the boot when it fails.
pub open spec fn selftest_tail(mem_text: Seq<u8>, mem_ok: bool, task_text: Seq<u8>, task_ok: bool) -> Seq<u8> {
    if !mem_ok {
        mem_text
    } else if !task_ok {
        mem_text + line_bytes("".spec_bytes()) + line_bytes("".spec_bytes()) + line_bytes(
            "[selftest] task table".spec_bytes(),
        ) + task_text
    } else {
        mem_text + line_bytes("".spec_bytes()) + line_bytes("".spec_bytes()) + line_bytes(
            "[selftest] task table".spec_bytes(),
        ) + task_text + line_bytes("".spec_bytes()) + line_bytes("selftest complete".spec_bytes())
    }
}

/// The self-test boot: the memory self-tests on `hart`, then the task-table
/// self-test; the hart stops afterwards, or as soon as a table cannot be set
/// up. `probe` is where the reap probes would start, `idle`, `worker_a` and
/// `worker_b` the task-table test's tasks.
#[verifier::rlimit(40)]
pub fn run_selftests(
    mm: &mut PageAllocator,
    t: &mut TaskTable,
    cpu: &mut Cpu,
    layout: &Layout,
    hart: usize,
    task_size: usize,
    probe: u64,
    idle: u64,
    worker_a: u64,
    worker_b: u64,
) -> (r: Vec<u8>)
    requires
        old(mm).wf(),
        old(t).wf(),
        hart < HART_SLOTS,
        task_size <= 0x10_0000,
    ensures
        final(mm).wf(),
        final(t).wf(),
        exists|mm1: Seq<PoolView>, t1: TaskTable, mem_text: Seq<u8>, mem_ok: bool|
            #![trigger memory_tests_run(old(mm)@, mm1, old(t), &t1, *layout, hart as int, task_size as int, probe, mem_text, mem_ok)]
            {
                &&& memory_tests_run(old(mm)@, mm1, old(t), &t1, *layout, hart as int, task_size as int, probe, mem_text, mem_ok)
                &&& if !mem_ok {
                    &&& *final(t) == t1 && final(mm)@ == mm1 && *final(cpu) == *old(cpu)
                    &&& r@ == line_bytes("".spec_bytes()) + line_bytes("selftest mode:".spec_bytes())
                        + line_bytes("".spec_bytes()) + line_bytes("[selftest] memory".spec_bytes())
                        + selftest_tail(mem_text, mem_ok, Seq::empty(), false)
                } else {
                    exists|task_text: Seq<u8>, task_ok: bool|
                        #![trigger tasks_test_run(&t1, final(t), mm1, final(mm)@, task_size as int, idle, worker_a, worker_b, task_text, task_ok)]
                        {
                            &&& tasks_test_run(&t1, final(t), mm1, final(mm)@, task_size as int, idle, worker_a, worker_b, task_text, task_ok)
                            &&& *final(cpu) == if task_ok {
                                Cpu { current: None, ..*old(cpu) }
                            } else {
                                *old(cpu)
                            }
                            &&& r@ == line_bytes("".spec_bytes()) + line_bytes("selftest mode:".spec_bytes())
                                + line_bytes("".spec_bytes()) + line_bytes("[selftest] memory".spec_bytes())
                                + selftest_tail(mem_text, mem_ok, task_text, task_ok)
                        }
                }
            },
{
    let mut out = uart::write_line("");
    let mut a = uart::write_line("selftest mode:");
    out.append(&mut a);
    let mut b = uart::write_line("");
    out.append(&mut b);
    let mut c = uart::write_line("[selftest] memory");
    out.append(&mut c);
    let ghost head = out@;
    let (mut mem, mem_ok) = run_memory_tests(mm, t, layout, hart, task_size, probe);
    let ghost mem_text = mem@;
    let ghost mm1 = mm@;
    let ghost t1 = *t;
    out.append(&mut mem);
    assert(memory_tests_run(old(mm)@, mm1, old(t), &t1, *layout, hart as int, task_size as int, probe, mem_text, mem_ok));
    if !mem_ok {
        return out;
    }
    let mut d = uart::write_line("");
    out.append(&mut d);
    let mut e = uart::write_line("");
    out.append(&mut e);
    let mut f = uart::write_line("[selftest] task table");
    out.append(&mut f);
    let (mut tasks, task_ok) = crate::kernel::task::image::test_tasks(t, mm, cpu, task_size, idle, worker_a, worker_b);
    let ghost task_text = tasks@;
    out.append(&mut tasks);
    assert(tasks_test_run(&t1, &*t, mm1, mm@, task_size as int, idle, worker_a, worker_b, task_text, task_ok));
    if !task_ok {
        assert(out@ =~= head + selftest_tail(mem_text, mem_ok, task_text, task_ok));
        return out;
    }
    let mut g = uart::write_line("");
    out.append(&mut g);
    let mut h = uart::write_line("selftest complete");
    out.append(&mut h);
    assert(out@ =~= head + selftest_tail(mem_text, mem_ok, task_text, task_ok));
    out
}

} // verus!

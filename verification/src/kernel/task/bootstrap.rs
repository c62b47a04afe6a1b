//! Boot-time self-test of sleeping in the task table: a probe task is put to
//! sleep and woken by the tick, first without a saved frame, then with one.
use vstd::prelude::*;
use vstd::string::*;
use crate::drivers::uart::{self, crlf, dec_text, line_bytes};
use crate::kernel::memory::{self, Layout, PageAllocator, PoolView};
use crate::kernel::trap_frame::{Riscv64TrapFrame, TrapImage};
use crate::kernel::selftest::{finished_step, reap_step};
use crate::kernel::task::table::{
    self, blocked_task, first_resumable_from, id_local, spawned, wake_step, BlockReason,
    Task, TaskId, TaskReturnKind, TaskState, TaskTable,
};

verus! {

/// `label`, then `yes` or `no`, as one console line.
pub open spec fn flag_text(label: Seq<u8>, b: bool) -> Seq<u8> {
    crlf(label) + crlf(
        if b {
            "yes".spec_bytes()
        } else {
            "no".spec_bytes()
        },
    ) + line_bytes("".spec_bytes())
}

/// `label`, then `n` in decimal, as one console line.
pub open spec fn count_text(label: Seq<u8>, n: u64) -> Seq<u8> {
    crlf(label) + dec_text(n) + line_bytes("".spec_bytes())
}

/// `label`, then the found task's id in decimal or `none`, as one console line.
pub open spec fn found_text(label: Seq<u8>, r: Option<TaskId>) -> Seq<u8> {
    crlf(label) + match r {
        Some(id) => dec_text(id.0) + line_bytes("".spec_bytes()),
        None => line_bytes("none".spec_bytes()),
    }
}

fn flag_line(label: &str, b: bool) -> (r: Vec<u8>)
    ensures
        r@ == flag_text(label.spec_bytes(), b),
{
    let mut out = uart::write_str(label);
    let mut a = uart::write_str(table::print_yes_no(b));
    out.append(&mut a);
    let mut c = uart::write_line("");
    out.append(&mut c);
    out
}

fn count_line(label: &str, n: u64) -> (r: Vec<u8>)
    ensures
        r@ == count_text(label.spec_bytes(), n),
{
    let mut out = uart::write_str(label);
    let mut a = uart::write_dec_u64(n);
    out.append(&mut a);
    let mut c = uart::write_line("");
    out.append(&mut c);
    out
}

fn found_line(label: &str, r: Option<TaskId>) -> (out: Vec<u8>)
    ensures
        out@ == found_text(label.spec_bytes(), r),
{
    let mut out = uart::write_str(label);
    match r {
        Some(id) => {
            let mut a = uart::write_dec_u64(id.0);
            out.append(&mut a);
            let mut c = uart::write_line("");
            out.append(&mut c);
        },
        None => {
            let mut a = uart::write_line("none");
            out.append(&mut a);
        },
    }
    out
}

/// The effect of `mark_task_started(id)`, returning `r`.
pub open spec fn started_step(old_t: &TaskTable, new_t: &TaskTable, id: TaskId, r: bool) -> bool {
    &&& new_t.wf()
    &&& new_t.same_meta(old_t)
    &&& r == (old_t.slot_of(id) matches Some(task) && (task.state == TaskState::Ready || task.state
        == TaskState::Running))
    &&& new_t.tasks() == if r {
        old_t.tasks().update(id_local(id), Task { has_started: true, ..old_t.tasks()[id_local(id)] })
    } else {
        old_t.tasks()
    }
}

/// The effect of `mark_task_blocked_until(id, tick)`, returning `r`.
pub open spec fn sleep_step(old_t: &TaskTable, new_t: &TaskTable, id: TaskId, tick: u64, r: bool) -> bool {
    &&& new_t.wf()
    &&& new_t.same_meta(old_t)
    &&& r == old_t.slot_of(id) is Some
    &&& new_t.tasks() == if r {
        old_t.tasks().update(
            id_local(id),
            blocked_task(
                old_t.tasks()[id_local(id)],
                TaskReturnKind::Sleep,
                BlockReason::SleepUntil(tick),
            ),
        )
    } else {
        old_t.tasks()
    }
}

fn mark_started(t: &mut TaskTable, id: TaskId) -> (r: bool)
    requires
        old(t).wf(),
    ensures
        started_step(old(t), final(t), id, r),
{
    table::mark_task_started(t, id)
}

fn sleep(t: &mut TaskTable, id: TaskId, tick: u64) -> (r: bool)
    requires
        old(t).wf(),
    ensures
        sleep_step(old(t), final(t), id, tick, r),
{
    table::mark_task_blocked_until(t, id, tick)
}

/// `sleep-probe`: the name of the first probe task.
pub open spec fn probe_name() -> Seq<u8> {
    "sleep-probe".spec_bytes()
}

/// `sleep-img`: the name of the probe task with a saved frame.
pub open spec fn image_probe_name() -> Seq<u8> {
    "sleep-img".spec_bytes()
}

/// The checks on the frameless probe `id`, from table `t1` just after it was
/// spawned: start it, put it to sleep until tick 3, wake at ticks 2 and 3,
/// then finish and reap it. `out` is what is printed and `ok` whether every
/// check held.
pub open spec fn probe_checks(
    t1: &TaskTable,
    t_end: &TaskTable,
    mm1: Seq<PoolView>,
    mm_end: Seq<PoolView>,
    layout: Layout,
    id: TaskId,
    out: Seq<u8>,
    ok: bool,
) -> bool {
    exists|
        t2: TaskTable,
        t3: TaskTable,
        t4: TaskTable,
        t5: TaskTable,
        t6: TaskTable,
        st: bool,
        bl: bool,
        w1: int,
        w2: int,
        fin: bool,
        d: bool,
    |
        #![trigger started_step(t1, &t2, id, st), sleep_step(&t2, &t3, id, 3, bl), wake_step(&t3, &t4, layout, 2, w1), wake_step(&t4, &t5, layout, 3, w2), finished_step(&t5, &t6, id, fin), reap_step(&t6, t_end, mm1, mm_end, id, d)]
        {
            &&& started_step(t1, &t2, id, st)
            &&& sleep_step(&t2, &t3, id, 3, bl)
            &&& wake_step(&t3, &t4, layout, 2, w1)
            &&& wake_step(&t4, &t5, layout, 3, w2)
            &&& finished_step(&t5, &t6, id, fin)
            &&& reap_step(&t6, t_end, mm1, mm_end, id, d)
            &&& probe_report(&t4, &t5, layout, id, st, bl, w1, w2, fin, d, out, ok)
        }
}

/// What the frameless probe test prints and whether it passed, from the
/// results of its steps and the tables after the two wakes.
pub open spec fn probe_report(
    t4: &TaskTable,
    t5: &TaskTable,
    layout: Layout,
    id: TaskId,
    st: bool,
    bl: bool,
    w1: int,
    w2: int,
    fin: bool,
    d: bool,
    out: Seq<u8>,
    ok: bool,
) -> bool {
    let still = t4.slot_of(id) matches Some(task) && task.state == TaskState::Blocked;
    let early = first_resumable_from(t4.tasks(), t4.capacity(), layout, 0);
    let ready = t5.slot_of(id) matches Some(task) && task.state == TaskState::Ready;
    let can = t5.slot_of(id) matches Some(task) && task.can_resume;
    let plain = t5.slot_of(id) matches Some(task) && task.last_return_kind == TaskReturnKind::NoReturn;
    let late = first_resumable_from(t5.tasks(), t5.capacity(), layout, 0);
    &&& out == flag_text("  mark started before sleep: ".spec_bytes(), st) + flag_text(
        "  mark blocked until tick=3: ".spec_bytes(),
        bl,
    ) + count_text("  woke at tick=2: ".spec_bytes(), w1 as u64) + flag_text(
        "  still blocked at tick=2: ".spec_bytes(),
        still,
    ) + found_text("  resumable at tick=2: ".spec_bytes(), early) + count_text(
        "  woke at tick=3: ".spec_bytes(),
        w2 as u64,
    ) + flag_text("  state Ready after wake: ".spec_bytes(), ready) + flag_text(
        "  can resume after wake: ".spec_bytes(),
        can,
    ) + flag_text("  last return is None after wake: ".spec_bytes(), plain) + found_text(
        "  resumable at tick=3: ".spec_bytes(),
        late,
    )
    &&& ok == (st && bl && w1 == 0 && still && early is None && w2 == 1 && ready && !can && plain
        && late is None && fin && d)
}

fn run_probe_checks(t: &mut TaskTable, mm: &mut PageAllocator, layout: &Layout, id: TaskId) -> (r: (
    Vec<u8>,
    bool,
))
    requires
        old(t).wf(),
        old(mm).wf(),
    ensures
        final(t).wf(),
        final(mm).wf(),
        probe_checks(old(t), final(t), old(mm)@, final(mm)@, *layout, id, r.0@, r.1),
{
    let ghost t1 = *t;
    let ghost mm1 = mm@;
    let started = mark_started(t, id);
    let ghost t2 = *t;
    let mut out = flag_line("  mark started before sleep: ", started);
    let blocked = sleep(t, id, 3);
    let ghost t3 = *t;
    let mut a = flag_line("  mark blocked until tick=3: ", blocked);
    out.append(&mut a);
    let woke_early = table::wake_sleeping_tasks(t, layout, 2);
    let ghost t4 = *t;
    let mut b = count_line("  woke at tick=2: ", woke_early as u64);
    out.append(&mut b);
    let still = match table::get_task_state(t, id) {
        Some(TaskState::Blocked) => true,
        _ => false,
    };
    let mut c = flag_line("  still blocked at tick=2: ", still);
    out.append(&mut c);
    let early = table::find_first_resumable_task(t, layout);
    let mut e = found_line("  resumable at tick=2: ", early);
    out.append(&mut e);
    let woke_on_time = table::wake_sleeping_tasks(t, layout, 3);
    let ghost t5 = *t;
    let mut f = count_line("  woke at tick=3: ", woke_on_time as u64);
    out.append(&mut f);
    let ready = match table::get_task_state(t, id) {
        Some(TaskState::Ready) => true,
        _ => false,
    };
    let mut g = flag_line("  state Ready after wake: ", ready);
    out.append(&mut g);
    let can = match table::can_task_resume(t, id) {
        Some(true) => true,
        _ => false,
    };
    let mut h = flag_line("  can resume after wake: ", can);
    out.append(&mut h);
    let plain = match table::get_task_return_kind(t, id) {
        Some(TaskReturnKind::NoReturn) => true,
        _ => false,
    };
    let mut i = flag_line("  last return is None after wake: ", plain);
    out.append(&mut i);
    let late = table::find_first_resumable_task(t, layout);
    let mut j = found_line("  resumable at tick=3: ", late);
    out.append(&mut j);
    let finished = table::mark_task_finished(t, id);
    let ghost t6 = *t;
    assert(finished_step(&t5, &t6, id, finished));
    let reaped = table::destroy(t, mm, id);
    assert(reap_step(&t6, &*t, mm1, mm@, id, reaped));
    let ok = started && blocked && woke_early == 0 && still && early.is_none() && woke_on_time == 1
        && ready && !can && plain && late.is_none() && finished && reaped;
    assert(probe_report(&t4, &t5, *layout, id, started, blocked, woke_early as int, woke_on_time as int, finished, reaped, out@, ok));
    assert(started_step(&t1, &t2, id, started));
    assert(sleep_step(&t2, &t3, id, 3, blocked));
    assert(wake_step(&t3, &t4, *layout, 2, woke_early as int));
    assert(wake_step(&t4, &t5, *layout, 3, woke_on_time as int));
    (out, ok)
}

/// The saved frame given to the second probe: stack pointer `sp`, return
/// address and PC `pc`, every other register zero.
pub open spec fn probe_image(sp: u64, pc: u64) -> TrapImage {
    TrapImage {
        gpr: Riscv64TrapFrame {
            sp: sp,
            ra: pc,
            t0: 0,
            t1: 0,
            t2: 0,
            t3: 0,
            t4: 0,
            t5: 0,
            t6: 0,
            a0: 0,
            a1: 0,
            a2: 0,
            a3: 0,
            a4: 0,
            a5: 0,
            a6: 0,
            a7: 0,
            s0: 0,
            s1: 0,
            s2: 0,
            s3: 0,
            s4: 0,
            s5: 0,
            s6: 0,
            s7: 0,
            s8: 0,
            s9: 0,
            s10: 0,
            s11: 0,
            gp: 0,
            tp: 0,
        },
        mepc: pc,
        mstatus: 0,
    }
}

/// Where the second probe's frame puts the stack pointer: 16 bytes below the
/// top of its stack (0 for a top below 16).
pub open spec fn probe_sp(top: u64) -> u64 {
    if top >= 16 {
        (top - 16) as u64
    } else {
        0
    }
}

/// The frame injection into the probe `id` with stack `[start, top)`:
/// `set_task_trap_image` when the frame's stack pointer lies in the stack,
/// nothing otherwise; `r` is whether the frame was stored.
pub open spec fn inject_step(
    old_t: &TaskTable,
    new_t: &TaskTable,
    id: TaskId,
    start: u64,
    top: u64,
    pc: u64,
    r: bool,
) -> bool {
    let sp = probe_sp(top);
    if start <= sp && sp < top {
        &&& new_t.wf()
        &&& new_t.same_meta(old_t)
        &&& r == old_t.slot_of(id) is Some
        &&& new_t.tasks() == if r {
            old_t.tasks().update(
                id_local(id),
                Task { trap_image: Some(probe_image(sp, pc)), ..old_t.tasks()[id_local(id)] },
            )
        } else {
            old_t.tasks()
        }
    } else {
        *new_t == *old_t && !r
    }
}

/// Reaping after `mark_task_finished` returned `fin`: `destroy` only when it
/// succeeded; `r` is whether the task was reaped.
pub open spec fn reap_if_finished(
    old_t: &TaskTable,
    new_t: &TaskTable,
    old_mm: Seq<PoolView>,
    new_mm: Seq<PoolView>,
    id: TaskId,
    fin: bool,
    r: bool,
) -> bool {
    if fin {
        reap_step(old_t, new_t, old_mm, new_mm, id, r)
    } else {
        *new_t == *old_t && new_mm == old_mm && !r
    }
}

/// The checks on the probe `id` with stack `[start, top)`, from table `t1`
/// just after it was spawned: start it, give it a saved frame entering at
/// `pc`, put it to sleep until tick 10, wake at ticks 9 and 10, then finish
/// and reap it. `out` is what is printed after the title and `ok` whether
/// every check held.
pub open spec fn image_probe_checks(
    t1: &TaskTable,
    t_end: &TaskTable,
    mm1: Seq<PoolView>,
    mm_end: Seq<PoolView>,
    layout: Layout,
    id: TaskId,
    start: u64,
    top: u64,
    pc: u64,
    out: Seq<u8>,
    ok: bool,
) -> bool {
    exists|
        t2: TaskTable,
        t3: TaskTable,
        t4: TaskTable,
        t5: TaskTable,
        t6: TaskTable,
        t7: TaskTable,
        st: bool,
        inj: bool,
        bl: bool,
        w1: int,
        w2: int,
        fin: bool,
        d: bool,
    |
        #![trigger started_step(t1, &t2, id, st), inject_step(&t2, &t3, id, start, top, pc, inj), sleep_step(&t3, &t4, id, 10, bl), wake_step(&t4, &t5, layout, 9, w1), wake_step(&t5, &t6, layout, 10, w2), finished_step(&t6, &t7, id, fin), reap_if_finished(&t7, t_end, mm1, mm_end, id, fin, d)]
        {
            &&& started_step(t1, &t2, id, st)
            &&& inject_step(&t2, &t3, id, start, top, pc, inj)
            &&& sleep_step(&t3, &t4, id, 10, bl)
            &&& wake_step(&t4, &t5, layout, 9, w1)
            &&& wake_step(&t5, &t6, layout, 10, w2)
            &&& finished_step(&t6, &t7, id, fin)
            &&& reap_if_finished(&t7, t_end, mm1, mm_end, id, fin, d)
            &&& image_probe_report(&t6, id, st, inj, bl, w1, w2, fin, d, out, ok)
        }
}

/// What the probe-with-frame test prints and whether it passed, from the
/// results of its steps and the table after the second wake.
pub open spec fn image_probe_report(
    t6: &TaskTable,
    id: TaskId,
    st: bool,
    inj: bool,
    bl: bool,
    w1: int,
    w2: int,
    fin: bool,
    d: bool,
    out: Seq<u8>,
    ok: bool,
) -> bool {
    let can = t6.slot_of(id) matches Some(task) && task.can_resume;
    let slept = t6.slot_of(id) matches Some(task) && task.last_return_kind == TaskReturnKind::Sleep;
    &&& ok == (st && inj && bl && w1 == 0 && w2 == 1 && can && slept && fin && d)
    &&& out == flag_text("  injected resume image: ".spec_bytes(), st && inj) + flag_text(
        "  can resume after wake with image: ".spec_bytes(),
        can,
    ) + flag_text("  last return is Sleep after wake with image: ".spec_bytes(), slept) + if ok {
        line_bytes("task sleep wake image result: OK".spec_bytes()) + line_bytes(
            "task sleep wake result: OK".spec_bytes(),
        )
    } else {
        line_bytes("task sleep wake image result: FAILED".spec_bytes())
    }
}

fn inject(t: &mut TaskTable, id: TaskId, start: u64, top: u64, pc: u64) -> (r: bool)
    requires
        old(t).wf(),
    ensures
        final(t).wf(),
        inject_step(old(t), final(t), id, start, top, pc, r),
{
    let sp = top.saturating_sub(16);
    let mut image = TrapImage::empty();
    image.gpr.sp = sp;
    image.gpr.ra = pc;
    image.mepc = pc;
    assert(image == probe_image(sp, pc));
    sp >= start && sp < top && table::set_task_trap_image(t, id, &image)
}

fn run_image_probe_checks(
    t: &mut TaskTable,
    mm: &mut PageAllocator,
    layout: &Layout,
    id: TaskId,
    start: u64,
    top: u64,
    pc: u64,
) -> (r: (Vec<u8>, bool))
    requires
        old(t).wf(),
        old(mm).wf(),
    ensures
        final(t).wf(),
        final(mm).wf(),
        image_probe_checks(old(t), final(t), old(mm)@, final(mm)@, *layout, id, start, top, pc, r.0@, r.1),
{
    let ghost t1 = *t;
    let ghost mm1 = mm@;
    let started = mark_started(t, id);
    let ghost t2 = *t;
    let injected = inject(t, id, start, top, pc);
    let ghost t3 = *t;
    let mut out = flag_line("  injected resume image: ", started && injected);
    let blocked = sleep(t, id, 10);
    let ghost t4 = *t;
    let woke_early = table::wake_sleeping_tasks(t, layout, 9);
    let ghost t5 = *t;
    let woke_on_time = table::wake_sleeping_tasks(t, layout, 10);
    let ghost t6 = *t;
    let can = match table::can_task_resume(t, id) {
        Some(true) => true,
        _ => false,
    };
    let mut a = flag_line("  can resume after wake with image: ", can);
    out.append(&mut a);
    let slept = match table::get_task_return_kind(t, id) {
        Some(TaskReturnKind::Sleep) => true,
        _ => false,
    };
    let mut b = flag_line("  last return is Sleep after wake with image: ", slept);
    out.append(&mut b);
    let finished = table::mark_task_finished(t, id);
    let ghost t7 = *t;
    assert(finished_step(&t6, &t7, id, finished));
    let reaped = finished && table::destroy(t, mm, id);
    assert(reap_if_finished(&t7, &*t, mm1, mm@, id, finished, reaped));
    let ok = started && injected && blocked && woke_early == 0 && woke_on_time == 1 && can && slept
        && reaped;
    let ghost pre = out@;
    if ok {
        let mut c = uart::write_line("task sleep wake image result: OK");
        out.append(&mut c);
        let mut e = uart::write_line("task sleep wake result: OK");
        out.append(&mut e);
        assert(out@ =~= pre + (line_bytes("task sleep wake image result: OK".spec_bytes())
            + line_bytes("task sleep wake result: OK".spec_bytes())));
    } else {
        let mut c = uart::write_line("task sleep wake image result: FAILED");
        out.append(&mut c);
    }
    assert(image_probe_report(&t6, id, started, injected, blocked, woke_early as int, woke_on_time as int, finished, reaped, out@, ok));
    assert(started_step(&t1, &t2, id, started));
    assert(inject_step(&t2, &t3, id, start, top, pc, injected));
    assert(sleep_step(&t3, &t4, id, 10, blocked));
    assert(wake_step(&t4, &t5, *layout, 9, woke_early as int));
    assert(wake_step(&t5, &t6, *layout, 10, woke_on_time as int));
    (out, ok)
}

/// The probe-with-frame test, from table `t0` and pools `mm0`: spawn
/// `sleep-img` entering at `entry`, then [`image_probe_checks`] with its
/// stack. `ok` false means the hart halts.
pub open spec fn image_probe_test(
    t0: &TaskTable,
    t_end: &TaskTable,
    mm0: Seq<PoolView>,
    mm_end: Seq<PoolView>,
    layout: Layout,
    entry: u64,
    pc: u64,
    out: Seq<u8>,
    ok: bool,
) -> bool {
    let head = line_bytes("task sleep table selftest (saved image):".spec_bytes());
    let failed = line_bytes("task sleep wake image result: FAILED".spec_bytes());
    exists|t1: TaskTable, mm1: Seq<PoolView>, r: Option<TaskId>|
        #![trigger spawned(t0, &t1, mm0, mm1, image_probe_name(), entry, 0, r)]
        {
            &&& spawned(t0, &t1, mm0, mm1, image_probe_name(), entry, 0, r)
            &&& t1.wf()
            &&& memory::pools_wf(mm1)
            &&& match r {
                None => out == head + failed && !ok && *t_end == t1 && mm_end == mm1,
                Some(id) => match t1.slot_of(id) {
                    None => out == head + failed && !ok && *t_end == t1 && mm_end == mm1,
                    Some(task) => exists|text: Seq<u8>|
                        #[trigger] image_probe_checks(
                            &t1,
                            t_end,
                            mm1,
                            mm_end,
                            layout,
                            id,
                            task.stack_start,
                            task.stack_top,
                            pc,
                            text,
                            ok,
                        ) && out == head + text,
                },
            }
        }
}

/// The sleep self-test, from table `t0` and pools `mm0`: spawn `sleep-probe`
/// entering at `entry`, run [`probe_checks`] on it and, when they pass,
/// [`image_probe_test`] with frames entering at `pc`. `ok` false means the
/// hart halts.
pub open spec fn sleep_selftest(
    t0: &TaskTable,
    t_end: &TaskTable,
    mm0: Seq<PoolView>,
    mm_end: Seq<PoolView>,
    layout: Layout,
    entry: u64,
    pc: u64,
    out: Seq<u8>,
    ok: bool,
) -> bool {
    let head = line_bytes("task sleep table selftest:".spec_bytes());
    let failed = line_bytes("task sleep wake result: FAILED".spec_bytes());
    exists|t1: TaskTable, mm1: Seq<PoolView>, r: Option<TaskId>|
        #![trigger spawned(t0, &t1, mm0, mm1, probe_name(), entry, 0, r)]
        {
            &&& spawned(t0, &t1, mm0, mm1, probe_name(), entry, 0, r)
            &&& t1.wf()
            &&& memory::pools_wf(mm1)
            &&& match r {
                None => out == head + failed && !ok && *t_end == t1 && mm_end == mm1,
                Some(id) => exists|t2: TaskTable, mm2: Seq<PoolView>, text: Seq<u8>, ok1: bool|
                    #![trigger probe_checks(&t1, &t2, mm1, mm2, layout, id, text, ok1)]
                    {
                        &&& probe_checks(&t1, &t2, mm1, mm2, layout, id, text, ok1)
                        &&& t2.wf()
                        &&& memory::pools_wf(mm2)
                        &&& if !ok1 {
                            out == head + text + failed && !ok && *t_end == t2 && mm_end == mm2
                        } else {
                            exists|text2: Seq<u8>|
                                #[trigger] image_probe_test(&t2, t_end, mm2, mm_end, layout, entry, pc, text2, ok)
                                    && out == head + text + line_bytes(
                                    "task sleep wake no-image: OK".spec_bytes(),
                                ) + text2
                        }
                    },
            }
        }
}

fn spawn_named(t: &mut TaskTable, mm: &mut PageAllocator, name: &str, entry: u64) -> (r: Option<TaskId>)
    requires
        old(t).wf(),
        old(mm).wf(),
    ensures
        final(t).wf(),
        final(mm).wf(),
        spawned(old(t), final(t), old(mm)@, final(mm)@, name.spec_bytes(), entry, 0, r),
{
    let bytes = name.as_bytes_vec();
    table::spawn(t, mm, bytes.as_slice(), entry, 0)
}

/// The second half of the sleep self-test: waking a sleeping task sets
/// `can_resume` from its saved frame, not unconditionally. Returns what is
/// printed and whether the test passed.
fn test_task_sleep_wakeup_with_saved_image(
    t: &mut TaskTable,
    mm: &mut PageAllocator,
    layout: &Layout,
    entry: u64,
    pc: u64,
) -> (r: (Vec<u8>, bool))
    requires
        old(t).wf(),
        old(mm).wf(),
    ensures
        final(t).wf(),
        final(mm).wf(),
        image_probe_test(old(t), final(t), old(mm)@, final(mm)@, *layout, entry, pc, r.0@, r.1),
{
    let ghost t0 = *t;
    let ghost mm0 = mm@;
    let mut out = uart::write_line("task sleep table selftest (saved image):");
    let r = spawn_named(t, mm, "sleep-img", entry);
    let ghost t1 = *t;
    let ghost mm1 = mm@;
    assert(spawned(&t0, &t1, mm0, mm1, image_probe_name(), entry, 0, r));
    let id = match r {
        Some(id) => id,
        None => {
            let mut f = uart::write_line("task sleep wake image result: FAILED");
            out.append(&mut f);
            return (out, false);
        },
    };
    let start = match table::get_task_stack_start(t, id) {
        Some(s) => s,
        None => {
            let mut f = uart::write_line("task sleep wake image result: FAILED");
            out.append(&mut f);
            return (out, false);
        },
    };
    let top = match table::get_task_stack_top(t, id) {
        Some(s) => s,
        None => {
            let mut f = uart::write_line("task sleep wake image result: FAILED");
            out.append(&mut f);
            return (out, false);
        },
    };
    let (mut text, ok) = run_image_probe_checks(t, mm, layout, id, start, top, pc);
    let ghost tt = text@;
    out.append(&mut text);
    assert(image_probe_checks(&t1, &*t, mm1, mm@, *layout, id, start, top, pc, tt, ok));
    (out, ok)
}

/// The sleep self-test of the task table: a probe task sleeps until tick 3
/// and must stay blocked at tick 2, wake at tick 3 and, having no saved
/// frame, not be resumable; then a probe with a saved frame entering at `pc`
/// must be resumable after its wake. `entry` is where the probes would start.
/// Returns what is printed and whether every check held; when one failed the
/// hart halts.
pub fn test_task_sleep_wakeup_table_selftest(
    t: &mut TaskTable,
    mm: &mut PageAllocator,
    layout: &Layout,
    entry: u64,
    pc: u64,
) -> (r: (Vec<u8>, bool))
    requires
        old(t).wf(),
        old(mm).wf(),
    ensures
        final(t).wf(),
        final(mm).wf(),
        sleep_selftest(old(t), final(t), old(mm)@, final(mm)@, *layout, entry, pc, r.0@, r.1),
{
    let ghost t0 = *t;
    let ghost mm0 = mm@;
    let mut out = uart::write_line("task sleep table selftest:");
    let r = spawn_named(t, mm, "sleep-probe", entry);
    let ghost t1 = *t;
    let ghost mm1 = mm@;
    assert(spawned(&t0, &t1, mm0, mm1, probe_name(), entry, 0, r));
    let id = match r {
        Some(id) => id,
        None => {
            let mut f = uart::write_line("task sleep wake result: FAILED");
            out.append(&mut f);
            return (out, false);
        },
    };
    let (mut text, ok1) = run_probe_checks(t, mm, layout, id);
    let ghost tt = text@;
    let ghost t2 = *t;
    let ghost mm2 = mm@;
    out.append(&mut text);
    assert(probe_checks(&t1, &t2, mm1, mm2, *layout, id, tt, ok1));
    if !ok1 {
        let mut f = uart::write_line("task sleep wake result: FAILED");
        out.append(&mut f);
        return (out, false);
    }
    let mut g = uart::write_line("task sleep wake no-image: OK");
    out.append(&mut g);
    let (mut rest, ok) = test_task_sleep_wakeup_with_saved_image(t, mm, layout, entry, pc);
    let ghost rt = rest@;
    out.append(&mut rest);
    assert(image_probe_test(&t2, &*t, mm2, mm@, *layout, entry, pc, rt, ok));
    (out, ok)
}

} // verus!

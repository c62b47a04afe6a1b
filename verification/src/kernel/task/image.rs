//! The boot image: the U-mode workers each boot contract starts.
use vstd::prelude::*;
use vstd::string::*;
use crate::drivers::uart::{self, crlf, line_bytes};
use crate::kernel::cpu::{self, Cpu, TrapExecutionContext};
use crate::kernel::contract::BootContract;
use crate::kernel::memory::{Layout, PageAllocator, PoolView};
use crate::kernel::task::bootstrap::{sleep_selftest, test_task_sleep_wakeup_table_selftest};
use crate::kernel::task::table::{self, init_text, initialized, spawned, task_list_text, TaskTable};

verus! {

/// Entry points (in `.usertext`) of the U-mode workers the images run.
#[derive(Clone, Copy)]
pub struct Workers {
    pub yield_main: u64,
    pub sleep_main: u64,
    pub pmp_deny: u64,
    pub two_yield: u64,
    pub handoff_a: u64,
    pub handoff_b: u64,
    pub clean_exit: u64,
    pub ebreak: u64,
    pub sleep_e2e: u64,
}

/// The workers the image of `plan` starts, by name and entry, in order.
pub open spec fn image_workers(plan: BootContract, w: Workers) -> Seq<(Seq<u8>, u64)> {
    match plan {
        BootContract::Resume => seq![("worker-resume".spec_bytes(), w.two_yield)],
        BootContract::Handoff => seq![
            ("worker-a".spec_bytes(), w.handoff_a),
            ("worker-b".spec_bytes(), w.handoff_b),
        ],
        BootContract::Fault => seq![
            ("worker-a".spec_bytes(), w.clean_exit),
            ("trap-worker".spec_bytes(), w.ebreak),
        ],
        BootContract::Sleep => seq![("worker-sleep".spec_bytes(), w.sleep_e2e)],
        BootContract::Preempt => seq![("worker-yield".spec_bytes(), w.yield_main)],
        _ => seq![
            ("worker-yield".spec_bytes(), w.yield_main),
            ("worker-sleep".spec_bytes(), w.sleep_main),
            ("worker-pmp-deny".spec_bytes(), w.pmp_deny),
        ],
    }
}

/// The line the image of `plan` announces itself with.
pub open spec fn image_line(plan: BootContract) -> Seq<u8> {
    match plan {
        BootContract::Resume => line_bytes("resume image: U-mode two-yield worker".spec_bytes()),
        BootContract::Handoff => line_bytes("handoff image: two U-mode yield workers".spec_bytes()),
        BootContract::Fault => line_bytes("fault image: exit worker + U-mode ebreak".spec_bytes()),
        BootContract::Sleep => line_bytes("sleep image: U-mode sleep then exit".spec_bytes()),
        BootContract::Preempt => line_bytes("preempt image: U-mode yield loop".spec_bytes()),
        _ => line_bytes("default image: idle + worker_yield + worker_sleep".spec_bytes()),
    }
}

/// Spawning each of `workers` in turn (argument 0) takes table `t0` and
/// pools `mm0` to `tn` and `mmn`.
pub open spec fn spawned_in_order(
    t0: &TaskTable,
    tn: &TaskTable,
    mm0: Seq<PoolView>,
    mmn: Seq<PoolView>,
    workers: Seq<(Seq<u8>, u64)>,
) -> bool
    decreases workers.len(),
{
    if workers.len() == 0 {
        *tn == *t0 && mmn == mm0
    } else {
        exists|t1: TaskTable, mm1: Seq<PoolView>, r: Option<table::TaskId>|
            #![trigger spawned(t0, &t1, mm0, mm1, workers[0].0, workers[0].1, 0, r)]
            {
                &&& spawned(t0, &t1, mm0, mm1, workers[0].0, workers[0].1, 0, r)
                &&& t1.wf()
                &&& spawned_in_order(&t1, tn, mm1, mmn, workers.drop_first())
            }
    }
}

fn spawn_worker(t: &mut TaskTable, mm: &mut PageAllocator, name: &str, entry: u64) -> (r: Option<
    table::TaskId,
>)
    requires
        old(t).wf(),
        old(mm).wf(),
    ensures
        final(t).wf(),
        final(mm).wf(),
        spawned(old(t), final(t), old(mm)@, final(mm)@, name.spec_bytes(), entry, 0, r),
{
    let bytes = name.as_bytes_vec();
    table::spawn(t, mm, bytes.as_slice(), entry, 0)
}

/// What runs between setting the table up and starting the workers: the
/// sleep self-test for the sleep image, nothing for the others. `out` is what
/// it prints and `ok` whether the boot goes on.
pub open spec fn image_prelude(
    t1: &TaskTable,
    t2: &TaskTable,
    mm1: Seq<PoolView>,
    mm2: Seq<PoolView>,
    plan: BootContract,
    layout: Layout,
    probe: u64,
    trampoline: u64,
    out: Seq<u8>,
    ok: bool,
) -> bool {
    if plan == BootContract::Sleep {
        sleep_selftest(t1, t2, mm1, mm2, layout, probe, trampoline, out, ok)
    } else {
        *t2 == *t1 && mm2 == mm1 && out == Seq::<u8>::empty() && ok
    }
}

/// Start the workers of `plan`'s image in `t`, then list the tasks.
fn spawn_image(t: &mut TaskTable, mm: &mut PageAllocator, plan: BootContract, workers: Workers) -> (r:
    Vec<u8>)
    requires
        old(t).wf(),
        old(mm).wf(),
    ensures
        final(t).wf(),
        final(mm).wf(),
        spawned_in_order(old(t), final(t), old(mm)@, final(mm)@, image_workers(plan, workers)),
        r@ == image_line(plan) + line_bytes("task list:".spec_bytes()) + task_list_text(
            final(t).tasks(),
            final(t).capacity(),
        ),
{
    let ghost t1 = *t;
    let ghost mm1 = mm@;
    let ghost ws = image_workers(plan, workers);
    let (first_name, first_entry, line): (&str, u64, &str) = match plan {
        BootContract::Resume => ("worker-resume", workers.two_yield, "resume image: U-mode two-yield worker"),
        BootContract::Handoff => ("worker-a", workers.handoff_a, "handoff image: two U-mode yield workers"),
        BootContract::Fault => ("worker-a", workers.clean_exit, "fault image: exit worker + U-mode ebreak"),
        BootContract::Sleep => ("worker-sleep", workers.sleep_e2e, "sleep image: U-mode sleep then exit"),
        BootContract::Preempt => ("worker-yield", workers.yield_main, "preempt image: U-mode yield loop"),
        _ => ("worker-yield", workers.yield_main, "default image: idle + worker_yield + worker_sleep"),
    };
    let r1 = spawn_worker(t, mm, first_name, first_entry);
    let ghost t2 = *t;
    let ghost mm2 = mm@;
    let ghost w1 = ws.drop_first();
    match plan {
        BootContract::Handoff => {
            let r2 = spawn_worker(t, mm, "worker-b", workers.handoff_b);
            proof {
                assert(w1.drop_first() =~= Seq::<(Seq<u8>, u64)>::empty());
                assert(spawned_in_order(&*t, &*t, mm@, mm@, w1.drop_first()));
                assert(w1[0] == ("worker-b".spec_bytes(), workers.handoff_b));
                assert(spawned(&t2, &*t, mm2, mm@, w1[0].0, w1[0].1, 0, r2));
                assert(spawned_in_order(&t2, &*t, mm2, mm@, w1));
            }
        },
        BootContract::Fault => {
            let r2 = spawn_worker(t, mm, "trap-worker", workers.ebreak);
            proof {
                assert(w1.drop_first() =~= Seq::<(Seq<u8>, u64)>::empty());
                assert(spawned_in_order(&*t, &*t, mm@, mm@, w1.drop_first()));
                assert(w1[0] == ("trap-worker".spec_bytes(), workers.ebreak));
                assert(spawned(&t2, &*t, mm2, mm@, w1[0].0, w1[0].1, 0, r2));
                assert(spawned_in_order(&t2, &*t, mm2, mm@, w1));
            }
        },
        BootContract::Resume | BootContract::Sleep | BootContract::Preempt => {
            proof {
                assert(w1 =~= Seq::<(Seq<u8>, u64)>::empty());
                assert(spawned_in_order(&t2, &*t, mm2, mm@, w1));
            }
        },
        _ => {
            let r2 = spawn_worker(t, mm, "worker-sleep", workers.sleep_main);
            let ghost t3 = *t;
            let ghost mm3 = mm@;
            let r3 = spawn_worker(t, mm, "worker-pmp-deny", workers.pmp_deny);
            proof {
                let w2 = w1.drop_first();
                assert(w2.drop_first() =~= Seq::<(Seq<u8>, u64)>::empty());
                assert(spawned_in_order(&*t, &*t, mm@, mm@, w2.drop_first()));
                assert(w2[0] == ("worker-pmp-deny".spec_bytes(), workers.pmp_deny));
                assert(spawned(&t3, &*t, mm3, mm@, w2[0].0, w2[0].1, 0, r3));
                assert(spawned_in_order(&t3, &*t, mm3, mm@, w2));
                assert(w1[0] == ("worker-sleep".spec_bytes(), workers.sleep_main));
                assert(spawned(&t2, &t3, mm2, mm3, w1[0].0, w1[0].1, 0, r2));
                assert(spawned_in_order(&t2, &*t, mm2, mm@, w1));
            }
        },
    }
    proof {
        assert(ws[0] == (first_name.spec_bytes(), first_entry));
        assert(spawned(&t1, &t2, mm1, mm2, ws[0].0, ws[0].1, 0, r1));
        assert(spawned_in_order(&t1, &*t, mm1, mm@, ws));
    }
    let mut out = uart::write_line(line);
    let mut list = table::print_tasks(t);
    out.append(&mut list);
    out
}

/// Set the hart's table up and start the workers of `plan`'s image, then
/// list the tasks. The sleep image first runs the sleep self-test
/// ([`test_task_sleep_wakeup_table_selftest`], probes entering at `probe`,
/// frames at `trampoline`) and, when it fails, stops there: the second
/// result is false and the hart halts.
pub fn spawn_default_image(
    t: &mut TaskTable,
    mm: &mut PageAllocator,
    task_size: usize,
    plan: BootContract,
    workers: Workers,
    layout: &Layout,
    probe: u64,
    trampoline: u64,
) -> (r: (Vec<u8>, bool))
    requires
        old(t).wf(),
        old(mm).wf(),
        task_size <= 0x10_0000,
    ensures
        final(t).wf(),
        final(mm).wf(),
        exists|t1: TaskTable, mm1: Seq<PoolView>, ir: Option<(usize, usize)>|
            #![trigger initialized(old(t), &t1, old(mm)@, mm1, task_size as int, ir)]
            {
                &&& initialized(old(t), &t1, old(mm)@, mm1, task_size as int, ir)
                &&& t1.wf()
                &&& match ir {
                    None => *final(t) == t1 && final(mm)@ == mm1 && !r.1 && r.0@ == init_text(
                        t1.hart_id(),
                        ir,
                    ),
                    Some(_) => exists|t2: TaskTable, mm2: Seq<PoolView>, pre: Seq<u8>, ok: bool|
                        #![trigger image_prelude(&t1, &t2, mm1, mm2, plan, *layout, probe, trampoline, pre, ok)]
                        {
                            &&& image_prelude(&t1, &t2, mm1, mm2, plan, *layout, probe, trampoline, pre, ok)
                            &&& r.1 == ok
                            &&& if ok {
                                &&& spawned_in_order(&t2, final(t), mm2, final(mm)@, image_workers(plan, workers))
                                &&& r.0@ == init_text(t1.hart_id(), ir) + pre + image_line(plan)
                                    + line_bytes("task list:".spec_bytes()) + task_list_text(
                                    final(t).tasks(),
                                    final(t).capacity(),
                                )
                            } else {
                                *final(t) == t2 && final(mm)@ == mm2 && r.0@ == init_text(
                                    t1.hart_id(),
                                    ir,
                                ) + pre
                            }
                        },
                }
            },
{
    let ghost t0 = *t;
    let ghost mm0 = mm@;
    let ir = table::init(t, mm, task_size);
    let ghost t1 = *t;
    let ghost mm1 = mm@;
    assert(initialized(&t0, &t1, mm0, mm1, task_size as int, ir));
    let mut out = table::print_init(t, ir);
    if ir.is_none() {
        return (out, false);
    }
    let ghost head = out@;
    let (mut pre, ok) = match plan {
        BootContract::Sleep => test_task_sleep_wakeup_table_selftest(t, mm, layout, probe, trampoline),
        _ => (Vec::new(), true),
    };
    let ghost t2 = *t;
    let ghost mm2 = mm@;
    let ghost pre_text = pre@;
    out.append(&mut pre);
    assert(image_prelude(&t1, &t2, mm1, mm2, plan, *layout, probe, trampoline, pre_text, ok));
    if !ok {
        return (out, false);
    }
    let ghost mid = out@;
    let mut rest = spawn_image(t, mm, plan, workers);
    out.append(&mut rest);
    assert(out@ =~= head + pre_text + (image_line(plan) + line_bytes("task list:".spec_bytes())
        + task_list_text(t.tasks(), t.capacity())));
    (out, true)
}

} // verus!

verus! {

/// Check that a current task with id 0 still counts as a task context: set
/// it, classify, and clear the current task again. Returns the report and
/// whether the check held (the hart stops when it did not).
pub fn print_task_zero_context_guard(cpu: &mut Cpu) -> (r: (Vec<u8>, bool))
    ensures
        *final(cpu) == (Cpu { current: None, ..*old(cpu) }),
        r.1,
        r.0@ == crlf("task id 0 context guard: ".spec_bytes()) + crlf("yes".spec_bytes()) + line_bytes(
            "".spec_bytes(),
        ),
{
    cpu::set_current(cpu, table::TaskId(0));
    let ok = cpu::trap_execution_context(cpu) == TrapExecutionContext::Task;
    cpu::clear_current(cpu);
    let mut out = uart::write_str("task id 0 context guard: ");
    let mut a = uart::write_str(table::print_yes_no(ok));
    out.append(&mut a);
    let mut b = uart::write_line("");
    out.append(&mut b);
    (out, ok)
}

/// What the task-table self-test does and prints.
pub open spec fn tasks_test_run(
    old_t: &TaskTable,
    new_t: &TaskTable,
    old_mm: Seq<PoolView>,
    new_mm: Seq<PoolView>,
    task_size: int,
    idle_entry: u64,
    worker_a_entry: u64,
    worker_b_entry: u64,
    out: Seq<u8>,
    ok: bool,
) -> bool {
    exists|t1: TaskTable, mm1: Seq<PoolView>, ir: Option<(usize, usize)>|
        #![trigger initialized(old_t, &t1, old_mm, mm1, task_size, ir)]
        {
            &&& initialized(old_t, &t1, old_mm, mm1, task_size, ir)
            &&& t1.wf()
            &&& ok == ir is Some
            &&& if ir is None {
                *new_t == t1 && new_mm == mm1 && out == init_text(t1.hart_id(), ir)
            } else {
                &&& spawned_in_order(
                    &t1,
                    new_t,
                    mm1,
                    new_mm,
                    seq![
                        ("idle".spec_bytes(), idle_entry),
                        ("worker-a".spec_bytes(), worker_a_entry),
                        ("worker-b".spec_bytes(), worker_b_entry),
                    ],
                )
                &&& out == init_text(t1.hart_id(), ir) + crlf("task id 0 context guard: ".spec_bytes())
                    + crlf("yes".spec_bytes()) + line_bytes("".spec_bytes()) + line_bytes(
                    "task list:".spec_bytes(),
                ) + task_list_text(new_t.tasks(), new_t.capacity())
            }
        }
}

/// The task-table self-test: set the table up, spawn an idle task and two
/// workers around the id-0 context guard, and list the tasks. The second
/// result is false when the pool cannot back the table (the hart halts).
pub fn test_tasks(
    t: &mut TaskTable,
    mm: &mut PageAllocator,
    cpu: &mut Cpu,
    task_size: usize,
    idle_entry: u64,
    worker_a_entry: u64,
    worker_b_entry: u64,
) -> (r: (Vec<u8>, bool))
    requires
        old(t).wf(),
        old(mm).wf(),
        task_size <= 0x10_0000,
    ensures
        final(t).wf(),
        final(mm).wf(),
        *final(cpu) == if r.1 {
            Cpu { current: None, ..*old(cpu) }
        } else {
            *old(cpu)
        },
        tasks_test_run(
            old(t),
            final(t),
            old(mm)@,
            final(mm)@,
            task_size as int,
            idle_entry,
            worker_a_entry,
            worker_b_entry,
            r.0@,
            r.1,
        ),
{
    let ir = table::init(t, mm, task_size);
    let ghost t1 = *t;
    let ghost mm1 = mm@;
    assert(initialized(old(t), &t1, old(mm)@, mm1, task_size as int, ir));
    let mut out = table::print_init(t, ir);
    if ir.is_none() {
        return (out, false);
    }
    let ghost head = out@;
    let r1 = spawn_worker(t, mm, "idle", idle_entry);
    let ghost t2 = *t;
    let ghost mm2 = mm@;
    let (mut guard, _) = print_task_zero_context_guard(cpu);
    out.append(&mut guard);
    let r2 = spawn_worker(t, mm, "worker-a", worker_a_entry);
    let ghost t3 = *t;
    let ghost mm3 = mm@;
    let r3 = spawn_worker(t, mm, "worker-b", worker_b_entry);
    proof {
        let ws = seq![
            ("idle".spec_bytes(), idle_entry),
            ("worker-a".spec_bytes(), worker_a_entry),
            ("worker-b".spec_bytes(), worker_b_entry),
        ];
        let w1 = ws.drop_first();
        let w2 = w1.drop_first();
        assert(w2.drop_first() =~= Seq::<(Seq<u8>, u64)>::empty());
        assert(spawned_in_order(&*t, &*t, mm@, mm@, w2.drop_first()));
        assert(spawned(&t3, &*t, mm3, mm@, w2[0].0, w2[0].1, 0, r3));
        assert(spawned_in_order(&t3, &*t, mm3, mm@, w2));
        assert(spawned(&t2, &t3, mm2, mm3, w1[0].0, w1[0].1, 0, r2));
        assert(spawned_in_order(&t2, &*t, mm2, mm@, w1));
        assert(spawned(&t1, &t2, mm1, mm2, ws[0].0, ws[0].1, 0, r1));
        assert(spawned_in_order(&t1, &*t, mm1, mm@, ws));
    }
    let mut list = table::print_tasks(t);
    out.append(&mut list);
    proof {
        assert(out@ =~= head + crlf("task id 0 context guard: ".spec_bytes()) + crlf(
            "yes".spec_bytes(),
        ) + line_bytes("".spec_bytes()) + line_bytes("task list:".spec_bytes()) + task_list_text(
            t.tasks(),
            t.capacity(),
        ));
    }
    (out, true)
}

} // verus!

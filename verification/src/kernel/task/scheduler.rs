//! Scheduling decisions: which task runs next, the image it resumes from, and
//! the scenario result markers the default image prints.
use vstd::prelude::*;
use vstd::string::*;
use crate::arch::riscv64::pmp::{self, napot_4k};
use crate::drivers::uart::{self, line_bytes};
use crate::kernel::contract::{self, BootContract};
use crate::kernel::cpu::{self, Cpu};
use crate::kernel::irq_cell::IrqCell;
use crate::kernel::memory::{self, in_user_text, Layout, PageAllocator, PoolView};
use crate::kernel::state::Kernel;
use crate::kernel::task::table::{self as task, dispatchable, id_local, Task, TaskId, TaskReturnKind, TaskState, TaskTable};
use crate::kernel::trap_frame::{frame_is_zero, image_valid, TrapImage};

verus! {

/// What the trap exit does after a scheduling decision.
#[derive(Debug)]
pub enum DispatchAction {
    /// `mret` into a worker from this image (`mepc` from the image, `mstatus`
    /// synthesized for a worker).
    Mret(TrapImage),
    /// Leave the trap for the idle loop on the kernel stack.
    IdleExit,
    /// Wait for interrupts in the idle loop.
    IdleLoop,
    /// Stop the hart.
    Halt,
}

/// Scenario progress the default image reports on the console.
#[derive(Clone, Copy)]
pub struct SchedMarkers {
    pub default_seen_yield: bool,
    pub default_seen_sleep: bool,
    pub default_marker_printed: bool,
    pub u_yields: u32,
    pub u_exits: u32,
    pub seen_fault: bool,
    pub scenario_marker_printed: bool,
    pub join_leak_baseline: Option<u64>,
    pub join_leak_printed: bool,
}

impl SchedMarkers {
    pub fn new() -> (r: Self)
        ensures
            !r.default_seen_yield && !r.default_seen_sleep && !r.default_marker_printed,
            r.u_yields == 0 && r.u_exits == 0,
            !r.seen_fault && !r.scenario_marker_printed,
            r.join_leak_baseline is None && !r.join_leak_printed,
    {
        SchedMarkers {
            default_seen_yield: false,
            default_seen_sleep: false,
            default_marker_printed: false,
            u_yields: 0,
            u_exits: 0,
            seen_fault: false,
            scenario_marker_printed: false,
            join_leak_baseline: None,
            join_leak_printed: false,
        }
    }
}

pub fn print_task_name(t: &TaskTable, id: TaskId) -> (r: Vec<u8>)
    requires
        t.wf(),
    ensures
        r@ == match t.slot_of(id) {
            Some(task) => task::name_prefix(task.name@),
            None => Seq::<u8>::empty(),
        },
{
    task::print_task_name_by_id(t, id)
}

pub fn switch_to_idle(cpu: &mut Cpu)
    ensures
        *final(cpu) == (Cpu { current: None, ..*old(cpu) }),
{
    cpu::clear_current(cpu);
}

/// The image a never-run task starts from: stack top in `sp`, its entry PC
/// in `a0`, its spawn argument in `a1`, entered at the U-mode trampoline.
pub open spec fn fresh_image_ok(img: TrapImage, task: Task, trampoline: u64) -> bool {
    &&& img.gpr == crate::kernel::trap_frame::Riscv64TrapFrame {
        sp: task.stack_top,
        a0: task.initial_pc,
        a1: task.spawn_arg,
        ..img.gpr
    }
    &&& frame_is_zero(crate::kernel::trap_frame::Riscv64TrapFrame { sp: 0, a0: 0, a1: 0, ..img.gpr })
    &&& img.mepc == trampoline
    &&& img.mstatus == 0
}

fn build_fresh_trap_image(t: &TaskTable, trampoline: u64, task_id: TaskId) -> (r: Option<TrapImage>)
    requires
        t.wf(),
    ensures
        match t.slot_of(task_id) {
            None => r is None,
            Some(task) => if task.initial_pc == 0 {
                r is None
            } else {
                r matches Some(img) && fresh_image_ok(img, task, trampoline)
            },
        },
{
    let entry_pc = match task::get_task_initial_pc(t, task_id) {
        Some(pc) => pc,
        None => {
            return None;
        },
    };
    if entry_pc == 0 {
        return None;
    }
    let stack_top = match task::get_task_stack_top(t, task_id) {
        Some(top) => top,
        None => {
            return None;
        },
    };
    let spawn_arg = match task::get_task_spawn_arg(t, task_id) {
        Some(a) => a,
        None => 0,
    };
    let mut image = TrapImage::empty();
    image.gpr.sp = stack_top;
    image.gpr.a0 = entry_pc;
    image.gpr.a1 = spawn_arg;
    image.mepc = trampoline;
    Some(image)
}

/// The next task to run after `after`.
pub fn next_after(t: &TaskTable, layout: &Layout, after: Option<TaskId>) -> (r: Option<TaskId>)
    requires
        t.wf(),
    ensures
        r == task::next_dispatchable_spec(t, *layout, after),
        r is None ==> forall|j: int| 0 <= j < t.capacity() ==> !dispatchable(#[trigger] t.tasks()[j], *layout),
        r matches Some(id) ==> exists|o: int|
            task::is_next_dispatchable(t.tasks(), t.capacity(), *layout, task::scan_start(t, after), o) && id
                == #[trigger] t.tasks()[(task::scan_start(t, after) + o) % t.capacity()].id,
{
    task::find_next_dispatchable_after(t, layout, after)
}

/// The task is Ready, never started and never saved a resume image.
pub open spec fn is_fresh(task: Task) -> bool {
    task.state == TaskState::Ready && !task.has_started && !task.can_resume
}

/// Where dispatching `task` resumes it: a fresh image for a fresh task, its
/// saved image otherwise; `None` when there is none to use.
pub open spec fn dispatch_image_exists(task: Task) -> bool {
    if is_fresh(task) {
        task.initial_pc != 0
    } else {
        task.trap_image is Some
    }
}

fn image_for_dispatch(t: &TaskTable, trampoline: u64, task_id: TaskId) -> (r: Option<(TrapImage, bool)>)
    requires
        t.wf(),
    ensures
        match t.slot_of(task_id) {
            None => r is None,
            Some(task) => if !dispatch_image_exists(task) {
                r is None
            } else {
                r matches Some((img, fresh)) && fresh == is_fresh(task) && (if fresh {
                    fresh_image_ok(img, task, trampoline)
                } else {
                    task.trap_image == Some(img)
                })
            },
        },
{
    let fresh = task::is_fresh_ready_task(t, task_id);
    let image = if fresh {
        match build_fresh_trap_image(t, trampoline, task_id) {
            Some(i) => i,
            None => {
                return None;
            },
        }
    } else {
        match task::get_task_trap_image(t, task_id) {
            Some(i) => i,
            None => {
                return None;
            },
        }
    };
    Some((image, fresh))
}

/// A dispatched task: Running when it was Ready or Running, and marked
/// started when it is entered fresh.
pub open spec fn dispatched_task(task: Task, fresh: bool) -> Task {
    let running = task.state == TaskState::Ready || task.state == TaskState::Running;
    Task {
        state: if running {
            TaskState::Running
        } else {
            task.state
        },
        has_started: if fresh && running {
            true
        } else {
            task.has_started
        },
        ..task
    }
}

/// The effect of dispatching occupied task `id` on the hart state.
pub open spec fn dispatched(old_k: &Kernel, new_k: &Kernel, id: TaskId, fresh: bool) -> bool {
    let l = id_local(id);
    let task = old_k.table.tasks()[l];
    &&& new_k.wf()
    &&& new_k.table.same_meta(&old_k.table)
    &&& new_k.table.tasks() == old_k.table.tasks().update(l, dispatched_task(task, fresh))
    &&& new_k.cpu == (Cpu {
        current: Some(id),
        current_stack_start: task.stack_start,
        current_stack_top: task.stack_top,
        kernel_sp_before_task: if fresh {
            old_k.layout.stack_top
        } else {
            old_k.cpu.kernel_sp_before_task
        },
    })
    &&& new_k.pmp.cfg0 == old_k.pmp.cfg0
    &&& new_k.pmp.cfg2 == old_k.pmp.cfg2
    &&& new_k.pmp.addr@ == old_k.pmp.addr@.update(4, napot_4k(task.stack_start))
    &&& new_k.mm@ == old_k.mm@
    &&& new_k.layout == old_k.layout
    &&& new_k.ticks == old_k.ticks
    &&& new_k.plan == old_k.plan
    &&& new_k.markers == old_k.markers
    &&& new_k.user_trampoline == old_k.user_trampoline
    &&& new_k.rendezvous_printed == old_k.rendezvous_printed
    &&& new_k.out@ == old_k.out@
}

fn arm_worker_for_mret(k: &mut Kernel, task_id: TaskId, fresh: bool)
    requires
        old(k).wf(),
        old(k).table.slot_of(task_id) is Some,
        fresh ==> is_fresh(old(k).table.slot_of(task_id)->Some_0),
    ensures
        dispatched(old(k), final(k), task_id, fresh),
{
    let ghost k0 = *k;
    proof {
        k0.table.lemma_wf_bounds();
    }
    let _ = task::mark_task_running(&mut k.table, task_id);
    proof {
        k.table.lemma_wf_bounds();
    }
    let stack_start = match task::get_task_stack_start(&k.table, task_id) {
        Some(s) => s,
        None => {
            assert(false);
            return;
        },
    };
    let stack_top = match task::get_task_stack_top(&k.table, task_id) {
        Some(s) => s,
        None => {
            assert(false);
            return;
        },
    };
    cpu::set_current(&mut k.cpu, task_id);
    cpu::set_current_stack_bounds(&mut k.cpu, stack_start, stack_top);
    pmp::set_current_stack(&mut k.pmp, stack_start);
    if fresh {
        let _ = task::mark_task_started(&mut k.table, task_id);
        let sp = memory::stack_top(&k.layout);
        cpu::set_kernel_sp_before_task(&mut k.cpu, sp);
    }
    proof {
        let l = id_local(task_id);
        assert(k.table.tasks() =~= k0.table.tasks().update(l, dispatched_task(k0.table.tasks()[l], fresh)));
    }
}

/// Dispatch `task_id`: `Mret` from its image, or `Halt` when it has none.
fn mret_to_task(k: &mut Kernel, task_id: TaskId) -> (r: DispatchAction)
    requires
        old(k).wf(),
    ensures
        final(k).wf(),
        match old(k).table.slot_of(task_id) {
            Some(task) if dispatch_image_exists(task) => r matches DispatchAction::Mret(img) && (if is_fresh(task) {
                fresh_image_ok(img, task, old(k).user_trampoline)
            } else {
                task.trap_image == Some(img)
            }) && dispatched(old(k), final(k), task_id, is_fresh(task)),
            _ => r is Halt && *final(k) == *old(k),
        },
{
    let (image, fresh) = match image_for_dispatch(&k.table, k.user_trampoline, task_id) {
        Some(x) => x,
        None => {
            return DispatchAction::Halt;
        },
    };
    arm_worker_for_mret(k, task_id, fresh);
    DispatchAction::Mret(image)
}

} // verus!

verus! {

/// The outcome of dispatching `next` (or going idle) from `old_k`.
pub open spec fn switched(old_k: &Kernel, new_k: &Kernel, next: Option<TaskId>, r: DispatchAction) -> bool {
    match next {
        None => r is IdleExit && *new_k == *old_k,
        Some(id) => match old_k.table.slot_of(id) {
            Some(task) if dispatch_image_exists(task) => r matches DispatchAction::Mret(img) && (if is_fresh(task) {
                fresh_image_ok(img, task, old_k.user_trampoline)
            } else {
                task.trap_image == Some(img)
            }) && dispatched(old_k, new_k, id, is_fresh(task)),
            _ => r is Halt && *new_k == *old_k,
        },
    }
}

pub fn switch_to(k: &mut Kernel, next: Option<TaskId>) -> (r: DispatchAction)
    requires
        old(k).wf(),
    ensures
        final(k).wf(),
        switched(old(k), final(k), next, r),
{
    match next {
        Some(id) => mret_to_task(k, id),
        None => DispatchAction::IdleExit,
    }
}

/// Dispatch the next task after `after`, or leave for idle.
pub fn switch_after(k: &mut Kernel, after: Option<TaskId>) -> (r: DispatchAction)
    requires
        old(k).wf(),
    ensures
        final(k).wf(),
        switched(old(k), final(k), task::next_dispatchable_spec(&old(k).table, old(k).layout, after), r),
{
    let next = next_after(&k.table, &k.layout, after);
    switch_to(k, next)
}

/// First dispatch on a hart: the next task after the current one, or the
/// idle loop when none is dispatchable.
pub fn run(k: &mut Kernel) -> (r: DispatchAction)
    requires
        old(k).wf(),
    ensures
        final(k).wf(),
        ({
            let next = task::next_dispatchable_spec(&old(k).table, old(k).layout, old(k).cpu.current);
            match next {
                None => r is IdleLoop && *final(k) == *old(k),
                Some(_) => switched(old(k), final(k), next, r),
            }
        }),
{
    let current = cpu::current(&k.cpu);
    match next_after(&k.table, &k.layout, current) {
        None => DispatchAction::IdleLoop,
        Some(id) => mret_to_task(k, id),
    }
}

/// Leave a trap for the idle loop: no current task; returns the kernel stack
/// pointer to idle on (the one saved before the first task, else the boot
/// stack top).
pub fn idle_exit_from_trap(k: &mut Kernel) -> (kernel_sp: u64)
    requires
        old(k).wf(),
    ensures
        final(k).wf(),
        *final(k) == (Kernel { cpu: Cpu { current: None, ..old(k).cpu }, ..*old(k) }),
        kernel_sp == if old(k).cpu.kernel_sp_before_task == 0 {
            old(k).layout.stack_top
        } else {
            old(k).cpu.kernel_sp_before_task
        },
{
    switch_to_idle(&mut k.cpu);
    let saved = cpu::kernel_sp_before_task(&k.cpu);
    if saved == 0 {
        memory::stack_top(&k.layout)
    } else {
        saved
    }
}

/// The scenario result line earned by the markers, if any.
pub open spec fn scenario_line(m: SchedMarkers, plan: BootContract, any_dispatchable: bool) -> Option<&'static str> {
    if (plan == BootContract::Resume && m.u_yields >= 2 && m.u_exits >= 1) || (plan == BootContract::Handoff
        && m.u_exits >= 2) {
        Some("scheduler resume loop result: OK")
    } else if plan == BootContract::Sleep && m.default_seen_sleep && m.u_exits >= 1 {
        Some("task sleep runtime e2e result: OK")
    } else if plan == BootContract::Fault && m.seen_fault && m.u_exits >= 1 && !any_dispatchable {
        Some("task fault scheduler result: OK")
    } else {
        None
    }
}

pub open spec fn any_dispatchable(t: &TaskTable, layout: Layout) -> bool {
    exists|j: int| 0 <= j < t.capacity() && dispatchable(#[trigger] t.tasks()[j], layout)
}

/// Print the scenario result line once, as soon as the markers earn one.
fn try_print_scenario_markers(k: &mut Kernel)
    requires
        old(k).wf(),
    ensures
        final(k).wf(),
        ({
            let m = old(k).markers;
            let line = scenario_line(m, old(k).plan.inner, any_dispatchable(&old(k).table, old(k).layout));
            if m.scenario_marker_printed || line is None {
                *final(k) == *old(k)
            } else {
                &&& *final(k) == (Kernel {
                    markers: SchedMarkers { scenario_marker_printed: true, ..m },
                    out: final(k).out,
                    ..*old(k)
                })
                &&& final(k).out@ == old(k).out@ + line_bytes(line->Some_0.spec_bytes())
            }
        }),
{
    if k.markers.scenario_marker_printed {
        return;
    }
    let yields = k.markers.u_yields;
    let exits = k.markers.u_exits;
    let faulted = k.markers.seen_fault;
    let slept = k.markers.default_seen_sleep;
    let plan = contract::plan(&k.plan);
    let marker: Option<&'static str> = if (plan == BootContract::Resume && yields >= 2 && exits >= 1)
        || (plan == BootContract::Handoff && exits >= 2) {
        Some("scheduler resume loop result: OK")
    } else if plan == BootContract::Sleep && slept && exits >= 1 {
        Some("task sleep runtime e2e result: OK")
    } else if plan == BootContract::Fault && faulted && exits >= 1 && !task::has_dispatchable_tasks(
        &k.table,
        &k.layout,
    ) {
        Some("task fault scheduler result: OK")
    } else {
        None
    };
    match marker {
        Some(line) => {
            k.markers.scenario_marker_printed = true;
            let mut bytes = uart::write_line(line);
            k.out.append(&mut bytes);
        },
        None => {},
    }
}

/// Markers after a worker returned to the kernel with `kind`.
pub open spec fn marked(m: SchedMarkers, kind: TaskReturnKind) -> SchedMarkers {
    match kind {
        TaskReturnKind::Yield => SchedMarkers {
            default_seen_yield: true,
            u_yields: ((m.u_yields as int + 1) % 0x1_0000_0000) as u32,
            ..m
        },
        TaskReturnKind::Sleep => SchedMarkers { default_seen_sleep: true, ..m },
        TaskReturnKind::Exit => SchedMarkers {
            u_exits: ((m.u_exits as int + 1) % 0x1_0000_0000) as u32,
            ..m
        },
        TaskReturnKind::Fault => SchedMarkers { seen_fault: true, ..m },
        _ => m,
    }
}

/// The effect of noting a default-image return of `kind` on the hart state.
pub open spec fn noted(old_k: &Kernel, new_k: &Kernel, kind: TaskReturnKind) -> bool {
    let m1 = marked(old_k.markers, kind);
    let checks = kind == TaskReturnKind::Exit || kind == TaskReturnKind::Fault;
    let line = scenario_line(m1, old_k.plan.inner, any_dispatchable(&old_k.table, old_k.layout));
    let prints_scenario = checks && !m1.scenario_marker_printed && line is Some;
    let m2 = if prints_scenario {
        SchedMarkers { scenario_marker_printed: true, ..m1 }
    } else {
        m1
    };
    let out2 = if prints_scenario {
        old_k.out@ + line_bytes(line->Some_0.spec_bytes())
    } else {
        old_k.out@
    };
    let prints_default = m2.default_seen_yield && m2.default_seen_sleep && !m2.default_marker_printed;
    &&& new_k.wf()
    &&& new_k.markers == if prints_default {
        SchedMarkers { default_marker_printed: true, ..m2 }
    } else {
        m2
    }
    &&& new_k.out@ == if prints_default {
        out2 + line_bytes("default scheduler: yield and sleep OK".spec_bytes())
    } else {
        out2
    }
    &&& *new_k == (Kernel { markers: new_k.markers, out: new_k.out, ..*old_k })
}

/// Record how a worker of the default image returned; print the scenario
/// result line when an exit or fault earns it, and the yield-and-sleep line
/// once both have been seen.
pub fn note_default_image_return(k: &mut Kernel, kind: TaskReturnKind)
    requires
        old(k).wf(),
    ensures
        noted(old(k), final(k), kind),
{
    match kind {
        TaskReturnKind::Yield => {
            k.markers.default_seen_yield = true;
            k.markers.u_yields = k.markers.u_yields.wrapping_add(1);
        },
        TaskReturnKind::Sleep => {
            k.markers.default_seen_sleep = true;
        },
        TaskReturnKind::Exit => {
            k.markers.u_exits = k.markers.u_exits.wrapping_add(1);
            try_print_scenario_markers(k);
        },
        TaskReturnKind::Fault => {
            k.markers.seen_fault = true;
            try_print_scenario_markers(k);
        },
        _ => {},
    }
    let yield_seen = k.markers.default_seen_yield;
    let sleep_seen = k.markers.default_seen_sleep;
    if yield_seen && sleep_seen && !k.markers.default_marker_printed {
        k.markers.default_marker_printed = true;
        let mut bytes = uart::write_line("default scheduler: yield and sleep OK");
        k.out.append(&mut bytes);
    }
}

/// Remember the pages in use before the default image's spawn/join run.
pub fn capture_default_join_baseline(markers: &mut SchedMarkers, mm: &PageAllocator)
    requires
        mm.wf(),
    ensures
        *final(markers) == (SchedMarkers {
            join_leak_baseline: Some(memory::sum_used(mm@, crate::platform::HART_SLOTS as int) as u64),
            ..*old(markers)
        }),
{
    markers.join_leak_baseline = Some(memory::stats(mm).used);
}

/// The effect of a join reap on the markers and the console: the leak-check
/// lines are printed once, when the pages in use are back at the baseline.
pub open spec fn join_reap_noted(old_m: SchedMarkers, new_m: SchedMarkers, pools: Seq<PoolView>, out: Seq<u8>) -> bool {
    let prints = match old_m.join_leak_baseline {
        Some(b) => memory::sum_used(pools, crate::platform::HART_SLOTS as int) == b
            && !old_m.join_leak_printed,
        None => false,
    };
    &&& new_m == if prints {
        SchedMarkers { join_leak_printed: true, ..old_m }
    } else {
        old_m
    }
    &&& out == if prints {
        line_bytes("default spawn join: OK".spec_bytes()) + line_bytes("spawn join leak: OK".spec_bytes())
    } else {
        Seq::<u8>::empty()
    }
}

/// After a join reaps a task: print the leak-check lines once, when the pages
/// in use are back at the baseline.
pub fn note_join_reap(markers: &mut SchedMarkers, mm: &PageAllocator) -> (r: Vec<u8>)
    requires
        mm.wf(),
    ensures
        join_reap_noted(*old(markers), *final(markers), mm@, r@),
{
    let mut out: Vec<u8> = Vec::new();
    let baseline = match markers.join_leak_baseline {
        Some(b) => b,
        None => {
            return out;
        },
    };
    if memory::stats(mm).used != baseline {
        return out;
    }
    let already = markers.join_leak_printed;
    markers.join_leak_printed = true;
    if already {
        return out;
    }
    let mut a = uart::write_line("default spawn join: OK");
    let mut b = uart::write_line("spawn join leak: OK");
    out.append(&mut a);
    out.append(&mut b);
    out
}

} // verus!

verus! {

/// A spawned task's first dispatch enters the U-mode trampoline on the top
/// of its own stack, with the entry PC it was spawned with in `a0` and the
/// argument it was spawned with in `a1`.
pub proof fn lemma_spawned_task_starts_with_its_argument(
    t0: &TaskTable,
    mm0: Seq<PoolView>,
    k1: &Kernel,
    k2: &Kernel,
    name: Seq<u8>,
    entry: u64,
    arg: u64,
    id: TaskId,
    d: DispatchAction,
)
    requires
        t0.wf(),
        task::spawned(t0, &k1.table, mm0, k1.mm@, name, entry, arg, Some(id)),
        entry != 0,
        switched(k1, k2, Some(id), d),
    ensures
        d matches DispatchAction::Mret(img) && img.gpr.a0 == entry && img.gpr.a1 == arg && img.mepc
            == k1.user_trampoline && img.gpr.sp == k1.table.slot_of(id)->Some_0.stack_top,
{
    t0.lemma_wf_bounds();
    let local = t0.free_slots()[0];
    assert(0 <= local < t0.capacity());
    task::lemma_task_id_roundtrip(
        t0.current_generation() as u16,
        t0.hart_id() as u16,
        local as u16,
    );
    assert(id_local(id) == local);
    let tk = k1.table.tasks()[local];
    assert(k1.table.slot_of(id) == Some(tk));
    assert(is_fresh(tk));
}

/// Every `mret` the scheduler decides either enters a never-run task through
/// the U-mode trampoline on the top of its own stack, or resumes a saved
/// image whose PC lies in `.usertext` and whose stack pointer lies in the
/// task's own stack.
pub proof fn lemma_dispatch_resumes_safely(
    old_k: &Kernel,
    new_k: &Kernel,
    after: Option<TaskId>,
    r: DispatchAction,
)
    requires
        old_k.wf(),
        switched(old_k, new_k, task::next_dispatchable_spec(&old_k.table, old_k.layout, after), r),
    ensures
        r matches DispatchAction::Mret(img) ==> exists|task: Task|
            #![trigger dispatchable(task, old_k.layout)]
            {
                &&& dispatchable(task, old_k.layout)
                &&& (img.mepc == old_k.user_trampoline && img.gpr.sp == task.stack_top) || (
                image_valid(img) && in_user_text(old_k.layout, img.mepc) && task.stack_start
                    <= img.gpr.sp <= task.stack_top)
            },
{
    task::lemma_next_dispatchable_found(&old_k.table, old_k.layout, after);
    match task::next_dispatchable_spec(&old_k.table, old_k.layout, after) {
        Some(id) => {
            let task = old_k.table.slot_of(id)->Some_0;
            assert(dispatchable(task, old_k.layout));
        },
        None => {},
    }
}

} // verus!
